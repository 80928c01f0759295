//! What the history remembers of the canvas: it shows the moment after its
//! newest change, so that undoing and redoing give back what was there.

use crate::lists::{first_from_found, first_where, kept, kept_satisfies};
use crate::panes::canvas::edits::{without, NodeEditView};
use crate::panes::canvas::frame::{plain_all, transparent_view, white_view, FrameView};
use crate::panes::canvas::history::{
    bumped, changes_are_undone_and_redone, is_joined, is_kept, no_history, redone,
    retained_between, same_moment, trimmed_entries, undone, EntryView, HistoryView, SnapshotView,
};
use crate::panes::canvas::layers::{is_addressable, layers_of, layers_set, node_changed};
use crate::panes::canvas::messages::{
    files_told, history_kind, is_about_files, is_about_layers, layers_told, new_with_imports,
    opt_report, paths_of, told, tools_told, updated, CanvasMsg,
};
use crate::panes::canvas::opening::{
    blank_asked, files_imported, image_opened, incoming_views, layers_imported, open_requested,
    project_opened, project_store, IncomingView, ProjectView, SaveView,
};
use crate::panes::canvas::painting::{
    selection_edited, stroke_pressed, stroke_released, target_of_edit, tiles_reset, tiles_settled,
};
use crate::panes::canvas::pane::{
    empty_pane, has_changes, moment_of, pane_begun, pane_committed, pane_redone, pane_undone,
    pixels_replaced, row_of, PaneView, Point,
};
use crate::panes::canvas::store::{
    after, bears, empty_store, is_named, BitmapView, StoreView,
};
use crate::panes::canvas::tree::pixel_ids;
use vstd::prelude::*;

verus! {

/// Two moments have the same document, the same pixels and the same revision.
pub open spec fn is_same(a: SnapshotView, b: SnapshotView) -> bool {
    a.document == b.document && a.store.bitmaps == b.store.bitmaps && a.revision == b.revision
}

/// The canvas shows the document, the pixels and the revision of a moment.
pub open spec fn shows(p: PaneView, moment: SnapshotView) -> bool {
    p.document == Some(moment.document) && p.store.bitmaps == moment.store.bitmaps && p.revision
        == moment.revision
}

/// The versions of the bitmaps are below one that is not used yet.
pub open spec fn is_fresh(store: StoreView, version: u64) -> bool {
    forall|i: int|
        0 <= i < store.bitmaps.len() ==> (#[trigger] store.bitmaps[i]).version < version
}

/// A store has other versions than another, unless its bitmaps are the same.
pub open spec fn differs(a: StoreView, b: StoreView) -> bool {
    a.bitmaps == b.bitmaps || !a.same_versions(b)
}

/// Each change that can be undone begins where the one before it ended.
pub open spec fn is_chain(undo: Seq<EntryView>) -> bool {
    forall|i: int|
        0 < i < undo.len() ==> is_same((#[trigger] undo[i]).before, undo[i - 1].after)
}

/// Each change that can be redone begins where the one after it in the list
/// ended.
pub open spec fn is_back_chain(redo: Seq<EntryView>) -> bool {
    forall|i: int|
        0 < i < redo.len() ==> is_same(redo[i - 1].before, (#[trigger] redo[i]).after)
}

/// The versions of the moments of changes are below one that is not used yet.
pub open spec fn are_fresh(entries: Seq<EntryView>, version: u64) -> bool {
    forall|i: int|
        0 <= i < entries.len() ==> is_fresh((#[trigger] entries[i]).before.store, version)
            && is_fresh(entries[i].after.store, version)
}

/// The changes of a history lead up to a moment, and away from it.
pub open spec fn leads_to(h: HistoryView, moment: SnapshotView) -> bool {
    &&& is_chain(h.undo)
    &&& is_back_chain(h.redo)
    &&& h.undo.len() > 0 ==> is_same(h.undo.last().after, moment)
    &&& h.redo.len() > 0 ==> is_same(h.redo.last().before, moment)
}

/// What the history remembers is what the canvas shows: the changes lead up to
/// it, or to the moment before the stroke that is under way.
pub open spec fn is_remembered(p: PaneView) -> bool {
    &&& is_fresh(p.store, p.versions)
    &&& are_fresh(p.history.undo, p.versions)
    &&& are_fresh(p.history.redo, p.versions)
    &&& match p.history.pending {
        Some((before, _)) => {
            &&& p.stroke is Some
            &&& is_begun(p, before)
        },
        None => {
            &&& p.stroke is None
            &&& match moment_of(p) {
                Some(now) => leads_to(p.history, now),
                None => p.history.undo.len() == 0 && p.history.redo.len() == 0,
            }
        },
    }
}

/// A change that began at a moment is under way.
pub open spec fn is_begun(p: PaneView, before: SnapshotView) -> bool {
    &&& p.document is Some
    &&& leads_to(p.history, before)
    &&& is_fresh(before.store, p.versions)
    &&& differs(before.store, p.store)
}

/// A new canvas remembers nothing.
pub proof fn new_canvases_are_remembered()
    ensures
        is_remembered(empty_pane()),
{
}

proof fn new_version_differs(a: StoreView, b: StoreView, version: u64, at: int)
    requires
        is_fresh(a, version),
        0 <= at < b.bitmaps.len(),
        b.bitmaps[at].version >= version,
    ensures
        differs(a, b),
{
    if b.within(a) {
        assert(a.has_version(b.bitmaps[at].id, b.bitmaps[at].version));
    }
}

proof fn added_differs(a: StoreView, s: StoreView, frame: FrameView, version: u64)
    requires
        is_fresh(a, version),
        is_fresh(s, version),
        version < u64::MAX,
    ensures
        is_fresh(s.with(frame, version), after(version)),
        differs(a, s.with(frame, version)),
{
    let b = s.with(frame, version);
    assert(b.bitmaps[s.bitmaps.len() as int].version == version);
    new_version_differs(a, b, version, s.bitmaps.len() as int);
}

proof fn replaced_differs(a: StoreView, s: StoreView, id: u64, frame: FrameView, version: u64)
    requires
        is_fresh(a, version),
        is_fresh(s, version),
        differs(a, s),
        version < u64::MAX,
    ensures
        is_fresh(s.replaced(id, frame, version), after(version)),
        differs(a, s.replaced(id, frame, version)),
{
    first_from_found(s.bitmaps, bears(id), 0);
    if let Some(i) = first_where(s.bitmaps, bears(id)) {
        new_version_differs(a, s.replaced(id, frame, version), version, i);
    }
}

proof fn kept_stays_fresh(v: Seq<BitmapView>, p: spec_fn(BitmapView) -> bool, version: u64)
    requires
        forall|i: int| 0 <= i < v.len() ==> (#[trigger] v[i]).version < version,
    ensures
        forall|i: int| 0 <= i < kept(v, p).len() ==> (#[trigger] kept(v, p)[i]).version < version,
    decreases v.len(),
{
    if v.len() > 0 {
        kept_stays_fresh(v.drop_last(), p, version);
        let before = kept(v.drop_last(), p);
        assert forall|i: int| 0 <= i < kept(v, p).len() implies (#[trigger] kept(v, p)[i]).version
            < version by {
            if i < before.len() {
                assert(kept(v, p)[i] == before[i]);
            }
        }
    }
}

proof fn all_are_kept(v: Seq<BitmapView>, p: spec_fn(BitmapView) -> bool)
    requires
        forall|i: int| 0 <= i < v.len() ==> p(#[trigger] v[i]),
    ensures
        kept(v, p) == v,
    decreases v.len(),
{
    if v.len() > 0 {
        assert forall|i: int| 0 <= i < v.drop_last().len() implies p(#[trigger] v.drop_last()[i]) by {
            assert(v.drop_last()[i] == v[i]);
        }
        all_are_kept(v.drop_last(), p);
        assert(v.drop_last().push(v.last()) =~= v);
    }
}

proof fn swept_differs(s: StoreView, ids: Seq<u64>, version: u64)
    requires
        is_fresh(s, version),
    ensures
        is_fresh(s.retained(ids), version),
        differs(s, s.retained(ids)),
{
    let named = is_named(ids);
    let left = s.retained(ids);
    kept_stays_fresh(s.bitmaps, named, version);
    kept_satisfies(s.bitmaps, named);
    if forall|i: int| 0 <= i < s.bitmaps.len() ==> named(#[trigger] s.bitmaps[i]) {
        all_are_kept(s.bitmaps, named);
    } else {
        let i = choose|i: int| 0 <= i < s.bitmaps.len() && !named(#[trigger] s.bitmaps[i]);
        let lost = s.bitmaps[i];
        if s.within(left) {
            assert(left.has_version(lost.id, lost.version));
            let j = choose|j: int|
                0 <= j < left.bitmaps.len() && (#[trigger] left.bitmaps[j]).id == lost.id
                    && left.bitmaps[j].version == lost.version;
            assert(named(left.bitmaps[j]));
        }
    }
}

proof fn added_and_swept_differs(s: StoreView, frame: FrameView, ids: Seq<u64>, version: u64)
    requires
        is_fresh(s, version),
        version < u64::MAX,
    ensures
        is_fresh(s.with(frame, version).retained(ids), after(version)),
        differs(s, s.with(frame, version).retained(ids)),
{
    let grown = s.with(frame, version);
    added_differs(s, s, frame, version);
    swept_differs(grown, ids, after(version));
    swept_differs(s, ids, version);
    let left = grown.retained(ids);
    assert(grown.bitmaps.drop_last() =~= s.bitmaps);
    if is_named(ids)(grown.bitmaps.last()) {
        let at = left.bitmaps.len() - 1;
        assert(left.bitmaps[at].version == version);
        new_version_differs(s, left, version, at);
    } else {
        assert(left.bitmaps == s.retained(ids).bitmaps);
        if s.retained(ids).bitmaps != s.bitmaps {
            assert(!s.same_versions(s.retained(ids)));
            same_bitmaps(s, s.retained(ids), left);
        }
    }
}

proof fn same_bitmaps(s: StoreView, a: StoreView, b: StoreView)
    requires
        a.bitmaps == b.bitmaps,
    ensures
        s.same_versions(a) == s.same_versions(b),
{
    assert forall|id: u64, version: u64| a.has_version(id, version) == b.has_version(id, version) by {}
    if s.within(a) {
        assert(s.within(b));
    }
    if s.within(b) {
        assert(s.within(a));
    }
    if a.within(s) {
        assert(b.within(s));
    }
    if b.within(s) {
        assert(a.within(s));
    }
}

/// A message about the layers that changes the pixels changes their versions.
proof fn layers_differ(p: PaneView, msg: CanvasMsg)
    requires
        is_about_layers(msg),
        is_fresh(p.store, p.versions),
        p.versions < u64::MAX,
    ensures
        ({
            let done = layers_told(p, msg).0;
            &&& is_fresh(done.store, done.versions)
            &&& differs(p.store, done.store)
            &&& p.versions <= done.versions <= p.versions + 1
            &&& done.history == p.history
            &&& done.stroke == p.stroke
            &&& done.document is Some == p.document is Some
        }),
{
    match msg {
        CanvasMsg::LayerAdd => {
            if let Some(d) = p.document {
                added_differs(p.store, p.store, transparent_view(d.width, d.height), p.versions);
            }
        },
        CanvasMsg::LayerDelete(index) => {
            if let (Some(target), Some(d)) = (row_of(p, index), p.document) {
                swept_differs(
                    p.store,
                    pixel_ids(layers_of(layers_set(p, without(d.children, target.id)))),
                    p.versions,
                );
            }
        },
        CanvasMsg::LayerMaskAdd => {
            if let Some(d) = p.document {
                let frame = white_view(d.width, d.height);
                added_differs(p.store, p.store, frame, p.versions);
                added_and_swept_differs(p.store, frame, pixel_ids(layers_of(p)), p.versions);
            }
        },
        CanvasMsg::LayerMaskRemove => {
            if let Some(id) = p.active {
                swept_differs(
                    p.store,
                    pixel_ids(layers_of(node_changed(p, id, NodeEditView::Mask(None)))),
                    p.versions,
                );
            }
        },
        _ => {},
    }
}

proof fn imports_differ(a: StoreView, p: PaneView, list: Seq<IncomingView>, from: int, to: int)
    requires
        0 <= from,
        p.versions + (if to > from {
            to - from
        } else {
            0
        }) < u64::MAX,
        is_fresh(a, p.versions),
        is_fresh(p.store, p.versions),
        differs(a, p.store),
    ensures
        ({
            let done = layers_imported(p, list, from, to);
            &&& is_fresh(done.store, done.versions)
            &&& differs(a, done.store)
            &&& p.versions <= done.versions <= p.versions + (if to > from {
                to - from
            } else {
                0
            })
            &&& done.history == p.history
            &&& done.stroke == p.stroke
            &&& done.document is Some == p.document is Some
            &&& p.document is None ==> done == p
        }),
    decreases to - from,
{
    if to > from {
        imports_differ(a, p, list, from, to - 1);
        let before = layers_imported(p, list, from, to - 1);
        if let Ok((_, fitted)) = list[to - 1].picture {
            let done = layers_imported(p, list, from, to);
            if before.document is Some && is_addressable(before.document->0) {
                let frame = done.store.bitmaps.last().frame;
                assert(done.store == before.store.with(frame, before.versions));
                added_differs(a, before.store, frame, before.versions);
            }
        }
    }
}

/// How many pictures a message may store.
pub open spec fn pictures_in(msg: CanvasMsg) -> int {
    match msg {
        CanvasMsg::ImportLayers(list) => list@.len() as int + 1,
        CanvasMsg::HandoffImport(list) => list@.len() as int + 1,
        CanvasMsg::NewAndImport(list, _) => list@.len() as int + 2,
        _ => 2,
    }
}

proof fn files_differ(p: PaneView, list: Seq<IncomingView>)
    requires
        p.versions + list.len() + 1 < u64::MAX,
        is_fresh(p.store, p.versions),
    ensures
        ({
            let done = files_imported(p, list).0;
            &&& is_fresh(done.store, done.versions)
            &&& p.versions <= done.versions <= p.versions + list.len() + 1
            &&& done.stroke == p.stroke
            &&& p.document is Some ==> done.history == p.history && done.document is Some && differs(
                p.store,
                done.store,
            )
            &&& p.document is None ==> done == p || (done.history
                == no_history() && done.document is Some)
        }),
{
    let n = list.len() as int;
    if p.document is Some {
        imports_differ(p.store, p, list, 0, n);
    } else if n > 0 {
        match list[0].picture {
            Ok((whole, _)) => {
                let open = image_opened(p, list[0].path, whole);
                let none = empty_store();
                added_differs(none, none, whole, p.versions);
                imports_differ(open.store, open, list, 1, n);
            },
            Err(_) => {
                imports_differ(p.store, p, list, 1, n);
            },
        }
    } else {
        imports_differ(p.store, p, list, 1, n);
    }
}

proof fn fresh_later(store: StoreView, version: u64, later: u64)
    requires
        is_fresh(store, version),
        version <= later,
    ensures
        is_fresh(store, later),
{
}

proof fn fresh_entries_later(entries: Seq<EntryView>, version: u64, later: u64)
    requires
        are_fresh(entries, version),
        version <= later,
    ensures
        are_fresh(entries, later),
{
    assert forall|i: int| 0 <= i < entries.len() implies is_fresh(
        (#[trigger] entries[i]).before.store,
        later,
    ) && is_fresh(entries[i].after.store, later) by {
        fresh_later(entries[i].before.store, version, later);
        fresh_later(entries[i].after.store, version, later);
    }
}

proof fn trimmed_stays(entries: Seq<EntryView>, version: u64)
    requires
        is_chain(entries),
        are_fresh(entries, version),
    ensures
        is_chain(trimmed_entries(entries)),
        are_fresh(trimmed_entries(entries), version),
        trimmed_entries(entries).len() > 0 ==> trimmed_entries(entries).last() == entries.last(),
    decreases entries.len(),
{
    if entries.len() > 0 && !is_kept(entries) {
        let tail = entries.subrange(1, entries.len() as int);
        assert forall|i: int| 0 < i < tail.len() implies is_same(
            (#[trigger] tail[i]).before,
            tail[i - 1].after,
        ) by {
            assert(tail[i] == entries[i + 1]);
        }
        assert forall|i: int| 0 <= i < tail.len() implies is_fresh(
            (#[trigger] tail[i]).before.store,
            version,
        ) && is_fresh(tail[i].after.store, version) by {
            assert(tail[i] == entries[i + 1]);
        }
        trimmed_stays(tail, version);
    }
}

/// Once a change is over the history leads up to what the canvas shows.
proof fn committing_remembers(p: PaneView)
    requires
        p.stroke is None,
        is_fresh(p.store, p.versions),
        are_fresh(p.history.undo, p.versions),
        are_fresh(p.history.redo, p.versions),
        p.history.pending matches Some((before, _)) && is_begun(p, before),
    ensures
        is_remembered(pane_committed(p)),
{
    let (before, kind) = p.history.pending->0;
    let now = moment_of(p)->0;
    let done = pane_committed(p);
    if same_moment(before, now) {
        assert(before.store.bitmaps == now.store.bitmaps);
    } else {
        let later = SnapshotView { revision: bumped(p.revision), ..now };
        let undo = p.history.undo;
        if is_joined(undo, before, kind) {
            let made = done.history.undo;
            assert forall|i: int| 0 < i < made.len() implies is_same(
                (#[trigger] made[i]).before,
                made[i - 1].after,
            ) by {
                assert(made[i].before == undo[i].before);
                assert(made[i - 1] == undo[i - 1]);
            }
            assert forall|i: int| 0 <= i < made.len() implies is_fresh(
                (#[trigger] made[i]).before.store,
                p.versions,
            ) && is_fresh(made[i].after.store, p.versions) by {
                assert(made[i].before == undo[i].before);
                if i < made.len() - 1 {
                    assert(made[i] == undo[i]);
                }
            }
        } else {
            let entry = EntryView {
                before,
                after: later,
                retained_bytes: retained_between(before.store, later.store),
                coalesce_kind: kind,
            };
            let grown = undo.push(entry);
            assert forall|i: int| 0 < i < grown.len() implies is_same(
                (#[trigger] grown[i]).before,
                grown[i - 1].after,
            ) by {
                assert(grown[i - 1] == undo[i - 1]);
                if i < undo.len() {
                    assert(grown[i] == undo[i]);
                }
            }
            assert forall|i: int| 0 <= i < grown.len() implies is_fresh(
                (#[trigger] grown[i]).before.store,
                p.versions,
            ) && is_fresh(grown[i].after.store, p.versions) by {
                if i < undo.len() {
                    assert(grown[i] == undo[i]);
                }
            }
            trimmed_stays(grown, p.versions);
        }
    }
}

proof fn releasing_remembers(p: PaneView)
    requires
        is_remembered(p),
        p.versions < u64::MAX,
    ensures
        is_remembered(stroke_released(p)),
        stroke_released(p).stroke is None,
        stroke_released(p).document is Some == p.document is Some,
        p.versions <= stroke_released(p).versions <= p.versions + 1,
{
    if let Some(stroke) = p.stroke {
        let over = PaneView { stroke: None, ..p };
        let (before, _) = p.history.pending->0;
        match stroke.scratch {
            Some(frame) => {
                let done = pixels_replaced(over, stroke.target, frame);
                replaced_differs(before.store, p.store, stroke.target, frame, p.versions);
                fresh_later(before.store, p.versions, done.versions);
                fresh_entries_later(p.history.undo, p.versions, done.versions);
                fresh_entries_later(p.history.redo, p.versions, done.versions);
                committing_remembers(done);
            },
            None => {
                committing_remembers(over);
            },
        }
    }
}

proof fn undoing_remembers(p: PaneView)
    requires
        is_remembered(p),
    ensures
        is_remembered(pane_undone(p)),
        is_remembered(pane_redone(p)),
{
    let h = p.history;
    if p.stroke is None && h.undo.len() > 0 {
        let (back, moment) = undone(h)->0;
        let last = h.undo.last();
        assert forall|i: int| 0 < i < back.redo.len() implies is_same(
            back.redo[i - 1].before,
            (#[trigger] back.redo[i]).after,
        ) by {
            assert(back.redo[i - 1] == h.redo[i - 1]);
            if i < h.redo.len() {
                assert(back.redo[i] == h.redo[i]);
            }
        }
        assert forall|i: int| 0 < i < back.undo.len() implies is_same(
            (#[trigger] back.undo[i]).before,
            back.undo[i - 1].after,
        ) by {
            assert(back.undo[i] == h.undo[i] && back.undo[i - 1] == h.undo[i - 1]);
        }
        assert(are_fresh(back.redo, p.versions)) by {
            assert forall|i: int| 0 <= i < back.redo.len() implies is_fresh(
                (#[trigger] back.redo[i]).before.store,
                p.versions,
            ) && is_fresh(back.redo[i].after.store, p.versions) by {
                if i < h.redo.len() {
                    assert(back.redo[i] == h.redo[i]);
                } else {
                    assert(back.redo[i] == h.undo[h.undo.len() - 1]);
                }
            }
        }
        assert(are_fresh(back.undo, p.versions)) by {
            assert forall|i: int| 0 <= i < back.undo.len() implies is_fresh(
                (#[trigger] back.undo[i]).before.store,
                p.versions,
            ) && is_fresh(back.undo[i].after.store, p.versions) by {
                assert(back.undo[i] == h.undo[i]);
            }
        }
        if back.undo.len() > 0 {
            assert(is_same(h.undo[h.undo.len() - 1].before, h.undo[h.undo.len() - 2].after));
        }
        assert(is_fresh(h.undo[h.undo.len() - 1].before.store, p.versions));
    }
    if p.stroke is None && h.redo.len() > 0 {
        let (forth, moment) = redone(h)->0;
        assert forall|i: int| 0 < i < forth.undo.len() implies is_same(
            (#[trigger] forth.undo[i]).before,
            forth.undo[i - 1].after,
        ) by {
            assert(forth.undo[i - 1] == h.undo[i - 1]);
            if i < h.undo.len() {
                assert(forth.undo[i] == h.undo[i]);
            }
        }
        assert forall|i: int| 0 < i < forth.redo.len() implies is_same(
            forth.redo[i - 1].before,
            (#[trigger] forth.redo[i]).after,
        ) by {
            assert(forth.redo[i] == h.redo[i] && forth.redo[i - 1] == h.redo[i - 1]);
        }
        assert(are_fresh(forth.undo, p.versions)) by {
            assert forall|i: int| 0 <= i < forth.undo.len() implies is_fresh(
                (#[trigger] forth.undo[i]).before.store,
                p.versions,
            ) && is_fresh(forth.undo[i].after.store, p.versions) by {
                if i < h.undo.len() {
                    assert(forth.undo[i] == h.undo[i]);
                } else {
                    assert(forth.undo[i] == h.redo[h.redo.len() - 1]);
                }
            }
        }
        assert(are_fresh(forth.redo, p.versions)) by {
            assert forall|i: int| 0 <= i < forth.redo.len() implies is_fresh(
                (#[trigger] forth.redo[i]).before.store,
                p.versions,
            ) && is_fresh(forth.redo[i].after.store, p.versions) by {
                assert(forth.redo[i] == h.redo[i]);
            }
        }
        if forth.redo.len() > 0 {
            assert(is_same(h.redo[h.redo.len() - 2].before, h.redo[h.redo.len() - 1].after));
        }
        assert(is_fresh(h.redo[h.redo.len() - 1].after.store, p.versions));
    }
}

/// Whatever a canvas remembers, an undo goes back to the moment before the
/// newest change and a redo on to the moment after it, and the history is as it
/// was. So the two bring back what was there exactly where the canvas showed
/// the moment after its newest change.
pub proof fn undone_changes_are_made_again(p: PaneView)
    requires
        p.stroke is None,
        p.history.undo.len() > 0,
    ensures
        ({
            let (newest, back) = (p.history.undo.last(), pane_redone(pane_undone(p)));
            &&& shows(pane_undone(p), newest.before)
            &&& shows(back, newest.after)
            &&& back.history == (HistoryView { pending: None, ..p.history })
            &&& back.saved_revision == p.saved_revision
            &&& shows(p, newest.after) <==> (back.document == p.document && back.store.bitmaps
                == p.store.bitmaps && back.revision == p.revision)
        }),
{
    let newest = p.history.undo.last();
    let undone_history = pane_undone(p).history;
    assert(undone_history.redo.drop_last() =~= p.history.redo);
    assert(undone_history.undo.push(newest) =~= p.history.undo);
}

/// A canvas that shows what it remembers gets everything back: after an undo
/// it shows the moment before its newest change, and after a redo the same
/// document, the same pixels and the same revision as at first, with the same
/// history.
pub proof fn undone_canvases_come_back(p: PaneView)
    requires
        is_remembered(p),
        p.stroke is None,
        p.history.undo.len() > 0,
    ensures
        shows(pane_undone(p), p.history.undo.last().before),
        pane_redone(pane_undone(p)).document == p.document,
        pane_redone(pane_undone(p)).store.bitmaps == p.store.bitmaps,
        pane_redone(pane_undone(p)).revision == p.revision,
        pane_redone(pane_undone(p)).history == p.history,
        has_changes(pane_redone(pane_undone(p))) == has_changes(p),
{
    changes_are_undone_and_redone(p.history);
}

/// What the brush leaves of a stroke keeps what the canvas remembers.
pub proof fn strokes_are_remembered(p: PaneView, tiles: Seq<(u64, u64)>, resident: bool)
    requires
        is_remembered(p),
        p.versions < u64::MAX,
    ensures
        is_remembered(tiles_reset(p, tiles)),
        is_remembered(tiles_settled(p, tiles, resident)),
{
    if let Some(stroke) = p.stroke {
        let (before, _) = p.history.pending->0;
        let done = tiles_settled(p, tiles, resident);
        if done.versions != p.versions {
            let frame = done.stroke->0.scratch->0;
            replaced_differs(before.store, p.store, stroke.target, frame, p.versions);
            fresh_later(before.store, p.versions, done.versions);
            fresh_entries_later(p.history.undo, p.versions, done.versions);
            fresh_entries_later(p.history.redo, p.versions, done.versions);
        }
    }
}

proof fn beginning_remembers(p: PaneView, kind: u8)
    requires
        is_remembered(p),
        p.stroke is None,
        p.document is Some,
    ensures
        pane_begun(p, kind).history.pending == Some((moment_of(p)->0, kind)),
        is_begun(pane_begun(p, kind), moment_of(p)->0),
{
}

/// A change that is over, of what a message did to the canvas.
proof fn change_is_remembered(p: PaneView, kind: u8, done: PaneView)
    requires
        is_remembered(p),
        p.stroke is None,
        p.document is Some,
        done.stroke is None,
        done.document is Some,
        done.history == pane_begun(p, kind).history,
        is_fresh(done.store, done.versions),
        p.versions <= done.versions,
        differs(p.store, done.store),
    ensures
        is_remembered(pane_committed(done)),
{
    beginning_remembers(p, kind);
    fresh_later(p.store, p.versions, done.versions);
    fresh_entries_later(p.history.undo, p.versions, done.versions);
    fresh_entries_later(p.history.redo, p.versions, done.versions);
    committing_remembers(done);
}

proof fn pressing_remembers(p: PaneView, at: Point, ready: bool)
    requires
        is_remembered(p),
        p.versions < u64::MAX,
    ensures
        is_remembered(stroke_pressed(p, at, ready)),
{
    releasing_remembers(p);
    let over = stroke_released(p);
    if over.document is Some {
        beginning_remembers(over, 0);
    }
}

/// The canvas has the same pixels, the same document and the same history.
pub open spec fn is_untouched(p: PaneView, done: PaneView) -> bool {
    &&& done.document == p.document
    &&& done.store == p.store
    &&& done.versions == p.versions
    &&& done.history == p.history
    &&& done.stroke == p.stroke
    &&& done.revision == p.revision
}

proof fn untouched_remembers(p: PaneView, done: PaneView)
    requires
        is_remembered(p),
        is_untouched(p, done),
    ensures
        is_remembered(done),
{
}

/// A message that neither paints nor steps through the history leaves what is
/// remembered alone.
proof fn tools_leave_alone(p: PaneView, msg: CanvasMsg)
    requires
        !is_about_files(msg),
        !is_about_layers(msg),
        history_kind(msg) is None,
        msg !is BrushPress,
        msg !is BrushRelease,
        msg !is Undo,
        msg !is Redo,
    ensures
        is_untouched(p, tools_told(p, msg).0),
{
}

proof fn tools_remember(p: PaneView, msg: CanvasMsg)
    requires
        is_remembered(p),
        !is_about_files(msg),
        !is_about_layers(msg),
        history_kind(msg) is None,
        p.versions + 2 < u64::MAX,
    ensures
        is_remembered(tools_told(p, msg).0),
{
    match msg {
        CanvasMsg::BrushPress(at, ready) => pressing_remembers(p, at, ready),
        CanvasMsg::BrushRelease => releasing_remembers(p),
        CanvasMsg::Undo => undoing_remembers(p),
        CanvasMsg::Redo => undoing_remembers(p),
        _ => {
            tools_leave_alone(p, msg);
            untouched_remembers(p, tools_told(p, msg).0);
        },
    }
}

proof fn edits_remember(p: PaneView, msg: CanvasMsg)
    requires
        is_remembered(p),
        p.stroke is None,
        history_kind(msg) is Some,
        p.versions + pictures_in(msg) < u64::MAX,
    ensures
        is_remembered(updated(p, msg).0),
{
    let kind = history_kind(msg)->0;
    let open = pane_begun(p, kind);
    let done = told(open, msg).0;
    if is_about_files(msg) {
        match msg {
            CanvasMsg::ImportLayers(list) => files_differ(open, incoming_views(list@)),
            CanvasMsg::HandoffImport(list) => files_differ(open, incoming_views(list@)),
            _ => {},
        }
    } else if is_about_layers(msg) {
        layers_differ(open, msg);
    } else {
        if let Some(target) = target_of_edit(open) {
            match msg {
                CanvasMsg::FillSelection(painted) => edited_differs(open, painted@),
                CanvasMsg::DeleteSelection(painted) => edited_differs(open, painted@),
                _ => {},
            }
        }
    }
    if p.document is Some {
        change_is_remembered(p, kind, done);
    }
}

proof fn edited_differs(p: PaneView, painted: FrameView)
    requires
        is_fresh(p.store, p.versions),
        p.versions < u64::MAX,
    ensures
        ({
            let done = selection_edited(p, painted);
            &&& is_fresh(done.store, done.versions)
            &&& differs(p.store, done.store)
            &&& p.versions <= done.versions <= p.versions + 1
        }),
{
    if let Some(target) = target_of_edit(p) {
        let whole = FrameView {
            pixels: plain_all(painted.pixels),
            ..painted
        };
        replaced_differs(p.store, p.store, target, painted, p.versions);
        replaced_differs(p.store, p.store, target, whole, p.versions);
    }
}

/// A message makes a new canvas.
pub open spec fn makes_canvas(msg: CanvasMsg) -> bool {
    msg is New || msg is NewAndImport
}

proof fn blank_is_remembered(p: PaneView, report: Option<SaveView>)
    requires
        is_remembered(p),
        p.stroke is None,
        p.versions < u64::MAX,
    ensures
        ({
            let blank = blank_asked(p, report).0;
            &&& is_remembered(blank)
            &&& blank.stroke is None
            &&& p.versions <= blank.versions <= p.versions + 1
            &&& blank_asked(p, report).2 ==> blank.document is Some
        }),
{
    added_differs(empty_store(), empty_store(), transparent_view(1920, 1080), p.versions);
}

proof fn new_files_remember(p: PaneView, list: Seq<IncomingView>, report: Option<SaveView>)
    requires
        is_remembered(p),
        p.stroke is None,
        p.versions + list.len() + 2 < u64::MAX,
    ensures
        is_remembered(new_with_imports(p, list, report).0),
{
    blank_is_remembered(p, report);
    let (blank, _, made) = blank_asked(p, report);
    if made {
        let open = pane_begun(blank, 0);
        files_differ(open, list);
        change_is_remembered(blank, 0, files_imported(open, list).0);
    }
}

proof fn opening_remembers(p: PaneView, path: Seq<char>)
    requires
        is_remembered(p),
        p.versions < u64::MAX,
    ensures
        is_remembered(open_requested(p, path).0),
{
    releasing_remembers(p);
}

proof fn files_remember(p: PaneView, msg: CanvasMsg)
    requires
        is_remembered(p),
        p.stroke is Some ==> !makes_canvas(msg),
        is_about_files(msg),
        history_kind(msg) is None,
        p.versions + pictures_in(msg) < u64::MAX,
    ensures
        is_remembered(files_told(p, msg).0),
{
    match msg {
        CanvasMsg::Picked(paths) => {
            if paths@.len() > 0 {
                opening_remembers(p, paths@[0]@);
            }
        },
        CanvasMsg::OpenAndImport(path, list) => {
            let waiting = PaneView {
                pending_handoff_paths: Some(paths_of(incoming_views(list@))),
                ..p
            };
            untouched_remembers(p, waiting);
            opening_remembers(waiting, path@);
        },
        CanvasMsg::New(report) => blank_is_remembered(p, opt_report(report)),
        CanvasMsg::NewAndImport(list, report) => new_files_remember(
            p,
            incoming_views(list@),
            opt_report(report),
        ),
        _ => {
            untouched_remembers(p, files_told(p, msg).0);
        },
    }
}

proof fn projects_are_fresh(bitmaps: Seq<(u64, FrameView)>, version: u64)
    requires
        version < u64::MAX,
    ensures
        is_fresh(project_store(bitmaps, version), after(version)),
    decreases bitmaps.len(),
{
    if bitmaps.len() > 0 {
        projects_are_fresh(bitmaps.drop_last(), version);
    }
}

/// What is opened starts over with a history of nothing, so it is remembered,
/// once the stroke is over.
pub proof fn opened_canvases_are_remembered(
    p: PaneView,
    path: Seq<char>,
    frame: FrameView,
    project: ProjectView,
)
    requires
        p.stroke is None,
        p.versions < u64::MAX,
    ensures
        is_remembered(image_opened(p, path, frame)),
        is_remembered(project_opened(p, path, project)),
{
    added_differs(empty_store(), empty_store(), frame, p.versions);
    projects_are_fresh(project.bitmaps, p.versions);
}

/// Whatever happens to the canvas, what it remembers is what it shows. While a
/// stroke is under way no other change is to be made and no new canvas, and the
/// numbers of versions are not to run out.
pub proof fn messages_are_remembered(p: PaneView, msg: CanvasMsg)
    requires
        is_remembered(p),
        p.stroke is Some ==> history_kind(msg) is None && !makes_canvas(msg),
        p.versions + pictures_in(msg) < u64::MAX,
    ensures
        is_remembered(updated(p, msg).0),
{
    if history_kind(msg) is Some {
        edits_remember(p, msg);
    } else if is_about_files(msg) {
        files_remember(p, msg);
    } else if is_about_layers(msg) {
        layers_differ(p, msg);
        layers_leave_alone(p, msg);
    } else {
        tools_remember(p, msg);
    }
}

/// A message about the layers that is not kept in the history leaves what is
/// remembered alone.
proof fn layers_leave_alone(p: PaneView, msg: CanvasMsg)
    requires
        is_about_layers(msg),
        history_kind(msg) is None,
    ensures
        is_untouched(p, layers_told(p, msg).0),
{
}

} // verus!
