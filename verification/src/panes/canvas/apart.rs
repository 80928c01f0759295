//! The layers of a canvas stay apart: no two of them get the same identity.

use crate::panes::canvas::adjustments::{kind_name, kind_of_number, neutral, AdjustmentEdit};
use crate::panes::canvas::edits::{
    edited_in, holds, inserted, list_edited, node_edited, shifted, without, ListEditView, NodeEditView,
};
use crate::panes::canvas::frame::FrameView;
use crate::panes::canvas::history::{
    bumped, committed, is_kept, retained_between, trimmed_entries, EntryView, HistoryView,
    SnapshotView,
};
use crate::panes::canvas::layers::{
    layers_of, new_place, node_changed, node_placed, numbered, row_deleted, row_dropped, row_moved,
};
use crate::panes::canvas::messages::{
    files_told, history_kind, is_about_files, is_about_layers, layers_told, opt_report, paths_of,
    told, tools_told, updated, CanvasMsg,
};
use crate::panes::canvas::moves::{
    deletions_take_one_branch, distinct_nodes_are_placed, distinct_rows_can_be_dropped,
    dropped_rows_become_last_children, dropped_rows_keep_every_layer, is_distinct, missing_has_no_slot, times, times_edited,
    times_in_container, times_joined, times_of_one, times_with, times_without,
};
use crate::panes::canvas::opening::{
    blank_asked, files_imported, image_opened, incoming_views, layers_imported, or_empty,
    project_opened, IncomingView, ProjectView, SaveView,
};
use crate::panes::canvas::painting::stroke_released;
use crate::panes::canvas::pane::{
    empty_pane, moment_of, pane_begun, pane_committed, pane_redone, pane_undone, pixels_replaced,
    row_of, PaneView,
};
use crate::panes::canvas::recall::pictures_in;
use crate::panes::canvas::tree::{
    blank, find_in, fresh_node, group_of, slot_in, BodyView, DocumentView, LayerMask, NodeView,
};
use crate::paths::stem_of;
use vstd::prelude::*;

verus! {

/// No two nodes of a document have the same identity, and the next one gets
/// another.
pub open spec fn is_numbered(d: DocumentView) -> bool {
    forall|id: u64|
        #[trigger] times(d.children, id) <= (if id < d.next {
            1nat
        } else {
            0nat
        })
}

/// The documents of a change are numbered.
pub open spec fn is_numbered_change(entry: EntryView) -> bool {
    is_numbered(entry.before.document) && is_numbered(entry.after.document)
}

/// The documents that a history goes back and forth between are numbered.
pub open spec fn is_numbered_history(h: HistoryView) -> bool {
    &&& forall|i: int| 0 <= i < h.undo.len() ==> #[trigger] is_numbered_change(h.undo[i])
    &&& forall|i: int| 0 <= i < h.redo.len() ==> #[trigger] is_numbered_change(h.redo[i])
    &&& h.pending matches Some((before, _)) ==> is_numbered(before.document)
}

/// The layers of the canvas are apart, and those that undoing and redoing give
/// back.
pub open spec fn is_apart(p: PaneView) -> bool {
    &&& p.document matches Some(d) ==> is_numbered(d)
    &&& is_numbered_history(p.history)
}

/// A new canvas has no layers.
pub proof fn new_canvases_are_apart()
    ensures
        is_apart(empty_pane()),
{
}

/// The layers of a canvas that are apart have each an identity of their own.
pub proof fn layers_apart_are_distinct(p: PaneView)
    requires
        is_apart(p),
    ensures
        is_distinct(layers_of(p)),
{
    assert forall|id: u64| #[trigger] times(layers_of(p), id) <= 1 by {
        if let Some(d) = p.document {
            assert(times(d.children, id) <= 1);
        }
    }
}

proof fn times_of_fresh(id: u64, name: Seq<char>, body: BodyView, x: u64)
    requires
        body matches BodyView::Group(children) ==> children.len() == 0,
    ensures
        times(seq![fresh_node(id, name, body)], x) == (if id == x {
            1nat
        } else {
            0nat
        }),
{
    times_of_one(fresh_node(id, name, body), x);
}

proof fn times_inserted(
    nodes: Seq<NodeView>,
    container: Option<u64>,
    at: int,
    node: NodeView,
    x: u64,
)
    requires
        at >= 0,
    ensures
        times(inserted(nodes, container, at, node), x) == times(nodes, x) + times(seq![node], x),
{
    match container {
        None => {
            let place = if at < nodes.len() {
                at
            } else {
                nodes.len() as int
            };
            times_with(nodes, place, node, x);
        },
        Some(group) => {
            let found = find_in(nodes, group);
            if found is Some && group_of(found->0) is Some {
                let children = group_of(found->0)->0;
                let place = if at < children.len() {
                    at
                } else {
                    children.len() as int
                };
                times_in_container(nodes, container, ListEditView::Insert(at, node), x);
                times_with(children, place, node, x);
            } else {
                assert(nodes.push(node) =~= nodes + seq![node]);
                times_joined(nodes, seq![node], x);
            }
        },
    }
}

proof fn missing_is_not_edited(nodes: Seq<NodeView>, id: u64, edit: NodeEditView)
    requires
        find_in(nodes, id) is None,
    ensures
        edited_in(nodes, id, edit) == nodes,
    decreases nodes,
{
    if nodes.len() > 0 {
        let tail = nodes.subrange(1, nodes.len() as int);
        missing_is_not_edited(tail, id, edit);
        assert(seq![nodes[0]] + tail =~= nodes);
    }
}

/// A change of a node that leaves its children alone keeps every identity.
proof fn edits_keep_identities(nodes: Seq<NodeView>, id: u64, edit: NodeEditView, x: u64)
    requires
        edit !is Children,
    ensures
        times(edited_in(nodes, id, edit), x) == times(nodes, x),
{
    match find_in(nodes, id) {
        Some(node) => {
            times_edited(nodes, id, edit, x);
            times_of_one(node, x);
            times_of_one(node_edited(node, edit), x);
        },
        None => missing_is_not_edited(nodes, id, edit),
    }
}

proof fn times_shifted(children: Seq<NodeView>, from: int, to: int, x: u64)
    ensures
        times(list_edited(children, ListEditView::Shift(from, to)), x) == times(children, x),
{
    if 0 <= from < children.len() && 0 <= to < children.len() {
        times_without(children, from, x);
        times_with(children.remove(from), to, children[from], x);
    }
}

proof fn shifts_keep_identities(nodes: Seq<NodeView>, id: u64, direction: i32, x: u64)
    requires
        is_distinct(nodes),
    ensures
        times(shifted(nodes, id, direction), x) == times(nodes, x),
{
    if find_in(nodes, id) is Some {
        distinct_nodes_are_placed(nodes, id, id);
        let (container, from) = slot_in(nodes, id, None)->0;
        let to = from - direction;
        let place = if to < 0 {
            0
        } else if to > usize::MAX {
            usize::MAX as int
        } else {
            to
        };
        let children = match container {
            None => nodes,
            Some(group) => group_of(find_in(nodes, group)->0)->0,
        };
        times_in_container(nodes, container, ListEditView::Shift(from, place), x);
        times_shifted(children, from, place, x);
    } else {
        missing_has_no_slot(nodes, id, None);
    }
}

proof fn deletions_add_no_identity(nodes: Seq<NodeView>, id: u64, x: u64)
    requires
        is_distinct(nodes),
    ensures
        times(without(nodes, id), x) <= times(nodes, x),
{
    if find_in(nodes, id) is Some {
        distinct_nodes_are_placed(nodes, id, id);
        deletions_take_one_branch(nodes, id, x);
    } else {
        missing_has_no_slot(nodes, id, None);
    }
}

/// A document with other layers of which none is new.
proof fn fewer_layers_are_numbered(d: DocumentView, children: Seq<NodeView>)
    requires
        is_numbered(d),
        forall|x: u64| #[trigger] times(children, x) <= times(d.children, x),
    ensures
        is_numbered(DocumentView { children, ..d }),
{
    assert forall|x: u64| #[trigger] times(children, x) <= (if x < d.next {
        1nat
    } else {
        0nat
    }) by {
        assert(times(d.children, x) <= (if x < d.next {
            1nat
        } else {
            0nat
        }));
    }
}

proof fn changed_nodes_are_numbered(p: PaneView, id: u64, edit: NodeEditView)
    requires
        is_apart(p),
        edit !is Children,
    ensures
        node_changed(p, id, edit).document matches Some(d) ==> is_numbered(d),
{
    if let Some(d) = p.document {
        let children = edited_in(d.children, id, edit);
        assert forall|x: u64| #[trigger] times(children, x) <= times(d.children, x) by {
            edits_keep_identities(d.children, id, edit, x);
        }
        fewer_layers_are_numbered(d, children);
    }
}

/// A document with one more node of the next identity.
proof fn one_more_is_numbered(d: DocumentView, children: Seq<NodeView>)
    requires
        is_numbered(d),
        d.next < u64::MAX,
        forall|x: u64|
            #[trigger] times(children, x) == times(d.children, x) + (if x == d.next {
                1nat
            } else {
                0nat
            }),
    ensures
        is_numbered(DocumentView { next: (d.next + 1) as u64, children, ..d }),
{
    assert forall|x: u64| #[trigger] times(children, x) <= (if x < d.next + 1 {
        1nat
    } else {
        0nat
    }) by {
        assert(times(d.children, x) <= (if x < d.next {
            1nat
        } else {
            0nat
        }));
    }
}

proof fn new_layers_are_numbered(d: DocumentView, name: Seq<char>, pixels: u64)
    requires
        is_numbered(d),
        d.next < u64::MAX,
    ensures
        is_numbered(d.with_layer(name, pixels)),
        d.with_layer(name, pixels).next == d.next + 1,
{
    let node = fresh_node(d.next, name, BodyView::Image(pixels));
    let children = d.children.push(node);
    assert forall|x: u64| #[trigger] times(children, x) == times(d.children, x) + (if x == d.next {
        1nat
    } else {
        0nat
    }) by {
        assert(children =~= d.children + seq![node]);
        times_joined(d.children, seq![node], x);
        times_of_fresh(d.next, name, BodyView::Image(pixels), x);
    }
    one_more_is_numbered(d, children);
}

proof fn first_layers_are_numbered(width: u32, height: u32, name: Seq<char>)
    ensures
        is_numbered(blank(width, height).with_layer(name, 1)),
        blank(width, height).with_layer(name, 1).next == 2,
{
    new_layers_are_numbered(blank(width, height), name, 1);
}

proof fn placed_nodes_are_numbered(p: PaneView, name: Seq<char>, body: BodyView)
    requires
        is_apart(p),
        p.document matches Some(d) ==> d.next < u64::MAX,
        body matches BodyView::Group(children) ==> children.len() == 0,
    ensures
        node_placed(p, name, body).document matches Some(d) ==> is_numbered(d),
{
    if let Some(d) = p.document {
        let (container, at) = new_place(p);
        layers_apart_are_distinct(p);
        if let Some(id) = p.active {
            if find_in(d.children, id) is Some {
                distinct_nodes_are_placed(d.children, id, id);
            } else {
                missing_has_no_slot(d.children, id, None);
            }
        }
        let node = fresh_node(d.next, name, body);
        let children = inserted(d.children, container, at, node);
        assert forall|x: u64| #[trigger] times(children, x) == times(d.children, x) + (if x
            == d.next {
            1nat
        } else {
            0nat
        }) by {
            times_inserted(d.children, container, at, node, x);
            times_of_fresh(d.next, name, body, x);
        }
        one_more_is_numbered(d, children);
    }
}

proof fn deleted_rows_stay_numbered(p: PaneView, index: i32)
    requires
        is_apart(p),
    ensures
        row_deleted(p, index).document matches Some(d) ==> is_numbered(d),
{
    if let (Some(target), Some(d)) = (row_of(p, index), p.document) {
        layers_apart_are_distinct(p);
        let children = without(d.children, target.id);
        assert forall|x: u64| #[trigger] times(children, x) <= times(d.children, x) by {
            deletions_add_no_identity(d.children, target.id, x);
        }
        fewer_layers_are_numbered(d, children);
    }
}

proof fn moved_rows_stay_numbered(p: PaneView, index: i32, direction: i32)
    requires
        is_apart(p),
    ensures
        row_moved(p, index, direction).document matches Some(d) ==> is_numbered(d),
{
    if let (Some(node), Some(d)) = (row_of(p, index), p.document) {
        layers_apart_are_distinct(p);
        let children = shifted(d.children, node.id, direction);
        assert forall|x: u64| #[trigger] times(children, x) <= times(d.children, x) by {
            shifts_keep_identities(d.children, node.id, direction, x);
        }
        fewer_layers_are_numbered(d, children);
    }
}

proof fn dropped_rows_stay_numbered(p: PaneView, source: i32, target: i32, below: bool)
    requires
        is_apart(p),
    ensures
        row_dropped(p, source, target, below).document matches Some(d) ==> is_numbered(d),
{
    layers_apart_are_distinct(p);
    distinct_rows_can_be_dropped(p, source, target);
    if let Some(d) = p.document {
        let children = layers_of(row_dropped(p, source, target, below));
        assert forall|x: u64| #[trigger] times(children, x) <= times(d.children, x) by {
            dropped_rows_keep_every_layer(p, source, target, below, x);
        }
        fewer_layers_are_numbered(d, children);
    }
}

/// A message about the layers keeps them apart.
#[verifier::rlimit(30)]
proof fn layers_stay_apart(p: PaneView, msg: CanvasMsg)
    requires
        is_apart(p),
        is_about_layers(msg),
        p.document matches Some(d) ==> d.next < u64::MAX,
    ensures
        is_apart(layers_told(p, msg).0),
{
    match msg {
        CanvasMsg::LayerToggleVisibility(index) => {
            if let Some(node) = row_of(p, index) {
                changed_nodes_are_numbered(p, node.id, NodeEditView::Toggle);
            }
        },
        CanvasMsg::LayerOpacity(index, opacity) => {
            if let Some(node) = row_of(p, index) {
                changed_nodes_are_numbered(p, node.id, NodeEditView::Opacity(opacity));
            }
        },
        CanvasMsg::LayerAdd => {
            if let Some(d) = p.document {
                let name = numbered("Layer "@, d.children);
                new_layers_are_numbered(d, name, p.store.next);
            }
        },
        CanvasMsg::LayerAddGroup => {
            let name = numbered("Group "@, layers_of(p));
            placed_nodes_are_numbered(p, name, BodyView::Group(Seq::empty()));
        },
        CanvasMsg::LayerDelete(index) => deleted_rows_stay_numbered(p, index),
        CanvasMsg::LayerMove(index, direction) => moved_rows_stay_numbered(p, index, direction),
        CanvasMsg::LayerDrop(source, target, below) => dropped_rows_stay_numbered(
            p,
            source,
            target,
            below,
        ),
        CanvasMsg::LayerMaskAdd | CanvasMsg::LayerMaskRemove | CanvasMsg::LayerMaskToggle => {
            masks_stay_apart(p, msg);
        },
        CanvasMsg::AdjustmentAdd(number) => {
            if let Some(kind) = kind_of_number(number) {
                placed_nodes_are_numbered(
                    p,
                    kind_name(number),
                    BodyView::Adjustment(neutral(kind)),
                );
            }
        },
        CanvasMsg::GradientColor(_, _) | CanvasMsg::AdjustmentParam(_, _) | CanvasMsg::CurveSet(
            _,
            _,
            _,
            _,
        ) | CanvasMsg::CurveAdd(_, _, _) | CanvasMsg::CurveRemove(_, _) => {
            adjustments_stay_apart(p, msg);
        },
        _ => {},
    }
}

proof fn masks_stay_apart(p: PaneView, msg: CanvasMsg)
    requires
        is_apart(p),
        msg is LayerMaskAdd || msg is LayerMaskRemove || msg is LayerMaskToggle,
    ensures
        is_apart(layers_told(p, msg).0),
{
    if let Some(id) = p.active {
        let mask = LayerMask { pixels: p.store.next, enabled: true };
        changed_nodes_are_numbered(p, id, NodeEditView::Mask(Some(mask)));
        changed_nodes_are_numbered(p, id, NodeEditView::Mask(None));
        changed_nodes_are_numbered(p, id, NodeEditView::ToggleMask);
    }
}

proof fn adjustments_stay_apart(p: PaneView, msg: CanvasMsg)
    requires
        is_apart(p),
        msg is GradientColor || msg is AdjustmentParam || msg is CurveSet || msg is CurveAdd
            || msg is CurveRemove,
    ensures
        is_apart(layers_told(p, msg).0),
{
    if let (Some(id), Some(d)) = (p.active, p.document) {
        assert forall|edit: AdjustmentEdit|
            #![trigger node_changed(p, id, NodeEditView::Adjust(edit))]
            node_changed(p, id, NodeEditView::Adjust(edit)).document matches Some(
                after,
            ) && is_numbered(after) by {
            changed_nodes_are_numbered(p, id, NodeEditView::Adjust(edit));
        }
    }
}

proof fn imports_stay_numbered(p: PaneView, list: Seq<IncomingView>, from: int, to: int)
    requires
        0 <= from,
        p.document matches Some(d) ==> is_numbered(d) && d.next + (if to > from {
            to - from
        } else {
            0
        }) < u64::MAX,
    ensures
        ({
            let done = layers_imported(p, list, from, to);
            &&& done.history == p.history
            &&& done.document is Some == p.document is Some
            &&& done.document matches Some(d) ==> is_numbered(d) && d.next <= p.document->0.next + (
            if to > from {
                to - from
            } else {
                0
            })
        }),
    decreases to - from,
{
    if to > from {
        imports_stay_numbered(p, list, from, to - 1);
        let before = layers_imported(p, list, from, to - 1);
        if let (Ok((_, fitted)), Some(d)) = (list[to - 1].picture, before.document) {
            let name = or_empty(
                stem_of(list[to - 1].path),
            );
            new_layers_are_numbered(d, name, before.store.next);
        }
    }
}

proof fn files_stay_numbered(p: PaneView, list: Seq<IncomingView>)
    requires
        is_apart(p),
        list.len() + 3 < u64::MAX,
        p.document matches Some(d) ==> d.next + list.len() < u64::MAX,
    ensures
        is_apart(files_imported(p, list).0),
{
    let n = list.len() as int;
    if p.document is Some {
        imports_stay_numbered(p, list, 0, n);
    } else if n > 0 {
        match list[0].picture {
            Ok((whole, _)) => {
                let name = or_empty(
                    stem_of(list[0].path),
                );
                first_layers_are_numbered(whole.width, whole.height, name);
                imports_stay_numbered(image_opened(p, list[0].path, whole), list, 1, n);
            },
            Err(_) => imports_stay_numbered(p, list, 1, n),
        }
    } else {
        imports_stay_numbered(p, list, 1, n);
    }
}

proof fn trimmed_stay_numbered(entries: Seq<EntryView>)
    requires
        forall|i: int| 0 <= i < entries.len() ==> #[trigger] is_numbered_change(entries[i]),
    ensures
        forall|i: int|
            0 <= i < trimmed_entries(entries).len() ==> #[trigger] is_numbered_change(
                trimmed_entries(entries)[i],
            ),
    decreases entries.len(),
{
    if entries.len() > 0 && !is_kept(entries) {
        let tail = entries.subrange(1, entries.len() as int);
        assert forall|i: int| 0 <= i < tail.len() implies #[trigger] is_numbered_change(tail[i]) by {
            assert(is_numbered_change(entries[i + 1]));
        }
        trimmed_stay_numbered(tail);
        assert(trimmed_entries(entries) == trimmed_entries(tail));
    } else {
        assert(trimmed_entries(entries) == entries);
    }
}

/// A change that is over leaves the layers apart.
proof fn commits_stay_apart(p: PaneView)
    requires
        is_apart(p),
    ensures
        is_apart(pane_committed(p)),
{
    if let (Some((before, kind)), Some(now)) = (p.history.pending, moment_of(p)) {
        let h = p.history;
        let next = bumped(p.revision);
        let after = SnapshotView { revision: next, ..now };
        let entry = EntryView {
            before,
            after,
            retained_bytes: retained_between(
                before.store,
                after.store,
            ),
            coalesce_kind: kind,
        };
        let longer = h.undo.push(entry);
        assert(is_numbered_change(entry));
        assert forall|i: int| 0 <= i < longer.len() implies #[trigger] is_numbered_change(
            longer[i],
        ) by {
            if i < h.undo.len() {
                assert(is_numbered_change(h.undo[i]));
            }
        }
        trimmed_stay_numbered(longer);
        let done = committed(h, Some(now), p.revision).0;
        assert forall|i: int| 0 <= i < done.undo.len() implies #[trigger] is_numbered_change(
            done.undo[i],
        ) by {
            if i < h.undo.len() {
                assert(is_numbered_change(h.undo[i]));
            }
            if h.undo.len() > 0 {
                assert(is_numbered_change(h.undo.last()));
            }
        }
    }
}

/// Undoing and redoing keep the layers apart.
proof fn steps_stay_apart(p: PaneView)
    requires
        is_apart(p),
    ensures
        is_apart(pane_undone(p)),
        is_apart(pane_redone(p)),
{
    let h = p.history;
    if h.undo.len() > 0 {
        assert(is_numbered_change(h.undo[h.undo.len() - 1]));
        let redo = h.redo.push(h.undo.last());
        let undo = h.undo.drop_last();
        assert forall|i: int| 0 <= i < redo.len() implies #[trigger] is_numbered_change(redo[i]) by {
            if i < h.redo.len() {
                assert(is_numbered_change(h.redo[i]));
            }
        }
        assert forall|i: int| 0 <= i < undo.len() implies #[trigger] is_numbered_change(undo[i]) by {
            assert(is_numbered_change(h.undo[i]));
        }
    }
    if h.redo.len() > 0 {
        assert(is_numbered_change(h.redo[h.redo.len() - 1]));
        let undo = h.undo.push(h.redo.last());
        let redo = h.redo.drop_last();
        assert forall|i: int| 0 <= i < undo.len() implies #[trigger] is_numbered_change(undo[i]) by {
            if i < h.undo.len() {
                assert(is_numbered_change(h.undo[i]));
            }
        }
        assert forall|i: int| 0 <= i < redo.len() implies #[trigger] is_numbered_change(redo[i]) by {
            assert(is_numbered_change(h.redo[i]));
        }
    }
}

/// The canvas has the same document and the same history.
pub open spec fn is_left(p: PaneView, done: PaneView) -> bool {
    done.document == p.document && done.history == p.history
}

proof fn released_stays_apart(p: PaneView)
    requires
        is_apart(p),
    ensures
        is_apart(stroke_released(p)),
{
    if let Some(stroke) = p.stroke {
        let over = PaneView { stroke: None, ..p };
        let done = match stroke.scratch {
            Some(frame) => pixels_replaced(over, stroke.target, frame),
            None => over,
        };
        assert(is_left(p, done));
        commits_stay_apart(done);
    }
}

proof fn tools_leave_layers(p: PaneView, msg: CanvasMsg)
    requires
        !is_about_files(msg),
        !is_about_layers(msg),
        msg !is BrushPress,
        msg !is BrushRelease,
        msg !is Undo,
        msg !is Redo,
    ensures
        is_left(p, tools_told(p, msg).0),
{
}

proof fn tools_stay_apart(p: PaneView, msg: CanvasMsg)
    requires
        is_apart(p),
        !is_about_files(msg),
        !is_about_layers(msg),
    ensures
        is_apart(tools_told(p, msg).0),
{
    released_stays_apart(p);
    match msg {
        CanvasMsg::BrushPress(_, _) => {},
        CanvasMsg::BrushRelease => {},
        CanvasMsg::Undo => steps_stay_apart(p),
        CanvasMsg::Redo => steps_stay_apart(p),
        _ => tools_leave_layers(p, msg),
    }
}

proof fn blanks_are_apart(p: PaneView, report: Option<SaveView>)
    requires
        is_apart(p),
    ensures
        is_apart(blank_asked(p, report).0),
        blank_asked(p, report).2 ==> (blank_asked(p, report).0.document matches Some(d) && d.next
            == 2),
{
    first_layers_are_numbered(1920, 1080, "图层 1"@);
}

proof fn files_stay_apart(p: PaneView, msg: CanvasMsg)
    requires
        is_apart(p),
        is_about_files(msg),
        pictures_in(msg) + 2 < u64::MAX,
        p.document matches Some(d) ==> d.next + pictures_in(msg) < u64::MAX,
    ensures
        is_apart(files_told(p, msg).0),
{
    released_stays_apart(p);
    match msg {
        CanvasMsg::ImportLayers(list) => files_stay_numbered(p, incoming_views(list@)),
        CanvasMsg::HandoffImport(list) => files_stay_numbered(p, incoming_views(list@)),
        CanvasMsg::New(report) => blanks_are_apart(
            p,
            opt_report(report),
        ),
        CanvasMsg::NewAndImport(list, report) => {
            let saved = opt_report(report);
            let files = incoming_views(list@);
            blanks_are_apart(p, saved);
            let (fresh, _, made) = blank_asked(p, saved);
            if made {
                let open = pane_begun(fresh, 0);
                files_stay_numbered(open, files);
                commits_stay_apart(files_imported(open, files).0);
            }
        },
        CanvasMsg::OpenAndImport(path, list) => {
            let waiting = PaneView {
                pending_handoff_paths: Some(
                    paths_of(incoming_views(list@)),
                ),
                ..p
            };
            released_stays_apart(waiting);
        },
        _ => {},
    }
}

/// Whatever happens to the canvas, its layers stay apart, as long as the
/// identities do not run out: no two layers ever have the same.
pub proof fn messages_keep_layers_apart(p: PaneView, msg: CanvasMsg)
    requires
        is_apart(p),
        pictures_in(msg) + 2 < u64::MAX,
        p.document matches Some(d) ==> d.next + pictures_in(msg) < u64::MAX,
    ensures
        is_apart(updated(p, msg).0),
{
    let open = match history_kind(msg) {
        Some(kind) => pane_begun(p, kind),
        None => p,
    };
    assert(is_apart(open));
    if is_about_files(msg) {
        files_stay_apart(open, msg);
    } else if is_about_layers(msg) {
        layers_stay_apart(open, msg);
    } else {
        tools_stay_apart(open, msg);
    }
    commits_stay_apart(told(open, msg).0);
}

/// What is opened is apart: a picture always, a project where its document is.
pub proof fn opened_layers_are_apart(
    p: PaneView,
    path: Seq<char>,
    frame: FrameView,
    project: ProjectView,
)
    requires
        is_numbered(project.document),
    ensures
        is_apart(image_opened(p, path, frame)),
        is_apart(project_opened(p, path, project)),
{
    let name = or_empty(stem_of(path));
    first_layers_are_numbered(frame.width, frame.height, name);
}

/// On a canvas whose layers are apart, a row that is dropped onto another loses
/// no layer and doubles none, whatever the rows are.
pub proof fn drops_on_canvases_keep_every_layer(
    p: PaneView,
    source: i32,
    target: i32,
    below: bool,
    other: u64,
)
    requires
        is_apart(p),
    ensures
        times(layers_of(row_dropped(p, source, target, below)), other) == times(
            layers_of(p),
            other,
        ),
{
    layers_apart_are_distinct(p);
    distinct_rows_can_be_dropped(p, source, target);
    dropped_rows_keep_every_layer(p, source, target, below, other);
}

/// On a canvas whose layers are apart, a row that is dropped into a group that
/// it does not hold becomes the last child of the group, with all that is below
/// it.
pub proof fn drops_into_groups_come_last(p: PaneView, source: i32, target: i32)
    requires
        is_apart(p),
        row_of(p, source) matches Some(moving) && (row_of(p, target) matches Some(onto) && !holds(
            moving,
            onto.id,
        ) && (group_of(onto) matches Some(children) && children.len() <= usize::MAX)),
    ensures
        find_in(layers_of(row_dropped(p, source, target, true)), row_of(p, target)->0.id) matches Some(
            group,
        ) && group_of(group) matches Some(children) && children.len() > 0 && Some(
            children.last(),
        ) == row_of(p, source),
{
    layers_apart_are_distinct(p);
    distinct_rows_can_be_dropped(p, source, target);
    distinct_rows_can_be_dropped(p, target, source);
    dropped_rows_become_last_children(p, source, target);
}

} // verus!
