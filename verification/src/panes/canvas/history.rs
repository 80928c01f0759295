//! The history of a canvas: what undoing and redoing gives back.

use crate::panes::canvas::store::{
    fitted, same_versions_share_all, unshared, PixelStore, StoreView,
};
use crate::panes::canvas::tree::{Document, DocumentView};
use vstd::prelude::*;

verus! {

/// How many changes can be undone.
pub const HISTORY_ENTRY_LIMIT: usize = 100;

/// How many bytes of pixels are kept for undoing.
pub const HISTORY_BYTE_LIMIT: u64 = 268_435_456;

/// A canvas at one moment.
pub struct CanvasSnapshot {
    pub document: Document,
    pub store: PixelStore,
    pub active: Option<u64>,
    pub layer: Option<u64>,
    pub paint_mask: bool,
    pub revision: u64,
}

#[verifier::ext_equal]
pub struct SnapshotView {
    pub document: DocumentView,
    pub store: StoreView,
    pub active: Option<u64>,
    pub layer: Option<u64>,
    pub paint_mask: bool,
    pub revision: u64,
}

impl View for CanvasSnapshot {
    type V = SnapshotView;

    open spec fn view(&self) -> SnapshotView {
        SnapshotView {
            document: self.document@,
            store: self.store@,
            active: self.active,
            layer: self.layer,
            paint_mask: self.paint_mask,
            revision: self.revision,
        }
    }
}

/// Whether two moments show the same.
pub open spec fn same_moment(a: SnapshotView, b: SnapshotView) -> bool {
    a.document == b.document && a.store.same_versions(b.store) && a.active == b.active && a.layer
        == b.layer && a.paint_mask == b.paint_mask && a.revision == b.revision
}

fn same_number(a: Option<u64>, b: Option<u64>) -> (r: bool)
    ensures
        r == (a == b),
{
    match (a, b) {
        (Some(x), Some(y)) => x == y,
        (None, None) => true,
        _ => false,
    }
}

impl CanvasSnapshot {
    /// Whether two moments show the same.
    pub fn same_state(&self, other: &CanvasSnapshot) -> (r: bool)
        ensures
            r == same_moment(self@, other@),
    {
        self.document.same_as(&other.document) && self.store.same_versions(&other.store)
            && same_number(self.active, other.active) && same_number(self.layer, other.layer)
            && self.paint_mask == other.paint_mask && self.revision == other.revision
    }

    pub fn copy(&self) -> (r: CanvasSnapshot)
        ensures
            r@ == self@,
    {
        CanvasSnapshot {
            document: self.document.copy(),
            store: self.store.copy(),
            active: self.active,
            layer: self.layer,
            paint_mask: self.paint_mask,
            revision: self.revision,
        }
    }
}

/// A change: the moments before and after it, the bytes it keeps, and what it
/// can be joined with.
pub struct HistoryEntry {
    pub before: CanvasSnapshot,
    pub after: CanvasSnapshot,
    pub retained_bytes: u64,
    pub coalesce_kind: u8,
}

#[verifier::ext_equal]
pub struct EntryView {
    pub before: SnapshotView,
    pub after: SnapshotView,
    pub retained_bytes: u64,
    pub coalesce_kind: u8,
}

impl View for HistoryEntry {
    type V = EntryView;

    open spec fn view(&self) -> EntryView {
        EntryView {
            before: self.before@,
            after: self.after@,
            retained_bytes: self.retained_bytes,
            coalesce_kind: self.coalesce_kind,
        }
    }
}

/// The views of changes.
pub open spec fn entry_views(v: Seq<HistoryEntry>) -> Seq<EntryView> {
    Seq::new(v.len(), |i: int| v[i]@)
}

/// The changes that can be undone and redone, the newest last, and the moment
/// before a change that is under way.
pub struct History {
    pub undo: Vec<HistoryEntry>,
    pub redo: Vec<HistoryEntry>,
    pub pending: Option<(CanvasSnapshot, u8)>,
}

#[verifier::ext_equal]
pub struct HistoryView {
    pub undo: Seq<EntryView>,
    pub redo: Seq<EntryView>,
    pub pending: Option<(SnapshotView, u8)>,
}

pub open spec fn opt_pending(p: Option<(CanvasSnapshot, u8)>) -> Option<(SnapshotView, u8)> {
    match p {
        Some((snapshot, kind)) => Some((snapshot@, kind)),
        None => None,
    }
}

impl View for History {
    type V = HistoryView;

    open spec fn view(&self) -> HistoryView {
        HistoryView {
            undo: entry_views(self.undo@),
            redo: entry_views(self.redo@),
            pending: opt_pending(self.pending),
        }
    }
}

/// A history of nothing.
pub open spec fn no_history() -> HistoryView {
    HistoryView { undo: Seq::empty(), redo: Seq::empty(), pending: None }
}

/// The revision after another; none is zero.
pub open spec fn bumped(revision: u64) -> u64 {
    if revision == u64::MAX {
        1
    } else {
        (revision + 1) as u64
    }
}

/// The revision after another.
pub fn bump(revision: u64) -> (r: u64)
    ensures
        r == bumped(revision),
{
    if revision == u64::MAX {
        1
    } else {
        revision + 1
    }
}

/// The bytes that a change keeps: those of the moment that holds more of its
/// own.
pub open spec fn retained_between(before: StoreView, after: StoreView) -> u64 {
    let back = fitted(unshared(before.bitmaps, after));
    let forth = fitted(unshared(after.bitmaps, before));
    if back >= forth {
        back
    } else {
        forth
    }
}

fn count_between(before: &PixelStore, after: &PixelStore) -> (r: u64)
    ensures
        r == retained_between(before@, after@),
{
    let back: u64 = before.unshared_bytes(after);
    let forth: u64 = after.unshared_bytes(before);
    if back >= forth {
        back
    } else {
        forth
    }
}

/// The bytes that changes keep together.
pub open spec fn retained_sum(entries: Seq<EntryView>) -> nat
    decreases entries.len(),
{
    if entries.len() == 0 {
        0
    } else {
        retained_sum(entries.drop_last()) + entries.last().retained_bytes as nat
    }
}

/// Whether changes are few and small enough to keep.
pub open spec fn is_kept(entries: Seq<EntryView>) -> bool {
    entries.len() <= HISTORY_ENTRY_LIMIT && retained_sum(entries) <= HISTORY_BYTE_LIMIT
}

/// The newest changes that are few and small enough to keep.
pub open spec fn trimmed_entries(entries: Seq<EntryView>) -> Seq<EntryView>
    decreases entries.len(),
{
    if entries.len() == 0 || is_kept(entries) {
        entries
    } else {
        trimmed_entries(entries.subrange(1, entries.len() as int))
    }
}

/// Whether a change is joined with the one before it.
pub open spec fn is_joined(undo: Seq<EntryView>, before: SnapshotView, kind: u8) -> bool {
    kind != 0 && undo.len() > 0 && undo.last().coalesce_kind == kind && same_moment(
        undo.last().after,
        before,
    ) && undo.last().before.store.same_versions(before.store)
}

/// The history after a change is over, and the revision that the canvas then
/// has.
pub open spec fn committed(h: HistoryView, now: Option<SnapshotView>, revision: u64) -> (
    HistoryView,
    u64,
) {
    match h.pending {
        None => (h, revision),
        Some((before, kind)) => {
            let over = HistoryView { pending: None, ..h };
            match now {
                None => (over, revision),
                Some(state) => if same_moment(before, state) {
                    (over, revision)
                } else {
                    let next = bumped(revision);
                    let after = SnapshotView { revision: next, ..state };
                    if is_joined(h.undo, before, kind) {
                        let last = h.undo.last();
                        (
                            HistoryView {
                                undo: h.undo.update(
                                    h.undo.len() - 1,
                                    EntryView {
                                        after,
                                        retained_bytes: retained_between(
                                            last.before.store,
                                            after.store,
                                        ),
                                        ..last
                                    },
                                ),
                                redo: Seq::empty(),
                                pending: None,
                            },
                            next,
                        )
                    } else {
                        (
                            HistoryView {
                                undo: trimmed_entries(
                                    h.undo.push(
                                        EntryView {
                                            before,
                                            after,
                                            retained_bytes: retained_between(
                                                before.store,
                                                after.store,
                                            ),
                                            coalesce_kind: kind,
                                        },
                                    ),
                                ),
                                redo: Seq::empty(),
                                pending: None,
                            },
                            next,
                        )
                    }
                },
            }
        },
    }
}

/// The history once a change is under way; one that is under way goes on.
pub open spec fn begun(h: HistoryView, now: Option<SnapshotView>, kind: u8) -> HistoryView {
    if h.pending is Some {
        h
    } else {
        HistoryView {
            pending: match now {
                Some(state) => Some((state, kind)),
                None => None,
            },
            ..h
        }
    }
}

/// The history after the newest change is undone, and the moment to go back
/// to.
pub open spec fn undone(h: HistoryView) -> Option<(HistoryView, SnapshotView)> {
    if h.undo.len() == 0 {
        None
    } else {
        Some(
            (
                HistoryView {
                    undo: h.undo.drop_last(),
                    redo: h.redo.push(h.undo.last()),
                    pending: None,
                },
                h.undo.last().before,
            ),
        )
    }
}

/// The history after the change that was undone last is made again, and the
/// moment to go on to.
pub open spec fn redone(h: HistoryView) -> Option<(HistoryView, SnapshotView)> {
    if h.redo.len() == 0 {
        None
    } else {
        Some(
            (
                HistoryView {
                    undo: h.undo.push(h.redo.last()),
                    redo: h.redo.drop_last(),
                    pending: None,
                },
                h.redo.last().after,
            ),
        )
    }
}

pub open spec fn opt_moment(r: Option<CanvasSnapshot>) -> Option<SnapshotView> {
    match r {
        Some(s) => Some(s@),
        None => None,
    }
}

impl History {
    pub fn new() -> (r: History)
        ensures
            r@ == no_history(),
    {
        let r: History = History { undo: Vec::new(), redo: Vec::new(), pending: None };
        proof {
            assert(r@.undo =~= Seq::empty());
            assert(r@.redo =~= Seq::empty());
        }
        r
    }

    /// A change is under way.
    pub fn begin(&mut self, now: Option<CanvasSnapshot>, kind: u8)
        ensures
            final(self)@ == begun(old(self)@, opt_moment(now), kind),
    {
        if self.pending.is_none() {
            self.pending = match now {
                Some(state) => Some((state, kind)),
                None => None,
            };
        }
    }

    fn retained(&self) -> (r: u64)
        ensures
            r == fitted(retained_sum(self@.undo)),
    {
        let ghost all = self@.undo;
        let mut total: u64 = 0;
        let mut i: usize = 0;
        proof {
            assert(all.take(0) =~= Seq::empty());
        }
        while i < self.undo.len()
            invariant
                i <= self.undo.len(),
                all == self@.undo,
                total == fitted(retained_sum(all.take(i as int))),
            decreases self.undo.len() - i,
        {
            proof {
                assert(all.take(i + 1).drop_last() =~= all.take(i as int));
                assert(all.take(i + 1).last() == self.undo@[i as int]@);
            }
            total = total.saturating_add(self.undo[i].retained_bytes);
            i = i + 1;
        }
        proof {
            assert(all.take(all.len() as int) =~= all);
        }
        total
    }

    /// Drops the oldest changes that are too many or too large.
    pub fn trim_history(&mut self)
        ensures
            final(self)@ == (HistoryView {
                undo: trimmed_entries(old(self)@.undo),
                ..old(self)@
            }),
    {
        let mut full: bool = self.undo.len() > HISTORY_ENTRY_LIMIT || self.retained()
            > HISTORY_BYTE_LIMIT;
        while full
            invariant
                self@.redo == old(self)@.redo,
                self@.pending == old(self)@.pending,
                full == !is_kept(self@.undo),
                trimmed_entries(self@.undo) == trimmed_entries(old(self)@.undo),
            decreases self.undo.len(),
        {
            let ghost before = self.undo@;
            proof {
                if before.len() == 0 {
                    assert(retained_sum(self@.undo) == 0);
                }
            }
            self.undo.remove(0);
            proof {
                assert(entry_views(self.undo@) =~= entry_views(before).subrange(
                    1,
                    before.len() as int,
                ));
            }
            full = self.undo.len() > HISTORY_ENTRY_LIMIT || self.retained() > HISTORY_BYTE_LIMIT;
        }
    }

    /// The change is over: it is kept where it changed something. The result
    /// is the revision that the canvas then has.
    pub fn commit(&mut self, now: Option<CanvasSnapshot>, revision: u64) -> (r: u64)
        ensures
            (final(self)@, r) == committed(old(self)@, opt_moment(now), revision),
    {
        let mut pending: Option<(CanvasSnapshot, u8)> = None;
        std::mem::swap(&mut pending, &mut self.pending);
        let (before, kind): (CanvasSnapshot, u8) = match pending {
            Some(p) => p,
            None => {
                return revision;
            },
        };
        let mut after: CanvasSnapshot = match now {
            Some(state) => state,
            None => {
                return revision;
            },
        };
        if before.same_state(&after) {
            return revision;
        }
        let next: u64 = bump(revision);
        after.revision = next;
        let ghost made = after@;
        let count: usize = self.undo.len();
        if kind != 0 && count > 0 && self.undo[count - 1].coalesce_kind == kind
            && self.undo[count - 1].after.same_state(&before)
            && self.undo[count - 1].before.store.same_versions(&before.store) {
            let ghost entries = self.undo@;
            if let Some(last) = self.undo.pop() {
                let retained_bytes: u64 = count_between(&last.before.store, &after.store);
                let joined: HistoryEntry = HistoryEntry {
                    before: last.before,
                    after,
                    retained_bytes,
                    coalesce_kind: last.coalesce_kind,
                };
                let ghost view = joined@;
                self.undo.push(joined);
                proof {
                    assert(entry_views(self.undo@) =~= entry_views(entries).update(
                        entries.len() - 1,
                        view,
                    ));
                }
            }
            self.redo = Vec::new();
            proof {
                assert(entry_views(self.redo@) =~= Seq::empty());
            }
            return next;
        }
        let retained_bytes: u64 = count_between(&before.store, &after.store);
        let entry: HistoryEntry = HistoryEntry { before, after, retained_bytes, coalesce_kind: kind };
        let ghost view = entry@;
        let ghost entries = self.undo@;
        self.undo.push(entry);
        self.redo = Vec::new();
        proof {
            assert(entry_views(self.undo@) =~= entry_views(entries).push(view));
            assert(entry_views(self.redo@) =~= Seq::empty());
        }
        self.trim_history();
        next
    }

    /// Undoes the newest change; the result is the moment to go back to.
    pub fn step_back(&mut self) -> (r: Option<CanvasSnapshot>)
        ensures
            match (r, undone(old(self)@)) {
                (Some(moment), Some((h, state))) => final(self)@ == h && moment@ == state,
                (None, None) => final(self)@ == old(self)@,
                _ => false,
            },
    {
        let ghost entries = self.undo@;
        let ghost others = self.redo@;
        match self.undo.pop() {
            Some(entry) => {
                let moment: CanvasSnapshot = entry.before.copy();
                let ghost view = entry@;
                self.redo.push(entry);
                self.pending = None;
                proof {
                    assert(entry_views(self.undo@) =~= entry_views(entries).drop_last());
                    assert(entry_views(self.redo@) =~= entry_views(others).push(view));
                }
                Some(moment)
            },
            None => None,
        }
    }

    /// Makes the change again that was undone last; the result is the moment
    /// to go on to.
    pub fn step_forth(&mut self) -> (r: Option<CanvasSnapshot>)
        ensures
            match (r, redone(old(self)@)) {
                (Some(moment), Some((h, state))) => final(self)@ == h && moment@ == state,
                (None, None) => final(self)@ == old(self)@,
                _ => false,
            },
    {
        let ghost entries = self.undo@;
        let ghost others = self.redo@;
        match self.redo.pop() {
            Some(entry) => {
                let moment: CanvasSnapshot = entry.after.copy();
                let ghost view = entry@;
                self.undo.push(entry);
                self.pending = None;
                proof {
                    assert(entry_views(self.redo@) =~= entry_views(others).drop_last());
                    assert(entry_views(self.undo@) =~= entry_views(entries).push(view));
                }
                Some(moment)
            },
            None => None,
        }
    }
}

proof fn trimmed_is_kept(entries: Seq<EntryView>)
    ensures
        is_kept(trimmed_entries(entries)),
    decreases entries.len(),
{
    if entries.len() > 0 && !is_kept(entries) {
        trimmed_is_kept(entries.subrange(1, entries.len() as int));
    }
}

pub proof fn trimmed_keeps_the_last(entries: Seq<EntryView>)
    requires
        entries.len() > 0,
        entries.last().retained_bytes <= HISTORY_BYTE_LIMIT,
    ensures
        trimmed_entries(entries).len() > 0,
        trimmed_entries(entries).last() == entries.last(),
    decreases entries.len(),
{
    if !is_kept(entries) {
        if entries.len() == 1 {
            assert(retained_sum(entries.drop_last()) == 0);
            assert(retained_sum(entries) == entries.last().retained_bytes);
        } else {
            trimmed_keeps_the_last(entries.subrange(1, entries.len() as int));
        }
    }
}

/// A history that is few and small enough stays so when a change is over, as
/// long as changes that can be joined leave the pixels alone.
pub proof fn histories_stay_small(h: HistoryView, now: Option<SnapshotView>, revision: u64)
    requires
        is_kept(h.undo),
        h.pending matches Some((before, kind)) ==> kind == 0 || (now matches Some(state)
            ==> before.store.same_versions(state.store)),
    ensures
        is_kept(committed(h, now, revision).0.undo),
{
    if let (Some((before, kind)), Some(state)) = (h.pending, now) {
        if !same_moment(before, state) {
            let after = SnapshotView { revision: bumped(revision), ..state };
            let entry = EntryView {
                before,
                after,
                retained_bytes: retained_between(before.store, after.store),
                coalesce_kind: kind,
            };
            trimmed_is_kept(h.undo.push(entry));
            if is_joined(h.undo, before, kind) {
                let last = h.undo.last();
                versions_chain(last.before.store, before.store, state.store);
                versions_chain(state.store, before.store, last.before.store);
                same_versions_share_all(last.before.store, state.store);
                same_versions_share_all(state.store, last.before.store);
                let joined = committed(h, now, revision).0.undo;
                assert(joined.drop_last() =~= h.undo.drop_last());
                assert(joined.last().retained_bytes == 0);
            }
        }
    }
}

proof fn versions_chain(a: StoreView, b: StoreView, c: StoreView)
    requires
        a.within(b),
        b.within(c),
    ensures
        a.within(c),
{
    assert forall|i: int| 0 <= i < a.bitmaps.len() implies c.has_version(
        (#[trigger] a.bitmaps[i]).id,
        a.bitmaps[i].version,
    ) by {
        assert(b.has_version(a.bitmaps[i].id, a.bitmaps[i].version));
        let j = choose|j: int|
            0 <= j < b.bitmaps.len() && (#[trigger] b.bitmaps[j]).id == a.bitmaps[i].id
                && b.bitmaps[j].version == a.bitmaps[i].version;
        assert(c.has_version(b.bitmaps[j].id, b.bitmaps[j].version));
    }
}

/// Undoing a change gives back the moment before it, and redoing it then the
/// moment after it, with the history that there was.
pub proof fn changes_are_undone_and_redone(h: HistoryView)
    requires
        h.undo.len() > 0,
        h.pending is None,
    ensures
        undone(h) matches Some((back, moment)) && moment == h.undo.last().before && redone(back)
            == Some((h, h.undo.last().after)),
{
    let (back, moment) = undone(h)->0;
    assert(back.undo.push(back.redo.last()) =~= h.undo);
    assert(back.redo.drop_last() =~= h.redo);
}

/// A change that altered something can be undone: the moment before it comes
/// back, unless it alone keeps more than may be kept.
pub proof fn last_changes_can_be_undone(h: HistoryView, now: SnapshotView, revision: u64)
    requires
        h.pending matches Some((before, kind)) && kind == 0 && !same_moment(before, now)
            && retained_between(before.store, now.store) <= HISTORY_BYTE_LIMIT,
    ensures
        undone(committed(h, Some(now), revision).0) matches Some((back, moment)) && Some(moment)
            == (match h.pending {
            Some((before, kind)) => Some(before),
            None => None,
        }),
        committed(h, Some(now), revision).0.redo.len() == 0,
{
    let (before, kind) = h.pending->0;
    let after = SnapshotView { revision: bumped(revision), ..now };
    trimmed_keeps_the_last(
        h.undo.push(
            EntryView {
                before,
                after,
                retained_bytes: retained_between(before.store, after.store),
                coalesce_kind: kind,
            },
        ),
    );
}

/// A history of up to a hundred changes that keep up to 256 MB is kept whole,
/// and no more is ever kept.
pub proof fn histories_keep_a_hundred_changes(entries: Seq<EntryView>)
    ensures
        entries.len() <= 100 && retained_sum(entries) <= 268_435_456 ==> trimmed_entries(entries)
            == entries,
        trimmed_entries(entries).len() <= 100,
        retained_sum(trimmed_entries(entries)) <= 268_435_456,
{
    trimmed_is_kept(entries);
}

/// A change is a step of its own, unless it goes on with the one before it: of
/// the same kind, with nothing in between and the same pixels. Then the two are
/// one step, from the moment before the first to the moment after the second.
/// What was undone before can no longer be done again.
pub proof fn changes_that_go_on_are_one_step(
    h: HistoryView,
    before: SnapshotView,
    kind: u8,
    state: SnapshotView,
    revision: u64,
)
    requires
        h.pending == Some((before, kind)),
        !same_moment(before, state),
        retained_between(before.store, state.store) <= 268_435_456,
    ensures
        ({
            let (now, next) = committed(h, Some(state), revision);
            let goes_on = h.undo.len() > 0 && kind != 0 && h.undo.last().coalesce_kind == kind
                && same_moment(h.undo.last().after, before)
                && h.undo.last().before.store.same_versions(before.store);
            &&& now.redo.len() == 0 && now.pending is None
            &&& now.undo.len() > 0 && now.undo.last().after == (SnapshotView {
                revision: next,
                ..state
            })
            &&& goes_on ==> now.undo.len() == h.undo.len() && now.undo.last().before
                == h.undo.last().before && now.undo.drop_last() == h.undo.drop_last()
            &&& !goes_on ==> now.undo.last().before == before
        }),
{
    let after = SnapshotView { revision: bumped(revision), ..state };
    let entry = EntryView {
        before,
        after,
        retained_bytes: retained_between(before.store, after.store),
        coalesce_kind: kind,
    };
    trimmed_keeps_the_last(h.undo.push(entry));
    let now = committed(h, Some(state), revision).0;
    if is_joined(h.undo, before, kind) {
        assert(now.undo.drop_last() =~= h.undo.drop_last());
    }
}

} // verus!
