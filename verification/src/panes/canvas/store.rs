//! The pixels of a document, by identity.

use crate::lists::{first_from, first_from_found, first_where, kept, kept_all, kept_step};
use crate::panes::canvas::frame::{Frame, FrameView};
use std::sync::Arc;
use vstd::prelude::*;

verus! {

/// A bitmap: its identity, the version of its pixels, and the pixels, which
/// snapshots share.
pub struct Bitmap {
    pub id: u64,
    pub version: u64,
    pub frame: Arc<Frame>,
}

pub struct BitmapView {
    pub id: u64,
    pub version: u64,
    pub frame: FrameView,
}

impl View for Bitmap {
    type V = BitmapView;

    open spec fn view(&self) -> BitmapView {
        BitmapView { id: self.id, version: self.version, frame: self.frame@ }
    }
}

/// The bitmaps of a document, and the identity that the next one gets.
pub struct PixelStore {
    pub bitmaps: Vec<Bitmap>,
    pub next: u64,
}

#[verifier::ext_equal]
pub struct StoreView {
    pub bitmaps: Seq<BitmapView>,
    pub next: u64,
}

/// The views of bitmaps.
pub open spec fn bitmap_views(v: Seq<Bitmap>) -> Seq<BitmapView> {
    Seq::new(v.len(), |i: int| v[i]@)
}

impl View for PixelStore {
    type V = StoreView;

    open spec fn view(&self) -> StoreView {
        StoreView { bitmaps: bitmap_views(self.bitmaps@), next: self.next }
    }
}

fn share(b: &Bitmap) -> (r: Bitmap)
    ensures
        r@ == b@,
{
    Bitmap { id: b.id, version: b.version, frame: b.frame.clone() }
}

/// The bitmap has an identity.
pub open spec fn bears(id: u64) -> spec_fn(BitmapView) -> bool {
    |b: BitmapView| b.id == id
}

/// The bitmap is one of a list of identities.
pub open spec fn is_named(ids: Seq<u64>) -> spec_fn(BitmapView) -> bool {
    |b: BitmapView| ids.contains(b.id)
}

impl StoreView {
    /// The bitmap of an identity.
    pub open spec fn at(self, id: u64) -> Option<BitmapView> {
        match first_where(self.bitmaps, bears(id)) {
            Some(i) => Some(self.bitmaps[i]),
            None => None,
        }
    }

    /// The pixels of an identity.
    pub open spec fn frame(self, id: u64) -> Option<FrameView> {
        match self.at(id) {
            Some(b) => Some(b.frame),
            None => None,
        }
    }

    /// The store with one more bitmap.
    pub open spec fn with(self, frame: FrameView, version: u64) -> StoreView {
        StoreView {
            bitmaps: self.bitmaps.push(BitmapView { id: self.next, version, frame }),
            next: after(self.next),
        }
    }

    /// The store with other pixels for an identity that it has.
    pub open spec fn replaced(self, id: u64, frame: FrameView, version: u64) -> StoreView {
        match first_where(self.bitmaps, bears(id)) {
            Some(i) => StoreView {
                bitmaps: self.bitmaps.update(i, BitmapView { id, version, frame }),
                ..self
            },
            None => self,
        }
    }

    /// The store with a bitmap under an identity of its own; later ones get
    /// later identities.
    pub open spec fn restored(self, id: u64, frame: FrameView, version: u64) -> StoreView {
        StoreView {
            bitmaps: self.bitmaps.push(BitmapView { id, version, frame }),
            next: if id >= self.next {
                after(id)
            } else {
                self.next
            },
        }
    }

    /// The store with the bitmaps of some identities only.
    pub open spec fn retained(self, ids: Seq<u64>) -> StoreView {
        StoreView { bitmaps: kept(self.bitmaps, is_named(ids)), ..self }
    }

    /// Whether a version of a bitmap is in the store.
    pub open spec fn has_version(self, id: u64, version: u64) -> bool {
        exists|i: int|
            0 <= i < self.bitmaps.len() && (#[trigger] self.bitmaps[i]).id == id
                && self.bitmaps[i].version == version
    }

    /// Whether every version here is also there.
    pub open spec fn within(self, other: StoreView) -> bool {
        forall|i: int|
            0 <= i < self.bitmaps.len() ==> other.has_version(
                (#[trigger] self.bitmaps[i]).id,
                self.bitmaps[i].version,
            )
    }

    /// Whether two stores hold the same versions.
    pub open spec fn same_versions(self, other: StoreView) -> bool {
        self.within(other) && other.within(self)
    }
}

/// The number after another, and the first after the last.
pub open spec fn after(n: u64) -> u64 {
    if n == u64::MAX {
        0
    } else {
        (n + 1) as u64
    }
}

/// The number after another, and the first after the last.
pub fn next_number(n: u64) -> (r: u64)
    ensures
        r == after(n),
{
    if n == u64::MAX {
        0
    } else {
        n + 1
    }
}

/// A store without bitmaps.
pub open spec fn empty_store() -> StoreView {
    StoreView { bitmaps: Seq::empty(), next: 1 }
}

/// The bytes of the bitmaps here that are not there.
pub open spec fn unshared(bitmaps: Seq<BitmapView>, other: StoreView) -> nat
    decreases bitmaps.len(),
{
    if bitmaps.len() == 0 {
        0
    } else {
        let last = bitmaps.last();
        unshared(bitmaps.drop_last(), other) + if other.has_version(last.id, last.version) {
            0
        } else {
            last.frame.pixels.len()
        }
    }
}

/// A number that fits, or the largest that does.
pub open spec fn fitted(n: nat) -> u64 {
    if n <= u64::MAX {
        n as u64
    } else {
        u64::MAX
    }
}

/// Whether an identity is in a list.
pub fn has_number(ids: &Vec<u64>, id: u64) -> (r: bool)
    ensures
        r == ids@.contains(id),
{
    let mut i: usize = 0;
    while i < ids.len()
        invariant
            i <= ids.len(),
            forall|j: int| 0 <= j < i ==> ids@[j] != id,
        decreases ids.len() - i,
    {
        if ids[i] == id {
            return true;
        }
        i = i + 1;
    }
    false
}

impl PixelStore {
    pub fn new() -> (r: PixelStore)
        ensures
            r@ == empty_store(),
    {
        let r: PixelStore = PixelStore { bitmaps: Vec::new(), next: 1 };
        proof {
            assert(r@.bitmaps =~= empty_store().bitmaps);
        }
        r
    }

    /// How many bitmaps there are.
    pub fn len(&self) -> (r: usize)
        ensures
            r == self@.bitmaps.len(),
    {
        self.bitmaps.len()
    }

    /// The store again; the pixels are shared.
    pub fn copy(&self) -> (r: PixelStore)
        ensures
            r@ == self@,
    {
        let mut out: Vec<Bitmap> = Vec::new();
        let mut i: usize = 0;
        while i < self.bitmaps.len()
            invariant
                i <= self.bitmaps.len(),
                out@.len() == i,
                forall|j: int| 0 <= j < i ==> (#[trigger] out@[j])@ == self.bitmaps@[j]@,
            decreases self.bitmaps.len() - i,
        {
            out.push(share(&self.bitmaps[i]));
            i = i + 1;
        }
        let r: PixelStore = PixelStore { bitmaps: out, next: self.next };
        proof {
            assert(r@.bitmaps =~= self@.bitmaps);
        }
        r
    }

    fn place(&self, id: u64) -> (r: Option<usize>)
        ensures
            match r {
                Some(i) => i < self.bitmaps.len() && first_where(self@.bitmaps, bears(id)) == Some(
                    i as int,
                ),
                None => first_where(self@.bitmaps, bears(id)) is None,
            },
    {
        let mut i: usize = 0;
        while i < self.bitmaps.len()
            invariant
                i <= self.bitmaps.len(),
                first_from(self@.bitmaps, bears(id), 0) == first_from(
                    self@.bitmaps,
                    bears(id),
                    i as int,
                ),
            decreases self.bitmaps.len() - i,
        {
            proof {
                assert(self@.bitmaps[i as int] == self.bitmaps@[i as int]@);
            }
            if self.bitmaps[i].id == id {
                return Some(i);
            }
            i = i + 1;
        }
        None
    }

    /// The pixels of an identity.
    pub fn get(&self, id: u64) -> (r: Option<&Frame>)
        ensures
            match r {
                Some(frame) => self@.frame(id) == Some(frame@),
                None => self@.frame(id) is None,
            },
    {
        match self.place(id) {
            Some(i) => Some(&*self.bitmaps[i].frame),
            None => None,
        }
    }

    /// The version of the pixels of an identity.
    pub fn version(&self, id: u64) -> (r: Option<u64>)
        ensures
            r == match self@.at(id) {
                Some(b) => Some(b.version),
                None => None,
            },
    {
        match self.place(id) {
            Some(i) => Some(self.bitmaps[i].version),
            None => None,
        }
    }

    /// Stores pixels under a new identity.
    pub fn put(&mut self, frame: Frame, version: u64) -> (r: u64)
        ensures
            final(self)@ == old(self)@.with(frame@, version),
            r == old(self)@.next,
    {
        let id: u64 = self.next;
        let ghost before = self.bitmaps@;
        let b: Bitmap = Bitmap { id, version, frame: Arc::new(frame) };
        let ghost view = b@;
        self.bitmaps.push(b);
        self.next = next_number(id);
        proof {
            assert(bitmap_views(self.bitmaps@) =~= bitmap_views(before).push(view));
        }
        id
    }

    /// Stores other pixels under an identity.
    pub fn replace(&mut self, id: u64, frame: Frame, version: u64)
        ensures
            final(self)@ == old(self)@.replaced(id, frame@, version),
    {
        if let Some(i) = self.place(id) {
            let ghost before = self.bitmaps@;
            let b: Bitmap = Bitmap { id, version, frame: Arc::new(frame) };
            let ghost view = b@;
            self.bitmaps.set(i, b);
            proof {
                assert(bitmap_views(self.bitmaps@) =~= bitmap_views(before).update(
                    i as int,
                    view,
                ));
            }
        }
    }

    /// Stores pixels under an identity that they had.
    pub fn restore(&mut self, id: u64, frame: Frame, version: u64)
        ensures
            final(self)@ == old(self)@.restored(id, frame@, version),
    {
        let ghost before = self.bitmaps@;
        let b: Bitmap = Bitmap { id, version, frame: Arc::new(frame) };
        let ghost view = b@;
        self.bitmaps.push(b);
        if id >= self.next {
            self.next = next_number(id);
        }
        proof {
            assert(bitmap_views(self.bitmaps@) =~= bitmap_views(before).push(view));
        }
    }

    /// Drops the bitmaps that are not named.
    pub fn retain(&mut self, ids: &Vec<u64>)
        ensures
            final(self)@ == old(self)@.retained(ids@),
    {
        let ghost all = bitmap_views(self.bitmaps@);
        let ghost p = is_named(ids@);
        let mut out: Vec<Bitmap> = Vec::new();
        let mut i: usize = 0;
        proof {
            kept_all(all, p);
            assert(bitmap_views(out@) =~= Seq::empty());
        }
        while i < self.bitmaps.len()
            invariant
                i <= self.bitmaps.len(),
                self.bitmaps@ == old(self).bitmaps@,
                self.next == old(self).next,
                all == bitmap_views(self.bitmaps@),
                p == is_named(ids@),
                bitmap_views(out@) == kept(all.take(i as int), p),
            decreases self.bitmaps.len() - i,
        {
            proof {
                kept_step(all, p, i as int);
                assert(all[i as int] == self.bitmaps@[i as int]@);
            }
            if has_number(ids, self.bitmaps[i].id) {
                let ghost before = out@;
                let b: Bitmap = share(&self.bitmaps[i]);
                let ghost view = b@;
                out.push(b);
                proof {
                    assert(bitmap_views(out@) =~= bitmap_views(before).push(view));
                }
            }
            i = i + 1;
        }
        proof {
            kept_all(all, p);
        }
        self.bitmaps = out;
    }

    fn has(&self, id: u64, version: u64) -> (r: bool)
        ensures
            r == self@.has_version(id, version),
    {
        let mut i: usize = 0;
        while i < self.bitmaps.len()
            invariant
                i <= self.bitmaps.len(),
                forall|j: int|
                    0 <= j < i ==> !((#[trigger] self@.bitmaps[j]).id == id
                        && self@.bitmaps[j].version == version),
            decreases self.bitmaps.len() - i,
        {
            proof {
                assert(self@.bitmaps[i as int] == self.bitmaps@[i as int]@);
            }
            if self.bitmaps[i].id == id && self.bitmaps[i].version == version {
                return true;
            }
            i = i + 1;
        }
        false
    }

    fn is_within(&self, other: &PixelStore) -> (r: bool)
        ensures
            r == self@.within(other@),
    {
        let mut i: usize = 0;
        while i < self.bitmaps.len()
            invariant
                i <= self.bitmaps.len(),
                forall|j: int|
                    0 <= j < i ==> other@.has_version(
                        (#[trigger] self@.bitmaps[j]).id,
                        self@.bitmaps[j].version,
                    ),
            decreases self.bitmaps.len() - i,
        {
            proof {
                assert(self@.bitmaps[i as int] == self.bitmaps@[i as int]@);
            }
            if !other.has(self.bitmaps[i].id, self.bitmaps[i].version) {
                return false;
            }
            i = i + 1;
        }
        true
    }

    /// Whether two stores hold the same versions.
    pub fn same_versions(&self, other: &PixelStore) -> (r: bool)
        ensures
            r == self@.same_versions(other@),
    {
        self.is_within(other) && other.is_within(self)
    }

    /// The bytes of the bitmaps here that are not there.
    pub fn unshared_bytes(&self, other: &PixelStore) -> (r: u64)
        ensures
            r == fitted(unshared(self@.bitmaps, other@)),
    {
        let ghost all = self@.bitmaps;
        let mut total: u64 = 0;
        let mut i: usize = 0;
        proof {
            assert(all.take(0) =~= Seq::empty());
        }
        while i < self.bitmaps.len()
            invariant
                i <= self.bitmaps.len(),
                all == self@.bitmaps,
                total == fitted(unshared(all.take(i as int), other@)),
            decreases self.bitmaps.len() - i,
        {
            proof {
                assert(all.take(i + 1).drop_last() =~= all.take(i as int));
                assert(all.take(i + 1).last() == self.bitmaps@[i as int]@);
            }
            if !other.has(self.bitmaps[i].id, self.bitmaps[i].version) {
                total = total.saturating_add(self.bitmaps[i].frame.pixels.len() as u64);
            }
            i = i + 1;
        }
        proof {
            assert(all.take(all.len() as int) =~= all);
        }
        total
    }
}

/// What was stored is found under the identity it got, and the other bitmaps
/// stay as they are, where the identity is new.
pub proof fn stored_pixels_are_found(store: StoreView, frame: FrameView, version: u64, other: u64)
    requires
        store.at(store.next) is None,
    ensures
        store.with(frame, version).frame(store.next) == Some(frame),
        other != store.next ==> store.with(frame, version).at(other) == store.at(other),
{
    let next = store.with(frame, version);
    first_from_found(store.bitmaps, bears(store.next), 0);
    first_from_found(next.bitmaps, bears(store.next), 0);
    first_from_found(store.bitmaps, bears(other), 0);
    first_from_found(next.bitmaps, bears(other), 0);
    assert(next.bitmaps[store.bitmaps.len() as int].id == store.next);
    assert forall|i: int| 0 <= i < store.bitmaps.len() implies #[trigger] store.bitmaps[i]
        == next.bitmaps[i] by {}
    assert(!bears(store.next)(store.bitmaps[0]) || store.bitmaps.len() == 0);
    match first_where(next.bitmaps, bears(store.next)) {
        Some(i) => {
            if i < store.bitmaps.len() {
                assert(next.bitmaps[i] == store.bitmaps[i]);
                assert(bears(store.next)(store.bitmaps[i]));
            }
        },
        None => {
            assert(bears(store.next)(next.bitmaps[store.bitmaps.len() as int]));
        },
    }
    if other != store.next {
        match (first_where(next.bitmaps, bears(other)), first_where(store.bitmaps, bears(other))) {
            (Some(i), Some(j)) => {
                if i < j {
                    assert(bears(other)(store.bitmaps[i]));
                }
                if j < i {
                    assert(bears(other)(next.bitmaps[j]));
                }
            },
            (Some(i), None) => {
                if i < store.bitmaps.len() {
                    assert(bears(other)(store.bitmaps[i]));
                }
            },
            (None, Some(j)) => {
                assert(bears(other)(next.bitmaps[j]));
            },
            (None, None) => {},
        }
    }
}

/// Stores of the same versions share every byte.
pub proof fn same_versions_share_all(a: StoreView, b: StoreView)
    requires
        a.within(b),
    ensures
        unshared(a.bitmaps, b) == 0,
{
    shared_so_far(a, b, a.bitmaps.len() as int);
    assert(a.bitmaps.take(a.bitmaps.len() as int) =~= a.bitmaps);
}

proof fn shared_so_far(a: StoreView, b: StoreView, n: int)
    requires
        a.within(b),
        0 <= n <= a.bitmaps.len(),
    ensures
        unshared(a.bitmaps.take(n), b) == 0,
    decreases n,
{
    if n > 0 {
        shared_so_far(a, b, n - 1);
        assert(a.bitmaps.take(n).drop_last() =~= a.bitmaps.take(n - 1));
        assert(a.bitmaps.take(n).last() == a.bitmaps[n - 1]);
    }
}

/// Pixels that are replaced are found under the same identity, and all others
/// stay.
pub proof fn replaced_pixels_are_found(
    store: StoreView,
    id: u64,
    frame: FrameView,
    version: u64,
    other: u64,
)
    requires
        store.frame(id) is Some,
    ensures
        store.replaced(id, frame, version).frame(id) == Some(frame),
        other != id ==> store.replaced(id, frame, version).frame(other) == store.frame(other),
{
    let now = store.replaced(id, frame, version);
    let at = first_where(store.bitmaps, bears(id))->0;
    first_from_found(store.bitmaps, bears(id), 0);
    first_from_found(now.bitmaps, bears(id), 0);
    first_from_found(store.bitmaps, bears(other), 0);
    first_from_found(now.bitmaps, bears(other), 0);
    assert(bears(id)(now.bitmaps[at]));
    assert forall|i: int| 0 <= i < store.bitmaps.len() && i != at implies #[trigger] now.bitmaps[i]
        == store.bitmaps[i] by {}
    if let Some(i) = first_where(now.bitmaps, bears(id)) {
        if i < at {
            assert(bears(id)(store.bitmaps[i]));
        }
    }
    if other != id {
        if let Some(i) = first_where(now.bitmaps, bears(other)) {
            assert(bears(other)(store.bitmaps[i]));
            let j = first_where(store.bitmaps, bears(other))->0;
            assert(bears(other)(now.bitmaps[j]));
        }
        if let Some(j) = first_where(store.bitmaps, bears(other)) {
            assert(bears(other)(now.bitmaps[j]));
        }
    }
}

} // verus!
