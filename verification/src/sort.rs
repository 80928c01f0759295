//! Stable sorting by keys.

use crate::text::{chars_of, same, views};
use vstd::prelude::*;
use vstd::string::*;

verus! {

/// The order of texts: by their first character that differs, a prefix before
/// what it is a prefix of.
pub open spec fn text_less(a: Seq<char>, b: Seq<char>) -> bool
    decreases a.len(),
{
    if b.len() == 0 {
        false
    } else if a.len() == 0 {
        true
    } else if a[0] == b[0] {
        text_less(a.drop_first(), b.drop_first())
    } else {
        (a[0] as u32) < (b[0] as u32)
    }
}

pub proof fn text_less_total(a: Seq<char>, b: Seq<char>)
    ensures
        a != b ==> text_less(a, b) != text_less(b, a),
        a == b ==> !text_less(a, b),
    decreases a.len(),
{
    if a.len() > 0 && b.len() > 0 {
        if a[0] == b[0] {
            text_less_total(a.drop_first(), b.drop_first());
            if a != b {
                assert(a.drop_first() != b.drop_first()) by {
                    if a.drop_first() == b.drop_first() {
                        assert(a =~= seq![a[0]] + a.drop_first());
                        assert(b =~= seq![b[0]] + b.drop_first());
                    }
                }
            }
        } else {
            chars_differ(a[0], b[0]);
        }
    } else if a != b {
        if a.len() == 0 && b.len() == 0 {
            assert(a =~= b);
        }
    }
}

proof fn chars_differ(a: char, b: char)
    requires
        a != b,
    ensures
        a as u32 != b as u32,
{
}

pub proof fn text_less_transitive(a: Seq<char>, b: Seq<char>, c: Seq<char>)
    requires
        text_less(a, b),
        text_less(b, c),
    ensures
        text_less(a, c),
    decreases a.len(),
{
    if a.len() > 0 {
        if a[0] == b[0] && b[0] == c[0] {
            text_less_transitive(a.drop_first(), b.drop_first(), c.drop_first());
        } else if a[0] == c[0] && a[0] != b[0] {
            chars_differ(a[0], b[0]);
        }
    }
}

pub fn less_text(a: &str, b: &str) -> (r: bool)
    ensures
        r == text_less(a@, b@),
{
    let x: Vec<char> = chars_of(a);
    let y: Vec<char> = chars_of(b);
    let mut i: usize = 0;
    proof {
        assert(x@.skip(0) =~= x@);
        assert(y@.skip(0) =~= y@);
    }
    loop
        invariant
            i <= x.len(),
            i <= y.len(),
            x@ == a@,
            y@ == b@,
            text_less(a@, b@) == text_less(x@.skip(i as int), y@.skip(i as int)),
        decreases x.len() - i,
    {
        if i == y.len() {
            return false;
        }
        if i == x.len() {
            return true;
        }
        if x[i] != y[i] {
            proof {
                assert(x@.skip(i as int)[0] == x@[i as int]);
                assert(y@.skip(i as int)[0] == y@[i as int]);
            }
            return (x[i] as u32) < (y[i] as u32);
        }
        proof {
            assert(x@.skip(i as int).drop_first() =~= x@.skip(i + 1));
            assert(y@.skip(i as int).drop_first() =~= y@.skip(i + 1));
        }
        i = i + 1;
    }
}

/// What a row is sorted by: first its group and its name, both ascending, then
/// its time, latest first, then its id.
pub struct SortKey {
    pub group: i64,
    pub name: String,
    pub time: u64,
    pub id: String,
}

pub struct KeyView {
    pub group: i64,
    pub name: Seq<char>,
    pub time: u64,
    pub id: Seq<char>,
}

impl View for SortKey {
    type V = KeyView;

    open spec fn view(&self) -> KeyView {
        KeyView { group: self.group, name: self.name@, time: self.time, id: self.id@ }
    }
}

/// Whether key `a` comes before key `b`.
pub open spec fn key_less(a: KeyView, b: KeyView) -> bool {
    if a.group != b.group {
        a.group < b.group
    } else if a.name != b.name {
        text_less(a.name, b.name)
    } else if a.time != b.time {
        a.time > b.time
    } else {
        text_less(a.id, b.id)
    }
}

/// Whether row `i` comes before row `j`: by their keys, and in their own order
/// where the keys are equal.
pub open spec fn row_less(keys: Seq<KeyView>, i: int, j: int) -> bool {
    key_less(keys[i], keys[j]) || (keys[i] == keys[j] && i < j)
}

proof fn key_less_total(a: KeyView, b: KeyView)
    ensures
        a != b ==> key_less(a, b) != key_less(b, a),
        a == b ==> !key_less(a, b),
{
    text_less_total(a.name, b.name);
    text_less_total(a.id, b.id);
}

proof fn key_less_transitive(a: KeyView, b: KeyView, c: KeyView)
    requires
        key_less(a, b),
        key_less(b, c),
    ensures
        key_less(a, c),
{
    if a.group == b.group && b.group == c.group {
        if a.name != b.name && b.name != c.name {
            text_less_transitive(a.name, b.name, c.name);
            text_less_total(a.name, c.name);
        } else if a.name == b.name && b.name == c.name && a.time == b.time && b.time == c.time {
            text_less_transitive(a.id, b.id, c.id);
        }
    }
}

proof fn row_less_transitive(keys: Seq<KeyView>, i: int, j: int, k: int)
    requires
        row_less(keys, i, j),
        row_less(keys, j, k),
    ensures
        row_less(keys, i, k),
{
    if key_less(keys[i], keys[j]) && key_less(keys[j], keys[k]) {
        key_less_transitive(keys[i], keys[j], keys[k]);
    }
}

/// `order` lists the rows of `keys`, each once, in their order.
pub open spec fn is_order(order: Seq<usize>, keys: Seq<KeyView>) -> bool {
    &&& order.len() == keys.len()
    &&& forall|i: int| 0 <= i < order.len() ==> #[trigger] order[i] < keys.len()
    &&& forall|i: int, j: int|
        0 <= i < j < order.len() ==> row_less(
            keys,
            #[trigger] order[i] as int,
            #[trigger] order[j] as int,
        )
}

/// The views of a list of keys.
pub open spec fn key_views(v: Seq<SortKey>) -> Seq<KeyView> {
    Seq::new(v.len(), |i: int| v[i]@)
}

fn less_key(a: &SortKey, b: &SortKey) -> (r: bool)
    ensures
        r == key_less(a@, b@),
{
    if a.group != b.group {
        a.group < b.group
    } else if !same(a.name.as_str(), b.name.as_str()) {
        less_text(a.name.as_str(), b.name.as_str())
    } else if a.time != b.time {
        a.time > b.time
    } else {
        less_text(a.id.as_str(), b.id.as_str())
    }
}

/// The rows of `keys` in their order.
pub open spec fn order_of(keys: Seq<KeyView>) -> Seq<usize> {
    choose|order: Seq<usize>| is_order(order, keys)
}

/// The rows of `keys` in their order.
pub fn arrange(keys: &Vec<SortKey>) -> (r: Vec<usize>)
    ensures
        is_order(r@, key_views(keys@)),
        r@ == order_of(key_views(keys@)),
{
    let ghost all = key_views(keys@);
    let mut out: Vec<usize> = Vec::new();
    let mut k: usize = 0;
    while k < keys.len()
        invariant
            k <= keys.len(),
            all == key_views(keys@),
            out@.len() == k,
            forall|i: int| 0 <= i < k ==> #[trigger] out@[i] < k,
            forall|i: int, j: int|
                0 <= i < j < k ==> row_less(
                    all,
                    #[trigger] out@[i] as int,
                    #[trigger] out@[j] as int,
                ),
        decreases keys.len() - k,
    {
        let mut at: usize = k;
        while at > 0 && less_key(&keys[k], &keys[out[at - 1]])
            invariant
                at <= k < keys.len(),
                all == key_views(keys@),
                out@.len() == k,
                forall|i: int| 0 <= i < k ==> #[trigger] out@[i] < k,
                forall|j: int| at <= j < k ==> row_less(all, k as int, #[trigger] out@[j] as int),
            decreases at,
        {
            at = at - 1;
        }
        proof {
            if at > 0 {
                let prior = out@[at - 1] as int;
                key_less_total(all[k as int], all[prior]);
                assert(row_less(all, prior, k as int));
                assert forall|i: int| 0 <= i < at implies row_less(
                    all,
                    #[trigger] out@[i] as int,
                    k as int,
                ) by {
                    if i < at - 1 {
                        row_less_transitive(all, out@[i] as int, prior, k as int);
                    }
                }
            }
        }
        let ghost before = out@;
        out.insert(at, k);
        proof {
            assert(out@ =~= before.insert(at as int, k));
            assert forall|i: int| 0 <= i < k + 1 implies #[trigger] out@[i] < k + 1 by {
                if i < at {
                    assert(out@[i] == before[i]);
                } else if i > at {
                    assert(out@[i] == before[i - 1]);
                }
            }
            assert forall|i: int, j: int| 0 <= i < j < k + 1 implies row_less(
                all,
                #[trigger] out@[i] as int,
                #[trigger] out@[j] as int,
            ) by {
                let x = if i < at {
                    i
                } else {
                    i - 1
                };
                let y = if j < at {
                    j
                } else {
                    j - 1
                };
                if i == at {
                    assert(out@[j] == before[j - 1]);
                } else if j == at {
                    assert(out@[i] == before[i]);
                } else {
                    assert(out@[i] == before[x]);
                    assert(out@[j] == before[y]);
                }
            }
        }
        k = k + 1;
    }
    proof {
        order_is_unique(out@, order_of(all), all);
    }
    out
}

/// A key that sorts by time alone, latest first.
pub fn time_key(time: u64) -> (r: SortKey)
    ensures
        r@ == (KeyView { group: 0, name: ""@, time, id: ""@ }),
{
    SortKey { group: 0, name: "".to_owned(), time, id: "".to_owned() }
}

/// A key that sorts by name alone.
pub fn name_key(name: String) -> (r: SortKey)
    ensures
        r@ == (KeyView { group: 0, name: name@, time: 0, id: ""@ }),
{
    SortKey { group: 0, name, time: 0, id: "".to_owned() }
}

/// There is only one order: two lists that order the same keys are equal.
pub proof fn order_is_unique(a: Seq<usize>, b: Seq<usize>, keys: Seq<KeyView>)
    requires
        is_order(a, keys),
        is_order(b, keys),
    ensures
        a == b,
{
    assert forall|i: int| 0 <= i < a.len() implies a[i] == b[i] by {
        order_position(a, b, keys, i);
    }
    assert(a =~= b);
}

/// The row at place `i` is the same in two orders.
proof fn order_position(a: Seq<usize>, b: Seq<usize>, keys: Seq<KeyView>, i: int)
    requires
        is_order(a, keys),
        is_order(b, keys),
        0 <= i < a.len(),
    ensures
        a[i] == b[i],
    decreases i,
{
    assert forall|j: int| 0 <= j < i implies a[j] == b[j] by {
        order_position(a, b, keys, j);
    }
    let ja = order_onto(b, keys, a[i]);
    let jb = order_onto(a, keys, b[i]);
    assert(a[i] < keys.len() && b[i] < keys.len());
    if ja < i {
        assert(a[ja] == b[ja]);
        row_irreflexive(keys, a[i] as int);
        assert(row_less(keys, a[ja] as int, a[i] as int));
    }
    if jb < i {
        assert(a[jb] == b[jb]);
        row_irreflexive(keys, b[i] as int);
        assert(row_less(keys, b[jb] as int, b[i] as int));
    }
    if ja > i && jb > i {
        assert(row_less(keys, b[i] as int, b[ja] as int));
        assert(row_less(keys, a[i] as int, a[jb] as int));
        row_less_transitive(keys, a[i] as int, b[i] as int, a[i] as int);
        row_irreflexive(keys, a[i] as int);
    }
}

proof fn row_irreflexive(keys: Seq<KeyView>, i: int)
    ensures
        !row_less(keys, i, i),
{
    key_less_total(keys[i], keys[i]);
}

/// An order lists every row: `k` stands at the returned place.
pub proof fn order_onto(order: Seq<usize>, keys: Seq<KeyView>, k: usize) -> (at: int)
    requires
        is_order(order, keys),
        k < keys.len(),
    ensures
        0 <= at < order.len(),
        order[at] == k,
{
    let n = keys.len();
    let ints = order.map_values(|x: usize| x as int);
    assert(ints.no_duplicates()) by {
        assert forall|i: int, j: int|
            0 <= i < ints.len() && 0 <= j < ints.len() && i != j implies ints[i] != ints[j] by {
            if order[i] == order[j] {
                row_irreflexive(keys, order[i] as int);
                if i < j {
                    assert(row_less(keys, order[i] as int, order[j] as int));
                } else {
                    assert(row_less(keys, order[j] as int, order[i] as int));
                }
            }
        }
    }
    let range = vstd::set_lib::set_int_range(0, n as int);
    vstd::set_lib::lemma_int_range(0, n as int);
    ints.unique_seq_to_set();
    assert(ints.to_set().subset_of(range)) by {
        assert forall|x: int| ints.to_set().contains(x) implies range.contains(x) by {
            let i = choose|i: int| 0 <= i < ints.len() && ints[i] == x;
            assert(order[i] < keys.len());
        }
    }
    vstd::set_lib::lemma_subset_equality(ints.to_set(), range);
    assert(range.contains(k as int));
    assert(ints.to_set().contains(k as int));
    let j = choose|j: int| 0 <= j < ints.len() && ints[j] == k as int;
    assert(order[j] as int == k as int);
    j
}

/// Each text comes before the next.
pub open spec fn is_ascending(v: Seq<Seq<char>>) -> bool {
    forall|i: int, j: int| 0 <= i < j < v.len() ==> text_less(#[trigger] v[i], #[trigger] v[j])
}

/// The texts of a set in ascending order.
pub open spec fn ascending(set: Set<Seq<char>>) -> Seq<Seq<char>> {
    choose|v: Seq<Seq<char>>| is_ascending(v) && v.to_set() == set
}

/// A set has only one ascending list.
pub proof fn ascending_is_unique(a: Seq<Seq<char>>, b: Seq<Seq<char>>)
    requires
        is_ascending(a),
        is_ascending(b),
        a.to_set() == b.to_set(),
    ensures
        a == b,
    decreases a.len(),
{
    if a.len() == 0 {
        if b.len() > 0 {
            assert(b.to_set().contains(b[0]));
            assert(a.to_set().contains(b[0]));
        }
        assert(a =~= b);
    } else {
        assert(a.to_set().contains(a[0]));
        assert(b.to_set().contains(a[0]));
        let k = choose|k: int| 0 <= k < b.len() && b[k] == a[0];
        assert(b.to_set().contains(b[0]));
        assert(a.to_set().contains(b[0]));
        let m = choose|m: int| 0 <= m < a.len() && a[m] == b[0];
        if k > 0 {
            assert(text_less(b[0], b[k]));
            text_less_total(a[0], b[0]);
            if m > 0 {
                assert(text_less(a[0], a[m]));
            }
        }
        let ta = a.drop_first();
        let tb = b.drop_first();
        tail_set(a);
        tail_set(b);
        assert(is_ascending(ta));
        assert(is_ascending(tb));
        ascending_is_unique(ta, tb);
        assert(a =~= seq![a[0]] + ta);
        assert(b =~= seq![b[0]] + tb);
    }
}

proof fn tail_set(v: Seq<Seq<char>>)
    requires
        is_ascending(v),
        v.len() > 0,
    ensures
        v.drop_first().to_set() == v.to_set().remove(v[0]),
{
    let t = v.drop_first();
    assert forall|x: Seq<char>| t.to_set().contains(x) implies v.to_set().remove(v[0]).contains(
        x,
    ) by {
        let k = choose|k: int| 0 <= k < t.len() && t[k] == x;
        assert(v[k + 1] == x);
        assert(text_less(v[0], v[k + 1]));
        text_less_total(v[0], v[k + 1]);
    }
    assert forall|x: Seq<char>| v.to_set().remove(v[0]).contains(x) implies t.to_set().contains(
        x,
    ) by {
        let k = choose|k: int| 0 <= k < v.len() && v[k] == x;
        assert(t[k - 1] == x);
    }
    assert(t.to_set() =~= v.to_set().remove(v[0]));
}

/// The texts of a set in ascending order.
pub fn sorted_texts(set: &crate::collections::TextSet) -> (r: Vec<String>)
    ensures
        views(r@) == ascending(set@),
        is_ascending(views(r@)),
        views(r@).to_set() == set@,
        r@.len() == set@.len(),
{
    let texts: &Vec<String> = set.texts();
    let mut keys: Vec<SortKey> = Vec::new();
    let mut i: usize = 0;
    while i < texts.len()
        invariant
            i <= texts.len(),
            keys@.len() == i,
            forall|j: int|
                0 <= j < i ==> (#[trigger] keys@[j])@ == (KeyView {
                    group: 0,
                    name: texts@[j]@,
                    time: 0,
                    id: ""@,
                }),
        decreases texts.len() - i,
    {
        keys.push(name_key(texts[i].clone()));
        i = i + 1;
    }
    let order: Vec<usize> = arrange(&keys);
    let ghost kv = key_views(keys@);
    let mut out: Vec<String> = Vec::new();
    let mut k: usize = 0;
    while k < order.len()
        invariant
            k <= order.len(),
            order@.len() == texts@.len(),
            forall|j: int| 0 <= j < order@.len() ==> #[trigger] order@[j] < texts@.len(),
            out@.len() == k,
            forall|j: int| 0 <= j < k ==> (#[trigger] out@[j])@ == texts@[order@[j] as int]@,
        decreases order.len() - k,
    {
        out.push(texts[order[k]].clone());
        k = k + 1;
    }
    proof {
        let v = views(out@);
        let all = views(texts@);
        assert forall|i: int, j: int| 0 <= i < j < v.len() implies text_less(
            #[trigger] v[i],
            #[trigger] v[j],
        ) by {
            let a = order@[i] as int;
            let b = order@[j] as int;
            assert(row_less(kv, order@[i] as int, order@[j] as int));
            assert(kv[a].name == all[a] && kv[b].name == all[b]);
            text_less_total(""@, ""@);
            if a != b {
                assert(all[a] != all[b]);
            } else {
                row_irreflexive(kv, a);
            }
        }
        assert forall|x: Seq<char>| v.to_set().contains(x) <==> all.to_set().contains(x) by {
            if v.to_set().contains(x) {
                let i = choose|i: int| 0 <= i < v.len() && v[i] == x;
                assert(all[order@[i] as int] == x);
            }
            if all.to_set().contains(x) {
                let i = choose|i: int| 0 <= i < all.len() && all[i] == x;
                let at = order_onto(order@, kv, i as usize);
                assert(v[at] == x);
            }
        }
        assert(v.to_set() =~= all.to_set());
        ascending_is_unique(v, ascending(set@));
        all.unique_seq_to_set();
    }
    out
}

/// Where row `k`, the last of `keys`, belongs among rows that are in order.
proof fn place_among(rows: Seq<usize>, keys: Seq<KeyView>, k: usize) -> (at: int)
    requires
        k + 1 == keys.len(),
        forall|i: int| 0 <= i < rows.len() ==> #[trigger] rows[i] < k,
        forall|i: int, j: int|
            0 <= i < j < rows.len() ==> row_less(
                keys,
                #[trigger] rows[i] as int,
                #[trigger] rows[j] as int,
            ),
    ensures
        0 <= at <= rows.len(),
        forall|i: int| 0 <= i < at ==> row_less(keys, #[trigger] rows[i] as int, k as int),
        forall|i: int| at <= i < rows.len() ==> row_less(keys, k as int, #[trigger] rows[i] as int),
    decreases rows.len(),
{
    if rows.len() == 0 {
        0
    } else {
        let last = rows.len() - 1;
        key_less_total(keys[rows[last] as int], keys[k as int]);
        if row_less(keys, rows[last] as int, k as int) {
            assert forall|i: int| 0 <= i < rows.len() implies row_less(
                keys,
                #[trigger] rows[i] as int,
                k as int,
            ) by {
                if i < last {
                    row_less_transitive(keys, rows[i] as int, rows[last] as int, k as int);
                }
            }
            rows.len() as int
        } else {
            let fewer = rows.drop_last();
            assert forall|i: int, j: int| 0 <= i < j < fewer.len() implies row_less(
                keys,
                #[trigger] fewer[i] as int,
                #[trigger] fewer[j] as int,
            ) by {
                assert(rows[i] == fewer[i] && rows[j] == fewer[j]);
            }
            let at = place_among(fewer, keys, k);
            assert forall|i: int| 0 <= i < at implies row_less(
                keys,
                #[trigger] rows[i] as int,
                k as int,
            ) by {
                assert(rows[i] == fewer[i]);
            }
            assert forall|i: int| at <= i < rows.len() implies row_less(
                keys,
                k as int,
                #[trigger] rows[i] as int,
            ) by {
                if i < last {
                    assert(rows[i] == fewer[i]);
                }
            }
            at
        }
    }
}

/// Any keys can be put in order, and `order_of` does so.
pub proof fn orders_exist(keys: Seq<KeyView>)
    requires
        keys.len() <= usize::MAX,
    ensures
        is_order(order_of(keys), keys),
    decreases keys.len(),
{
    if keys.len() == 0 {
        assert(is_order(Seq::<usize>::empty(), keys));
    } else {
        let fewer = keys.drop_last();
        orders_exist(fewer);
        let rows = order_of(fewer);
        let k = (keys.len() - 1) as usize;
        assert forall|i: int, j: int| 0 <= i < j < rows.len() implies row_less(
            keys,
            #[trigger] rows[i] as int,
            #[trigger] rows[j] as int,
        ) by {
            assert(row_less(fewer, rows[i] as int, rows[j] as int));
            assert(keys[rows[i] as int] == fewer[rows[i] as int]);
            assert(keys[rows[j] as int] == fewer[rows[j] as int]);
        }
        let at = place_among(rows, keys, k);
        let order = rows.insert(at, k);
        assert forall|i: int| 0 <= i < order.len() implies #[trigger] order[i] < keys.len() by {
            if i < at {
                assert(order[i] == rows[i]);
            } else if i > at {
                assert(order[i] == rows[i - 1]);
            }
        }
        assert forall|i: int, j: int| 0 <= i < j < order.len() implies row_less(
            keys,
            #[trigger] order[i] as int,
            #[trigger] order[j] as int,
        ) by {
            if i < at {
                assert(order[i] == rows[i]);
            } else if i > at {
                assert(order[i] == rows[i - 1]);
            }
            if j < at {
                assert(order[j] == rows[j]);
            } else if j > at {
                assert(order[j] == rows[j - 1]);
            }
        }
        assert(is_order(order, keys));
    }
}

} // verus!
