//! Searching and filtering sequences.

use crate::json::{models, Json, JsonModel};
use vstd::prelude::*;

verus! {

/// The elements of `v` that satisfy `p`, in their order.
pub open spec fn kept<A>(v: Seq<A>, p: spec_fn(A) -> bool) -> Seq<A>
    decreases v.len(),
{
    if v.len() == 0 {
        Seq::<A>::empty()
    } else {
        let before = kept(v.drop_last(), p);
        if p(v.last()) {
            before.push(v.last())
        } else {
            before
        }
    }
}

/// The place of the first element of `v[from..]` that satisfies `p`.
pub open spec fn first_from<A>(v: Seq<A>, p: spec_fn(A) -> bool, from: int) -> Option<int>
    decreases v.len() - from,
{
    if from < 0 || from >= v.len() {
        None
    } else if p(v[from]) {
        Some(from)
    } else {
        first_from(v, p, from + 1)
    }
}

/// The place of the first element that satisfies `p`.
pub open spec fn first_where<A>(v: Seq<A>, p: spec_fn(A) -> bool) -> Option<int> {
    first_from(v, p, 0)
}

/// Whether some element satisfies `p`.
pub open spec fn any<A>(v: Seq<A>, p: spec_fn(A) -> bool) -> bool {
    exists|i: int| 0 <= i < v.len() && p(#[trigger] v[i])
}

/// Whether every element satisfies `p`.
pub open spec fn all<A>(v: Seq<A>, p: spec_fn(A) -> bool) -> bool {
    forall|i: int| 0 <= i < v.len() ==> p(#[trigger] v[i])
}

/// How many elements satisfy `p`.
pub open spec fn count<A>(v: Seq<A>, p: spec_fn(A) -> bool) -> nat {
    kept(v, p).len()
}

pub proof fn kept_step<A>(v: Seq<A>, p: spec_fn(A) -> bool, i: int)
    requires
        0 <= i < v.len(),
    ensures
        kept(v.take(i + 1), p) == if p(v[i]) {
            kept(v.take(i), p).push(v[i])
        } else {
            kept(v.take(i), p)
        },
{
    assert(v.take(i + 1).drop_last() =~= v.take(i));
    assert(v.take(i + 1).last() == v[i]);
}

pub proof fn kept_all<A>(v: Seq<A>, p: spec_fn(A) -> bool)
    ensures
        kept(v.take(0), p) == Seq::<A>::empty(),
        v.take(v.len() as int) == v,
{
    assert(v.take(0) =~= Seq::<A>::empty());
    assert(v.take(v.len() as int) =~= v);
}

pub proof fn kept_len<A>(v: Seq<A>, p: spec_fn(A) -> bool)
    ensures
        kept(v, p).len() <= v.len(),
    decreases v.len(),
{
    if v.len() > 0 {
        kept_len(v.drop_last(), p);
    }
}

/// Every element that is kept satisfies the condition.
pub proof fn kept_satisfies<A>(v: Seq<A>, p: spec_fn(A) -> bool)
    ensures
        forall|i: int| 0 <= i < kept(v, p).len() ==> p(#[trigger] kept(v, p)[i]),
    decreases v.len(),
{
    if v.len() > 0 {
        let before = kept(v.drop_last(), p);
        kept_satisfies(v.drop_last(), p);
        assert forall|i: int| 0 <= i < kept(v, p).len() implies p(#[trigger] kept(v, p)[i]) by {
            if i < before.len() {
                assert(kept(v, p)[i] == before[i]);
            }
        }
    }
}

pub proof fn first_from_found<A>(v: Seq<A>, p: spec_fn(A) -> bool, from: int)
    requires
        0 <= from,
    ensures
        first_from(v, p, from) matches Some(i) ==> from <= i < v.len() && p(v[i]),
        first_from(v, p, from) is None ==> forall|i: int| from <= i < v.len() ==> !p(#[trigger] v[i]),
        first_from(v, p, from) matches Some(i) ==> forall|j: int|
            from <= j < i ==> !p(#[trigger] v[j]),
    decreases v.len() - from,
{
    if from < v.len() && !p(v[from]) {
        first_from_found(v, p, from + 1);
    }
}

/// A search finds something exactly where some element satisfies `p`.
pub proof fn first_where_any<A>(v: Seq<A>, p: spec_fn(A) -> bool)
    ensures
        first_where(v, p) is Some <==> any(v, p),
{
    first_from_found(v, p, 0);
}

/// A document whose member `key` is the text `value`.
pub open spec fn text_is(key: Seq<char>, value: Seq<char>) -> spec_fn(JsonModel) -> bool {
    |j: JsonModel| j.text(key) == value
}

/// A document whose member `key` is not the text `value`.
pub open spec fn text_is_not(key: Seq<char>, value: Seq<char>) -> spec_fn(JsonModel) -> bool {
    |j: JsonModel| j.text(key) != value
}

/// The place of the first document whose member `key` is the text `value`.
pub fn find_text(v: &Vec<Json>, key: &str, value: &str) -> (r: Option<usize>)
    ensures
        match r {
            Some(i) => first_where(models(v@), text_is(key@, value@)) == Some(i as int) && i
                < v.len(),
            None => first_where(models(v@), text_is(key@, value@)) is None,
        },
{
    let ghost p = text_is(key@, value@);
    let mut i: usize = 0;
    while i < v.len()
        invariant
            i <= v.len(),
            p == text_is(key@, value@),
            first_where(models(v@), p) == first_from(models(v@), p, i as int),
        decreases v.len() - i,
    {
        if v[i].text_is(key, value) {
            return Some(i);
        }
        i = i + 1;
    }
    None
}

/// Whether the member `key` of some document is the text `value`.
pub fn any_text(v: &Vec<Json>, key: &str, value: &str) -> (r: bool)
    ensures
        r == any(models(v@), text_is(key@, value@)),
{
    proof {
        first_where_any(models(v@), text_is(key@, value@));
    }
    find_text(v, key, value).is_some()
}

/// Whether the member `key` of some document is not the text `value`.
pub fn any_text_not(v: &Vec<Json>, key: &str, value: &str) -> (r: bool)
    ensures
        r == any(models(v@), text_is_not(key@, value@)),
{
    let ghost p = text_is_not(key@, value@);
    let mut i: usize = 0;
    while i < v.len()
        invariant
            i <= v.len(),
            p == text_is_not(key@, value@),
            forall|j: int| 0 <= j < i ==> !p(#[trigger] models(v@)[j]),
        decreases v.len() - i,
    {
        if !v[i].text_is(key, value) {
            proof {
                assert(p(models(v@)[i as int]));
            }
            return true;
        }
        i = i + 1;
    }
    false
}

/// How many documents have the text `value` under `key`.
pub fn count_text(v: &Vec<Json>, key: &str, value: &str) -> (r: usize)
    ensures
        r == count(models(v@), text_is(key@, value@)),
{
    let ghost p = text_is(key@, value@);
    let ghost m = models(v@);
    let mut n: usize = 0;
    let mut i: usize = 0;
    proof {
        kept_all(m, p);
    }
    while i < v.len()
        invariant
            n <= i <= v.len(),
            m == models(v@),
            p == text_is(key@, value@),
            n == kept(m.take(i as int), p).len(),
        decreases v.len() - i,
    {
        proof {
            kept_step(m, p, i as int);
        }
        if v[i].text_is(key, value) {
            n = n + 1;
        }
        i = i + 1;
    }
    proof {
        kept_all(m, p);
    }
    n
}

/// Copies of the documents that have the text `value` under `key`.
pub fn keep_text(v: &Vec<Json>, key: &str, value: &str) -> (r: Vec<Json>)
    ensures
        models(r@) == kept(models(v@), text_is(key@, value@)),
{
    let ghost p = text_is(key@, value@);
    let ghost m = models(v@);
    let mut out: Vec<Json> = Vec::new();
    let mut i: usize = 0;
    proof {
        kept_all(m, p);
        assert(models(out@) =~= Seq::empty());
    }
    while i < v.len()
        invariant
            i <= v.len(),
            m == models(v@),
            p == text_is(key@, value@),
            models(out@) == kept(m.take(i as int), p),
        decreases v.len() - i,
    {
        proof {
            kept_step(m, p, i as int);
        }
        if v[i].text_is(key, value) {
            let ghost before = out@;
            let one: Json = v[i].copy();
            out.push(one);
            proof {
                assert(models(out@) =~= models(before).push(m[i as int]));
            }
        }
        i = i + 1;
    }
    proof {
        kept_all(m, p);
    }
    out
}

} // verus!
