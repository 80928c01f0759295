//! Sets of texts and maps from texts.

use crate::text::{same, views};
use vstd::prelude::*;
use vstd::string::*;

verus! {

/// A set of texts.
pub struct TextSet {
    entries: Vec<String>,
}

impl View for TextSet {
    type V = Set<Seq<char>>;

    closed spec fn view(&self) -> Set<Seq<char>> {
        views(self.entries@).to_set()
    }
}

impl TextSet {
    /// No text is stored twice.
    #[verifier::type_invariant]
    spec fn wf(self) -> bool {
        views(self.entries@).no_duplicates()
    }

    pub fn new() -> (r: TextSet)
        ensures
            r@ == Set::<Seq<char>>::empty(),
    {
        let entries: Vec<String> = Vec::new();
        proof {
            assert(views(entries@) =~= Seq::empty());
        }
        let r = TextSet { entries };
        proof {
            assert(r@ =~= Set::empty());
        }
        r
    }

    pub fn has(&self, s: &str) -> (r: bool)
        ensures
            r == self@.contains(s@),
    {
        crate::text::has_text(&self.entries, s)
    }

    pub fn len(&self) -> (r: usize)
        ensures
            r == self@.len(),
            self@.finite(),
    {
        proof {
            use_type_invariant(self);
            views(self.entries@).unique_seq_to_set();
        }
        self.entries.len()
    }

    /// Puts a text in; the result says whether it is new.
    pub fn insert(&mut self, s: &str) -> (r: bool)
        ensures
            final(self)@ == old(self)@.insert(s@),
            r == !old(self)@.contains(s@),
    {
        if self.has(s) {
            proof {
                assert(self@.insert(s@) =~= self@);
            }
            return false;
        }
        proof {
            use_type_invariant(&*self);
        }
        let ghost before = views(self.entries@);
        let mut entries: Vec<String> = Vec::new();
        proof {
            assert(views(entries@) =~= Seq::empty());
        }
        std::mem::swap(&mut entries, &mut self.entries);
        entries.push(s.to_owned());
        proof {
            let after = views(entries@);
            assert(after =~= before.push(s@));
            pushed_set(before, s@);
            assert forall|i: int, j: int| 0 <= i < j < after.len() implies after[i] != after[j] by {
                if j == before.len() {
                    assert(after[i] == before[i]);
                    assert(before.contains(before[i]));
                } else {
                    assert(after[i] == before[i] && after[j] == before[j]);
                }
            }
        }
        self.entries = entries;
        true
    }

    /// Takes a text out; the result says whether it was there.
    pub fn remove(&mut self, s: &str) -> (r: bool)
        ensures
            final(self)@ == old(self)@.remove(s@),
            r == old(self)@.contains(s@),
    {
        proof {
            use_type_invariant(&*self);
        }
        let ghost before = views(self.entries@);
        let mut i: usize = 0;
        while i < self.entries.len()
            invariant
                i <= self.entries.len(),
                *self == *old(self),
                before == views(self.entries@),
                before.no_duplicates(),
                forall|j: int| 0 <= j < i ==> before[j] != s@,
            decreases self.entries.len() - i,
        {
            if same(self.entries[i].as_str(), s) {
                let mut entries: Vec<String> = Vec::new();
                proof {
                    assert(views(entries@) =~= Seq::empty());
                }
                std::mem::swap(&mut entries, &mut self.entries);
                entries.remove(i);
                proof {
                    let after = views(entries@);
                    assert(after =~= before.remove(i as int));
                    assert(before[i as int] == s@);
                    removed_set(before, i as int);
                    assert(before.contains(s@));
                }
                self.entries = entries;
                return true;
            }
            i = i + 1;
        }
        proof {
            assert(!before.contains(s@));
            assert(self@.remove(s@) =~= self@);
        }
        false
    }

    pub fn clear(&mut self)
        ensures
            final(self)@ == Set::<Seq<char>>::empty(),
    {
        *self = TextSet::new();
    }

    /// The texts of the set, each once.
    pub fn texts(&self) -> (r: &Vec<String>)
        ensures
            views(r@).no_duplicates(),
            views(r@).to_set() == self@,
    {
        proof {
            use_type_invariant(self);
        }
        &self.entries
    }

    pub fn copy(&self) -> (r: TextSet)
        ensures
            r@ == self@,
    {
        proof {
            use_type_invariant(self);
        }
        let entries: Vec<String> = crate::text::clone_texts(&self.entries);
        TextSet { entries }
    }
}

proof fn pushed_set(before: Seq<Seq<char>>, s: Seq<char>)
    ensures
        before.push(s).to_set() == before.to_set().insert(s),
{
    let after = before.push(s);
    assert forall|x: Seq<char>| before.to_set().insert(s).contains(x) implies
        after.to_set().contains(x) by {
        if x == s {
            assert(after[before.len() as int] == x);
        } else {
            let k = choose|k: int| 0 <= k < before.len() && before[k] == x;
            assert(after[k] == x);
        }
    }
    assert forall|x: Seq<char>| after.to_set().contains(x) implies before.to_set().insert(
        s,
    ).contains(x) by {
        let k = choose|k: int| 0 <= k < after.len() && after[k] == x;
        if k < before.len() {
            assert(before[k] == x);
        }
    }
    assert(after.to_set() =~= before.to_set().insert(s));
}

proof fn removed_set(before: Seq<Seq<char>>, i: int)
    requires
        0 <= i < before.len(),
        before.no_duplicates(),
    ensures
        before.remove(i).to_set() == before.to_set().remove(before[i]),
        before.remove(i).no_duplicates(),
{
    let after = before.remove(i);
    let s = before[i];
    assert forall|x: Seq<char>| before.to_set().remove(s).contains(x) implies
        after.to_set().contains(x) by {
        let k = choose|k: int| 0 <= k < before.len() && before[k] == x;
        let m = if k < i {
            k
        } else {
            k - 1
        };
        assert(after[m] == x);
    }
    assert forall|x: Seq<char>| after.to_set().contains(x) implies before.to_set().remove(
        s,
    ).contains(x) by {
        let m = choose|m: int| 0 <= m < after.len() && after[m] == x;
        let k = if m < i {
            m
        } else {
            m + 1
        };
        assert(before[k] == x);
    }
    assert(after.to_set() =~= before.to_set().remove(s));
}

/// A map from texts to values.
pub struct TextMap<V> {
    entries: Vec<(String, V)>,
}

/// The map that a list of entries stands for; of entries of one key the first
/// counts.
pub open spec fn map_of<V: View>(entries: Seq<(String, V)>) -> Map<Seq<char>, V::V>
    decreases entries.len(),
{
    if entries.len() == 0 {
        Map::empty()
    } else {
        map_of(entries.drop_first()).insert(entries[0].0@, entries[0].1@)
    }
}

impl<V: View> View for TextMap<V> {
    type V = Map<Seq<char>, V::V>;

    closed spec fn view(&self) -> Map<Seq<char>, V::V> {
        map_of(self.entries@)
    }
}

proof fn map_of_at<V: View>(entries: Seq<(String, V)>, i: int)
    requires
        0 <= i < entries.len(),
        forall|j: int| 0 <= j < i ==> (#[trigger] entries[j]).0@ != entries[i].0@,
    ensures
        map_of(entries).contains_key(entries[i].0@),
        map_of(entries)[entries[i].0@] == entries[i].1@,
    decreases entries.len(),
{
    if i > 0 {
        assert(entries[0].0@ != entries[i].0@);
        let rest = entries.drop_first();
        assert forall|j: int| 0 <= j < i - 1 implies (#[trigger] rest[j]).0@ != rest[i - 1].0@ by {
            assert(rest[j] == entries[j + 1]);
        }
        map_of_at(rest, i - 1);
    }
}

proof fn map_of_absent<V: View>(entries: Seq<(String, V)>, key: Seq<char>)
    requires
        forall|j: int| 0 <= j < entries.len() ==> (#[trigger] entries[j]).0@ != key,
    ensures
        !map_of(entries).contains_key(key),
    decreases entries.len(),
{
    if entries.len() > 0 {
        let rest = entries.drop_first();
        assert forall|j: int| 0 <= j < rest.len() implies (#[trigger] rest[j]).0@ != key by {
            assert(rest[j] == entries[j + 1]);
        }
        map_of_absent(rest, key);
    }
}

/// Setting the value of the first entry of a key sets the key.
proof fn map_of_update<V: View>(entries: Seq<(String, V)>, i: int, new: (String, V))
    requires
        0 <= i < entries.len(),
        new.0@ == entries[i].0@,
        forall|j: int| 0 <= j < i ==> (#[trigger] entries[j]).0@ != entries[i].0@,
    ensures
        map_of(entries.update(i, new)) == map_of(entries).insert(new.0@, new.1@),
    decreases entries.len(),
{
    let rest = entries.drop_first();
    if i == 0 {
        assert(entries.update(0, new).drop_first() =~= rest);
        assert(map_of(entries.update(0, new)) =~= map_of(entries).insert(new.0@, new.1@));
    } else {
        assert(entries.update(i, new).drop_first() =~= rest.update(i - 1, new));
        assert forall|j: int| 0 <= j < i - 1 implies (#[trigger] rest[j]).0@ != rest[i - 1].0@ by {
            assert(rest[j] == entries[j + 1]);
        }
        map_of_update(rest, i - 1, new);
        assert(entries[0].0@ != entries[i].0@);
        assert(map_of(entries.update(i, new)) =~= map_of(entries).insert(new.0@, new.1@));
    }
}

/// A new last entry of a new key sets the key.
proof fn map_of_push<V: View>(entries: Seq<(String, V)>, new: (String, V))
    requires
        forall|j: int| 0 <= j < entries.len() ==> (#[trigger] entries[j]).0@ != new.0@,
    ensures
        map_of(entries.push(new)) == map_of(entries).insert(new.0@, new.1@),
    decreases entries.len(),
{
    if entries.len() == 0 {
        assert(entries.push(new).drop_first() =~= Seq::<(String, V)>::empty());
        assert(map_of(Seq::<(String, V)>::empty()) =~= Map::empty());
    } else {
        let rest = entries.drop_first();
        assert(entries.push(new).drop_first() =~= rest.push(new));
        assert forall|j: int| 0 <= j < rest.len() implies (#[trigger] rest[j]).0@ != new.0@ by {
            assert(rest[j] == entries[j + 1]);
        }
        map_of_push(rest, new);
        assert(entries[0].0@ != new.0@);
        assert(map_of(entries.push(new)) =~= map_of(entries).insert(new.0@, new.1@));
    }
}

/// The keys of the map are those of the entries.
proof fn map_of_keys<V: View>(entries: Seq<(String, V)>, key: Seq<char>)
    ensures
        map_of(entries).contains_key(key) <==> exists|j: int|
            0 <= j < entries.len() && (#[trigger] entries[j]).0@ == key,
    decreases entries.len(),
{
    if entries.len() > 0 {
        let rest = entries.drop_first();
        map_of_keys(rest, key);
        if exists|j: int| 0 <= j < rest.len() && (#[trigger] rest[j]).0@ == key {
            let j = choose|j: int| 0 <= j < rest.len() && (#[trigger] rest[j]).0@ == key;
            assert(entries[j + 1] == rest[j]);
        }
        if exists|j: int| 0 <= j < entries.len() && (#[trigger] entries[j]).0@ == key {
            let j = choose|j: int| 0 <= j < entries.len() && (#[trigger] entries[j]).0@ == key;
            if j > 0 {
                assert(rest[j - 1] == entries[j]);
            }
        }
    }
}

impl<V: View> TextMap<V> {
    pub fn new() -> (r: TextMap<V>)
        ensures
            r@ == Map::<Seq<char>, V::V>::empty(),
    {
        TextMap { entries: Vec::new() }
    }

    pub fn get(&self, key: &str) -> (r: Option<&V>)
        ensures
            match r {
                Some(v) => self@.contains_key(key@) && self@[key@] == v@,
                None => !self@.contains_key(key@),
            },
    {
        let mut i: usize = 0;
        while i < self.entries.len()
            invariant
                i <= self.entries.len(),
                forall|j: int| 0 <= j < i ==> (#[trigger] self.entries@[j]).0@ != key@,
            decreases self.entries.len() - i,
        {
            if same(self.entries[i].0.as_str(), key) {
                proof {
                    map_of_at(self.entries@, i as int);
                }
                return Some(&self.entries[i].1);
            }
            i = i + 1;
        }
        proof {
            map_of_absent(self.entries@, key@);
        }
        None
    }

    pub fn has(&self, key: &str) -> (r: bool)
        ensures
            r == self@.contains_key(key@),
    {
        self.get(key).is_some()
    }

    pub fn insert(&mut self, key: &str, value: V)
        ensures
            final(self)@ == old(self)@.insert(key@, value@),
    {
        let mut i: usize = 0;
        while i < self.entries.len()
            invariant
                i <= self.entries.len(),
                *self == *old(self),
                forall|j: int| 0 <= j < i ==> (#[trigger] self.entries@[j]).0@ != key@,
            decreases self.entries.len() - i,
        {
            if same(self.entries[i].0.as_str(), key) {
                let ghost before = self.entries@;
                let new: (String, V) = (key.to_owned(), value);
                proof {
                    map_of_update(before, i as int, new);
                }
                self.entries.set(i, new);
                return ;
            }
            i = i + 1;
        }
        let new: (String, V) = (key.to_owned(), value);
        proof {
            map_of_push(self.entries@, new);
        }
        self.entries.push(new);
    }

    pub fn clear(&mut self)
        ensures
            final(self)@ == Map::<Seq<char>, V::V>::empty(),
    {
        *self = TextMap::new();
    }

    /// The keys of the map.
    pub fn keys(&self) -> (r: Vec<String>)
        ensures
            forall|k: Seq<char>| views(r@).contains(k) <==> #[trigger] self@.contains_key(k),
    {
        let mut out: Vec<String> = Vec::new();
        let mut i: usize = 0;
        while i < self.entries.len()
            invariant
                i <= self.entries.len(),
                out@.len() == i,
                forall|j: int| 0 <= j < i ==> (#[trigger] out@[j])@ == self.entries@[j].0@,
            decreases self.entries.len() - i,
        {
            out.push(self.entries[i].0.clone());
            i = i + 1;
        }
        proof {
            assert forall|k: Seq<char>|
                views(out@).contains(k) <==> #[trigger] self@.contains_key(k) by {
                map_of_keys(self.entries@, k);
                if views(out@).contains(k) {
                    let j = choose|j: int| 0 <= j < views(out@).len() && views(out@)[j] == k;
                    assert(out@[j]@ == k);
                    assert(self.entries@[j].0@ == k);
                }
                if self@.contains_key(k) {
                    let j = choose|j: int|
                        0 <= j < self.entries@.len() && (#[trigger] self.entries@[j]).0@ == k;
                    assert(out@[j]@ == k);
                    assert(views(out@)[j] == k);
                }
            }
        }
        out
    }
}

} // verus!
