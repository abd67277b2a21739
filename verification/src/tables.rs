//! Tables: values under names, and the keys of a table of numbers.
use vstd::prelude::*;
use std::collections::{HashMap, HashSet};
use vstd::std_specs::iter::IteratorSpec;
use crate::text::same_text;

verus! {

broadcast use vstd::std_specs::hash::group_hash_axioms;

/// Values under names. Each name stands for at most one value.
pub struct NameTable<V> {
    entries: Vec<(String, V)>,
}

/// Position of the first entry under a name; the length without one.
pub open spec fn first_named<V>(s: Seq<(String, V)>, name: Seq<char>) -> int
    decreases s.len(),
{
    if s.len() == 0 {
        0
    } else if s[0].0@ == name {
        0
    } else {
        1 + first_named(s.skip(1), name)
    }
}

proof fn first_named_props<V>(s: Seq<(String, V)>, name: Seq<char>)
    ensures
        0 <= first_named(s, name) <= s.len(),
        forall|i: int| 0 <= i < first_named(s, name) ==> (#[trigger] s[i]).0@ != name,
        first_named(s, name) < s.len() ==> s[first_named(s, name)].0@ == name,
    decreases s.len(),
{
    if s.len() > 0 && s[0].0@ != name {
        let t = s.skip(1);
        first_named_props(t, name);
        assert forall|i: int| 0 <= i < first_named(s, name) implies (#[trigger] s[i]).0@ != name by {
            if i > 0 {
                assert(t[i - 1] == s[i]);
            }
        }
    }
}

proof fn first_named_is<V>(s: Seq<(String, V)>, name: Seq<char>, k: int)
    requires
        0 <= k <= s.len(),
        forall|i: int| 0 <= i < k ==> (#[trigger] s[i]).0@ != name,
        k < s.len() ==> s[k].0@ == name,
    ensures
        first_named(s, name) == k,
{
    first_named_props(s, name);
    let f = first_named(s, name);
    if f < k {
        assert(s[f].0@ != name);
    } else if k < f {
        assert(s[k].0@ != name);
    }
}

impl<V> NameTable<V> {
    #[verifier::type_invariant]
    spec fn names_differ(self) -> bool {
        forall|i: int, j: int|
            0 <= i < j < self.entries@.len() ==> self.entries@[i].0@ != self.entries@[j].0@
    }

    /// The table as a map from names to values.
    pub closed spec fn view(&self) -> Map<Seq<char>, V> {
        Map::new(
            |name: Seq<char>| first_named(self.entries@, name) < self.entries@.len(),
            |name: Seq<char>| self.entries@[first_named(self.entries@, name)].1,
        )
    }

    /// A table without entries.
    pub fn new() -> (r: NameTable<V>)
        ensures
            r@ == Map::<Seq<char>, V>::empty(),
    {
        let r = NameTable { entries: Vec::new() };
        assert(r@ =~= Map::<Seq<char>, V>::empty());
        r
    }

    fn position(&self, name: &str) -> (r: usize)
        ensures
            r == first_named(self.entries@, name@),
            r <= self.entries@.len(),
    {
        let mut i: usize = 0;
        while i < self.entries.len() && !same_text(self.entries[i].0.as_str(), name)
            invariant
                i <= self.entries@.len(),
                forall|j: int| 0 <= j < i ==> (#[trigger] self.entries@[j]).0@ != name@,
            decreases self.entries@.len() - i,
        {
            i += 1;
        }
        proof {
            first_named_is(self.entries@, name@, i as int);
        }
        i
    }

    /// The value under a name.
    pub fn get(&self, name: &str) -> (r: Option<&V>)
        ensures
            match r {
                Some(v) => self@.contains_key(name@) && *v == self@[name@],
                None => !self@.contains_key(name@),
            },
    {
        let i: usize = self.position(name);
        if i < self.entries.len() {
            Some(&self.entries[i].1)
        } else {
            None
        }
    }

    /// Puts a value under a name, in place of the one that was there.
    pub fn insert(&mut self, name: String, value: V)
        ensures
            final(self)@ == old(self)@.insert(name@, value),
    {
        let i: usize = self.position(name.as_str());
        let ghost before = self.entries@;
        let ghost key = name@;
        proof {
            use_type_invariant(&*self);
            first_named_props(before, key);
        }
        let mut taken = NameTable { entries: Vec::new() };
        std::mem::swap(self, &mut taken);
        let mut entries = taken.entries;
        if i < entries.len() {
            entries.set(i, (name, value));
        } else {
            entries.push((name, value));
        }
        assert(forall|j: int, k: int|
            0 <= j < k < entries@.len() ==> entries@[j].0@ != entries@[k].0@);
        *self = NameTable { entries };
        proof {
            let after = self.entries@;
            first_named_props(before, key);
            assert forall|k: Seq<char>|
                (first_named(after, k) < after.len()) == (k == key || first_named(before, k)
                    < before.len()) && (k != key && first_named(before, k) < before.len()
                    ==> after[first_named(after, k)].1 == before[first_named(before, k)].1) && (k
                    == key ==> after[first_named(after, k)].1 == value) by {
                first_named_props(before, k);
                if k == key {
                    assert forall|j: int| 0 <= j < i implies (#[trigger] after[j]).0@ != k by {
                        assert(after[j] == before[j]);
                    }
                    first_named_is(after, k, i as int);
                } else {
                    let f = first_named(before, k);
                    assert forall|j: int| 0 <= j < f implies (#[trigger] after[j]).0@ != k by {
                        assert(before[j].0@ != k);
                    }
                    if f < before.len() {
                        assert(before[f].0@ == k);
                        assert(f != i);
                        assert(after[f] == before[f]);
                        first_named_is(after, k, f);
                    } else {
                        assert forall|j: int| 0 <= j < after.len() implies (#[trigger] after[j]).0@ != k by {
                        }
                        first_named_is(after, k, after.len() as int);
                    }
                }
            }
            assert(self@ =~= old(self)@.insert(key, value));
        }
    }

    /// Takes the value under a name out of the table.
    pub fn remove(&mut self, name: &str) -> (r: Option<V>)
        ensures
            final(self)@ == old(self)@.remove(name@),
            match r {
                Some(v) => old(self)@.contains_key(name@) && v == old(self)@[name@],
                None => !old(self)@.contains_key(name@),
            },
    {
        let i: usize = self.position(name);
        let ghost before = self.entries@;
        let ghost key = name@;
        proof {
            use_type_invariant(&*self);
            first_named_props(before, key);
        }
        if i >= self.entries.len() {
            assert(self@ =~= old(self)@.remove(key));
            return None;
        }
        let mut taken = NameTable { entries: Vec::new() };
        std::mem::swap(self, &mut taken);
        let mut entries = taken.entries;
        let pair = entries.remove(i);
        assert(forall|j: int, k: int|
            0 <= j < k < entries@.len() ==> entries@[j].0@ != entries@[k].0@);
        *self = NameTable { entries };
        proof {
            let after = self.entries@;
            assert forall|k: Seq<char>|
                (first_named(after, k) < after.len()) == (k != key && first_named(before, k)
                    < before.len()) && (k != key && first_named(before, k) < before.len()
                    ==> after[first_named(after, k)].1 == before[first_named(before, k)].1) by {
                first_named_props(before, k);
                let f = first_named(before, k);
                if k == key || f == before.len() {
                    assert forall|j: int| 0 <= j < after.len() implies (#[trigger] after[j]).0@ != k by {
                        if j < i {
                            assert(after[j] == before[j]);
                        } else {
                            assert(after[j] == before[j + 1]);
                        }
                    }
                    first_named_is(after, k, after.len() as int);
                } else {
                    let g = if f < i {
                        f
                    } else {
                        f - 1
                    };
                    assert(f != i);
                    assert(after[g] == before[f]);
                    assert forall|j: int| 0 <= j < g implies (#[trigger] after[j]).0@ != k by {
                        if j < i {
                            assert(after[j] == before[j]);
                        } else {
                            assert(after[j] == before[j + 1]);
                        }
                    }
                    first_named_is(after, k, g);
                }
            }
            assert(self@ =~= old(self)@.remove(key));
        }
        Some(pair.1)
    }

    /// The names in the order in which the table is walked.
    pub closed spec fn names(&self) -> Seq<Seq<char>> {
        self.entries@.map_values(|e: (String, V)| e.0@)
    }

    /// Number of entries. The names in walking order are all names, each once.
    pub fn len(&self) -> (r: usize)
        ensures
            r == self.names().len(),
            self.names().no_duplicates(),
            forall|name: Seq<char>|
                self.names().contains(name) <==> #[trigger] self@.contains_key(name),
    {
        proof {
            use_type_invariant(self);
            assert forall|name: Seq<char>|
                self.names().contains(name) <==> #[trigger] self@.contains_key(name) by {
                first_named_props(self.entries@, name);
                if self@.contains_key(name) {
                    let f = first_named(self.entries@, name);
                    assert(self.names()[f] == name);
                }
                if self.names().contains(name) {
                    let i = self.names().index_of(name);
                    assert(self.entries@[i].0@ == name);
                }
            }
        }
        self.entries.len()
    }

    /// The entry at a position, for walking the table.
    pub fn entry(&self, i: usize) -> (r: Option<(&str, &V)>)
        ensures
            match r {
                Some((name, value)) => i < self.names().len() && name@ == self.names()[i as int]
                    && self@.contains_key(name@) && self@[name@] == *value,
                None => i >= self.names().len(),
            },
    {
        if i < self.entries.len() {
            let e = &self.entries[i];
            proof {
                use_type_invariant(self);
                first_named_props(self.entries@, e.0@);
                let f = first_named(self.entries@, e.0@);
                if f > i {
                    assert(self.entries@[i as int].0@ != e.0@);
                }
            }
            Some((e.0.as_str(), &e.1))
        } else {
            None
        }
    }
}

/// Keys of a table, each once, in no particular order.
pub fn keys_of<V>(m: &HashMap<u64, V>) -> (r: Vec<u64>)
    ensures
        r@.no_duplicates(),
        forall|k: u64| r@.contains(k) <==> m@.contains_key(k),
{
    let mut r: Vec<u64> = Vec::new();
    let keys = m.keys();
    let ghost all = keys.remaining();
    for k in it: keys
        invariant
            it.seq() == all,
            r@.len() == it.index(),
            forall|i: int| 0 <= i < r@.len() ==> r@[i] == *all[i],
    {
        r.push(*k);
    }
    proof {
        assert(r@ =~= all.unref());
        assert forall|k: u64| r@.contains(k) <==> m@.contains_key(k) by {
            assert(all.unref().to_set().contains(k) <==> m@.dom().contains(k));
        }
        assert forall|i: int, j: int| 0 <= i < r@.len() && 0 <= j < r@.len() && i != j implies r@[i]
            != r@[j] by {
            assert(all[i] != all[j]);
        }
    }
    r
}

/// The numbers of a list as a set.
pub fn set_of(ids: &Vec<u64>) -> (r: HashSet<u64>)
    ensures
        r@ == ids@.to_set(),
        forall|id: u64| r@.contains(id) <==> ids@.contains(id),
{
    let mut r: HashSet<u64> = HashSet::new();
    let mut i: usize = 0;
    assert(ids@.take(0).to_set() =~= Set::<u64>::empty());
    while i < ids.len()
        invariant
            i <= ids@.len(),
            r@ =~= ids@.take(i as int).to_set(),
        decreases ids@.len() - i,
    {
        proof {
            let a = ids@.take(i as int);
            let b = ids@.take(i as int + 1);
            assert(b =~= a.push(ids@[i as int]));
            assert forall|x: u64| b.to_set().contains(x) <==> a.to_set().contains(x) || x
                == ids@[i as int] by {
                if a.contains(x) {
                    assert(b[a.index_of(x)] == x);
                }
                if x == ids@[i as int] {
                    assert(b[i as int] == x);
                }
                if b.contains(x) {
                    let j = b.index_of(x);
                    if j < i {
                        assert(a[j] == x);
                    }
                }
            }
        }
        r.insert(ids[i]);
        i += 1;
    }
    assert(ids@.take(ids@.len() as int) =~= ids@);
    r
}

} // verus!
