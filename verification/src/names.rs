//! Maps from names to values.

use crate::text::basic::same;
use vstd::prelude::*;

verus! {

/// A map from names to values. Every name occurs once.
pub struct NameMap<V> {
    entries: Vec<(String, V)>,
}

/// The names of `entries` are all different.
spec fn distinct<V>(entries: Seq<(String, V)>) -> bool {
    forall|i: int, j: int|
        0 <= i < j < entries.len() ==> (#[trigger] entries[i]).0@ != (#[trigger] entries[j]).0@
}

/// The map that `entries` hold.
spec fn as_map<V>(entries: Seq<(String, V)>) -> Map<Seq<char>, V>
    decreases entries.len(),
{
    if entries.len() == 0 {
        Map::empty()
    } else {
        as_map(entries.drop_last()).insert(entries.last().0@, entries.last().1)
    }
}

proof fn lemma_as_map<V>(entries: Seq<(String, V)>)
    requires
        distinct(entries),
    ensures
        forall|k: Seq<char>|
            as_map(entries).dom().contains(k) <==> exists|i: int|
                0 <= i < entries.len() && (#[trigger] entries[i]).0@ == k,
        forall|i: int|
            0 <= i < entries.len() ==> as_map(entries)[(#[trigger] entries[i]).0@]
                == entries[i].1,
    decreases entries.len(),
{
    if entries.len() > 0 {
        let front = entries.drop_last();
        assert(distinct(front)) by {
            assert forall|i: int, j: int| 0 <= i < j < front.len() implies (#[trigger] front[i]).0@
                != (#[trigger] front[j]).0@ by {
                assert(entries[i].0@ != entries[j].0@);
            }
        }
        lemma_as_map(front);
        let n = entries.len() - 1;
        assert forall|k: Seq<char>|
            as_map(entries).dom().contains(k) <==> exists|i: int|
                0 <= i < entries.len() && (#[trigger] entries[i]).0@ == k by {
            if as_map(entries).dom().contains(k) {
                if k == entries.last().0@ {
                    assert(entries[n].0@ == k);
                } else {
                    assert(as_map(front).dom().contains(k));
                    let i = choose|i: int| 0 <= i < front.len() && (#[trigger] front[i]).0@ == k;
                    assert(front[i] == entries[i]);
                    assert(entries[i].0@ == k);
                }
            }
            if exists|i: int| 0 <= i < entries.len() && (#[trigger] entries[i]).0@ == k {
                let i = choose|i: int| 0 <= i < entries.len() && (#[trigger] entries[i]).0@ == k;
                if i < n {
                    assert(front[i] == entries[i]);
                    assert(as_map(front).dom().contains(k));
                }
            }
        }
        assert forall|i: int| 0 <= i < entries.len() implies as_map(entries)[(
        #[trigger] entries[i]).0@] == entries[i].1 by {
            if i < n {
                assert(front[i] == entries[i]);
                assert(entries[i].0@ != entries[n].0@);
            }
        }
    }
}

impl<V> View for NameMap<V> {
    type V = Map<Seq<char>, V>;

    closed spec fn view(&self) -> Map<Seq<char>, V> {
        as_map(self.entries@)
    }
}

impl<V: DeepView> DeepView for NameMap<V> {
    type V = Map<Seq<char>, V::V>;

    open spec fn deep_view(&self) -> Map<Seq<char>, V::V> {
        self@.map_values(|v: V| v.deep_view())
    }
}

impl<V> NameMap<V> {
    #[verifier::type_invariant]
    spec fn names_differ(self) -> bool {
        distinct(self.entries@)
    }

    /// The empty map.
    pub fn new() -> (r: Self)
        ensures
            r@ == Map::<Seq<char>, V>::empty(),
    {
        NameMap { entries: Vec::new() }
    }

    fn position(&self, name: &str) -> (r: Option<usize>)
        ensures
            match r {
                Some(i) => i < self.entries.len() && self.entries[i as int].0@ == name@,
                None => forall|i: int|
                    0 <= i < self.entries.len() ==> (#[trigger] self.entries[i]).0@ != name@,
            },
    {
        let mut i: usize = 0;
        while i < self.entries.len()
            invariant
                i <= self.entries.len(),
                forall|j: int| 0 <= j < i ==> (#[trigger] self.entries[j]).0@ != name@,
            decreases self.entries.len() - i,
        {
            if same(&self.entries[i].0, name) {
                return Some(i);
            }
            i += 1;
        }
        None
    }

    /// The value of `name`.
    pub fn get(&self, name: &str) -> (r: Option<&V>)
        ensures
            match r {
                Some(v) => self@.dom().contains(name@) && *v == self@[name@],
                None => !self@.dom().contains(name@),
            },
    {
        proof {
            use_type_invariant(self);
            lemma_as_map(self.entries@);
        }
        match self.position(name) {
            Some(i) => Some(&self.entries[i].1),
            None => None,
        }
    }

    /// Whether `name` has a value.
    pub fn contains_key(&self, name: &str) -> (r: bool)
        ensures
            r == self@.dom().contains(name@),
    {
        match self.get(name) {
            Some(_) => true,
            None => false,
        }
    }

    /// Gives `name` the value `value`, in place of the one it had.
    pub fn insert(&mut self, name: String, value: V)
        ensures
            final(self)@ == old(self)@.insert(name@, value),
    {
        proof {
            use_type_invariant(&*self);
            lemma_as_map(self.entries@);
        }
        let at = self.position(&name);
        let ghost before = self.entries@;
        let mut entries: Vec<(String, V)> = Vec::new();
        std::mem::swap(&mut entries, &mut self.entries);
        let ghost key = name@;
        match at {
            Some(i) => {
                entries.set(i, (name, value));
                assert(distinct(entries@)) by {
                    assert forall|a: int, b: int| 0 <= a < b < entries@.len() implies (
                    #[trigger] entries@[a]).0@ != (#[trigger] entries@[b]).0@ by {
                        assert(before[a].0@ != before[b].0@);
                    }
                }
                proof {
                    lemma_as_map(entries@);
                    assert forall|k: Seq<char>|
                        as_map(entries@).dom().contains(k) == as_map(before).insert(
                            key,
                            value,
                        ).dom().contains(k) by {
                        if as_map(entries@).dom().contains(k) {
                            let j = choose|j: int|
                                0 <= j < entries@.len() && (#[trigger] entries@[j]).0@ == k;
                            assert(before[j].0@ == k);
                        }
                        if as_map(before).dom().contains(k) {
                            let j = choose|j: int|
                                0 <= j < before.len() && (#[trigger] before[j]).0@ == k;
                            assert(entries@[j].0@ == k);
                        }
                        if k == key {
                            assert(entries@[i as int].0@ == k);
                        }
                    }
                    assert forall|k: Seq<char>| as_map(entries@).dom().contains(k) implies as_map(
                        entries@,
                    )[k] == as_map(before).insert(key, value)[k] by {
                        let j = choose|j: int|
                            0 <= j < entries@.len() && (#[trigger] entries@[j]).0@ == k;
                        if j == i {
                            assert(entries@[i as int].0@ == key);
                        } else {
                            assert(before[j] == entries@[j]);
                            if i < j {
                                assert(before[i as int].0@ != before[j].0@);
                            } else {
                                assert(before[j].0@ != before[i as int].0@);
                            }
                        }
                    }
                    assert(as_map(entries@) =~= as_map(before).insert(key, value));
                }
            },
            None => {
                entries.push((name, value));
                assert(entries@.drop_last() == before);
                assert(distinct(entries@)) by {
                    assert forall|a: int, b: int| 0 <= a < b < entries@.len() implies (
                    #[trigger] entries@[a]).0@ != (#[trigger] entries@[b]).0@ by {
                        assert(entries@[a] == before[a]);
                        if b < before.len() {
                            assert(entries@[b] == before[b]);
                        }
                    }
                }
            },
        }
        self.entries = entries;
    }

    /// Takes `name` and its value out of the map, and says whether it was there.
    pub fn remove(&mut self, name: &str) -> (r: bool)
        ensures
            r == old(self)@.dom().contains(name@),
            final(self)@ == old(self)@.remove(name@),
    {
        proof {
            use_type_invariant(&*self);
            lemma_as_map(self.entries@);
        }
        let at = self.position(name);
        let ghost before = self.entries@;
        let mut entries: Vec<(String, V)> = Vec::new();
        std::mem::swap(&mut entries, &mut self.entries);
        let r = match at {
            Some(i) => {
                let taken = entries.remove(i);
                assert(distinct(entries@)) by {
                    assert forall|a: int, b: int| 0 <= a < b < entries@.len() implies (
                    #[trigger] entries@[a]).0@ != (#[trigger] entries@[b]).0@ by {
                        let a2 = if a < i {
                            a
                        } else {
                            a + 1
                        };
                        let b2 = if b < i {
                            b
                        } else {
                            b + 1
                        };
                        assert(before[a2].0@ != before[b2].0@);
                    }
                }
                proof {
                    lemma_as_map(entries@);
                    assert forall|k: Seq<char>|
                        as_map(entries@).dom().contains(k) == as_map(before).remove(
                            name@,
                        ).dom().contains(k) by {
                        if as_map(entries@).dom().contains(k) {
                            let j = choose|j: int|
                                0 <= j < entries@.len() && (#[trigger] entries@[j]).0@ == k;
                            let j2 = if j < i {
                                j
                            } else {
                                j + 1
                            };
                            assert(before[j2].0@ == k);
                            if i < j2 {
                                assert(before[i as int].0@ != before[j2].0@);
                            } else {
                                assert(before[j2].0@ != before[i as int].0@);
                            }
                        }
                        if as_map(before).dom().contains(k) && k != name@ {
                            let j = choose|j: int|
                                0 <= j < before.len() && (#[trigger] before[j]).0@ == k;
                            let j2 = if j < i {
                                j
                            } else {
                                j - 1
                            };
                            assert(entries@[j2].0@ == k);
                        }
                    }
                    assert forall|k: Seq<char>| as_map(entries@).dom().contains(k) implies as_map(
                        entries@,
                    )[k] == as_map(before).remove(name@)[k] by {
                        let j = choose|j: int|
                            0 <= j < entries@.len() && (#[trigger] entries@[j]).0@ == k;
                        let j2 = if j < i {
                            j
                        } else {
                            j + 1
                        };
                        assert(before[j2] == entries@[j]);
                    }
                    assert(as_map(entries@) =~= as_map(before).remove(name@));
                }
                true
            },
            None => {
                assert(as_map(before) =~= as_map(before).remove(name@));
                false
            },
        };
        self.entries = entries;
        r
    }

    /// The names of the map, each once.
    pub fn names(&self) -> (r: Vec<String>)
        ensures
            r.deep_view().no_duplicates(),
            forall|k: Seq<char>| #[trigger] r.deep_view().contains(k) <==> self@.dom().contains(k),
    {
        proof {
            use_type_invariant(self);
            lemma_as_map(self.entries@);
        }
        let mut r: Vec<String> = Vec::new();
        let mut i: usize = 0;
        while i < self.entries.len()
            invariant
                i <= self.entries.len(),
                r.len() == i,
                forall|j: int| 0 <= j < i ==> #[trigger] r.deep_view()[j] == self.entries[j].0@,
            decreases self.entries.len() - i,
        {
            let ghost before = r.deep_view();
            r.push(self.entries[i].0.clone());
            assert(r.deep_view() == before.push(self.entries[i as int].0@));
            i += 1;
        }
        proof {
            assert forall|k: Seq<char>| #[trigger]
                r.deep_view().contains(k) <==> self@.dom().contains(k) by {
                if r.deep_view().contains(k) {
                    let j = choose|j: int| 0 <= j < r.deep_view().len() && r.deep_view()[j] == k;
                    assert(self.entries[j].0@ == k);
                }
                if self@.dom().contains(k) {
                    let j = choose|j: int|
                        0 <= j < self.entries@.len() && (#[trigger] self.entries@[j]).0@ == k;
                    assert(r.deep_view()[j] == k);
                }
            }
            assert forall|a: int, b: int|
                0 <= a < b < r.deep_view().len() implies r.deep_view()[a] != r.deep_view()[b] by {
                assert(self.entries@[a].0@ != self.entries@[b].0@);
            }
        }
        r
    }

    /// Whether the map has no name.
    pub fn is_empty(&self) -> (r: bool)
        ensures
            r == (self@ == Map::<Seq<char>, V>::empty()),
    {
        proof {
            use_type_invariant(self);
            lemma_as_map(self.entries@);
        }
        if self.entries.len() == 0 {
            true
        } else {
            assert(self@.dom().contains(self.entries@[0].0@));
            false
        }
    }
}

} // verus!
