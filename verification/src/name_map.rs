//! A map from names to values.
use crate::text::same_text;
use vstd::prelude::*;

verus! {

/// A map from names to values. The entries stand in the order of insertion, and no name occurs
/// twice among them.
#[derive(Debug)]
pub struct NameMap<V> {
    entries: Vec<(String, V)>,
}

impl<V> View for NameMap<V> {
    type V = Map<Seq<char>, V>;

    closed spec fn view(&self) -> Map<Seq<char>, V> {
        entries_map(self.entries@)
    }
}

impl<V: DeepView> DeepView for NameMap<V> {
    type V = Map<Seq<char>, V::V>;

    open spec fn deep_view(&self) -> Map<Seq<char>, V::V> {
        self@.map_values(|value: V| value.deep_view())
    }
}

/// Whether an entry has the given name.
spec fn names_entry<V>(entries: Seq<(String, V)>, name: Seq<char>) -> bool {
    exists|i: int| 0 <= i < entries.len() && (#[trigger] entries[i]).0@ == name
}

/// The position of an entry with the given name.
spec fn entry_index<V>(entries: Seq<(String, V)>, name: Seq<char>) -> int {
    choose|i: int| 0 <= i < entries.len() && (#[trigger] entries[i]).0@ == name
}

/// The names and values of some entries as a map.
spec fn entries_map<V>(entries: Seq<(String, V)>) -> Map<Seq<char>, V> {
    Map::new(
        |name: Seq<char>| names_entry(entries, name),
        |name: Seq<char>| entries[entry_index(entries, name)].1,
    )
}

/// No name occurs twice.
spec fn distinct_names<V>(entries: Seq<(String, V)>) -> bool {
    forall|i: int, j: int|
        #![trigger entries[i], entries[j]]
        0 <= i < j < entries.len() ==> entries[i].0@ != entries[j].0@
}

impl<V> NameMap<V> {
    #[verifier::type_invariant]
    spec fn names_are_distinct(self) -> bool {
        distinct_names(self.entries@)
    }

    /// What the map holds at the name of its `i`-th entry.
    proof fn lemma_entry(self, i: int)
        requires
            distinct_names(self.entries@),
            0 <= i < self.entries@.len(),
        ensures
            self@.contains_key(self.entries@[i].0@),
            self@[self.entries@[i].0@] == self.entries@[i].1,
    {
        let name = self.entries@[i].0@;
        let j = entry_index(self.entries@, name);
        assert(self.entries@[j].0@ == name);
        assert(i == j);
    }

    /// A map without entries.
    pub fn new() -> (map: NameMap<V>)
        ensures
            map@ == Map::<Seq<char>, V>::empty(),
    {
        let map = NameMap { entries: Vec::new() };
        assert(map@ =~= Map::<Seq<char>, V>::empty());
        map
    }

    /// The position of the entry with the given name.
    fn position(&self, name: &str) -> (found: Option<usize>)
        ensures
            match found {
                Some(i) => i < self.entries@.len() && self.entries@[i as int].0@ == name@,
                None => !self@.contains_key(name@),
            },
    {
        let n: usize = self.entries.len();
        let mut i: usize = 0;
        while i < n
            invariant
                i <= n,
                n == self.entries@.len(),
                forall|j: int| 0 <= j < i ==> (#[trigger] self.entries@[j]).0@ != name@,
            decreases n - i,
        {
            if same_text(self.entries[i].0.as_str(), name) {
                return Some(i);
            }
            i += 1;
        }
        None
    }

    /// The value held under `name`.
    pub fn get(&self, name: &str) -> (value: Option<&V>)
        ensures
            match value {
                Some(v) => self@.contains_key(name@) && *v == self@[name@],
                None => !self@.contains_key(name@),
            },
    {
        match self.position(name) {
            Some(i) => {
                proof {
                    use_type_invariant(self);
                    self.lemma_entry(i as int);
                }
                Some(&self.entries[i].1)
            },
            None => None,
        }
    }

    /// Whether a value is held under `name`.
    pub fn contains_key(&self, name: &str) -> (held: bool)
        ensures
            held == self@.contains_key(name@),
    {
        self.get(name).is_some()
    }

    /// Puts `value` under `name`, in place of what was held there.
    pub fn insert(&mut self, name: String, value: V)
        ensures
            final(self)@ == old(self)@.insert(name@, value),
    {
        proof {
            use_type_invariant(&*self);
        }
        let ghost before = *self;
        let found = self.position(name.as_str());
        let mut entries: Vec<(String, V)> = Vec::new();
        core::mem::swap(&mut self.entries, &mut entries);
        match found {
            Some(i) => {
                entries[i] = (name, value);
                assert forall|k: Seq<char>| names_entry(entries@, k) <==> names_entry(
                    before.entries@,
                    k,
                ) by {
                    if names_entry(entries@, k) {
                        let j = entry_index(entries@, k);
                        assert(before.entries@[j].0@ == k);
                    }
                    if names_entry(before.entries@, k) {
                        let j = entry_index(before.entries@, k);
                        assert(entries@[j].0@ == k);
                    }
                }
                assert forall|j: int| 0 <= j < entries@.len() implies (
                #[trigger] entries@[j]).0@ == before.entries@[j].0@ by {}
            },
            None => {
                entries.push((name, value));
                assert forall|k: Seq<char>| names_entry(entries@, k) <==> (k == name@
                    || names_entry(before.entries@, k)) by {
                    if names_entry(entries@, k) && k != name@ {
                        let j = entry_index(entries@, k);
                        assert(before.entries@[j].0@ == k);
                    }
                    if names_entry(before.entries@, k) {
                        let j = entry_index(before.entries@, k);
                        assert(entries@[j].0@ == k);
                    }
                    assert(entries@[entries@.len() - 1].0@ == name@);
                }
                assert forall|j: int| 0 <= j < before.entries@.len() implies (
                #[trigger] entries@[j]).0@ != name@ by {
                    assert(entries@[j] == before.entries@[j]);
                    before.lemma_entry(j);
                }
            },
        }
        assert(distinct_names(entries@));
        self.entries = entries;
        proof {
            assert forall|k: Seq<char>| self@.contains_key(k) implies self@[k]
                == before@.insert(name@, value)[k] by {
                let j = entry_index(self.entries@, k);
                assert(self.entries@[j].0@ == k);
                self.lemma_entry(j);
                if k != name@ {
                    assert(self.entries@[j] == before.entries@[j]);
                    before.lemma_entry(j);
                } else {
                    if let Some(i) = found {
                        assert(self.entries@[i as int].0@ == name@);
                        assert(j == i);
                    } else {
                        assert(self.entries@[self.entries@.len() - 1].0@ == name@);
                        assert(j == self.entries@.len() - 1);
                    }
                }
            }
            if let Some(i) = found {
                before.lemma_entry(i as int);
            }
            assert(self@ =~= before@.insert(name@, value));
        }
    }

    /// Takes away what is held under `name`, if anything is.
    pub fn remove(&mut self, name: &str)
        ensures
            final(self)@ == old(self)@.remove(name@),
    {
        proof {
            use_type_invariant(&*self);
        }
        let ghost before = *self;
        match self.position(name) {
            Some(i) => {
                let mut entries: Vec<(String, V)> = Vec::new();
                core::mem::swap(&mut self.entries, &mut entries);
                let removed = entries.remove(i);
                assert forall|j: int| 0 <= j < entries@.len() implies #[trigger] entries@[j]
                    == before.entries@[if j < i {
                    j
                } else {
                    j + 1
                }] by {}
                assert(distinct_names(entries@));
                self.entries = entries;
                proof {
                    before.lemma_entry(i as int);
                    assert forall|k: Seq<char>|
                        self@.contains_key(k) implies before@.remove(name@).contains_key(k)
                        && self@[k] == before@[k] by {
                        let j = entry_index(self.entries@, k);
                        assert(self.entries@[j].0@ == k);
                        self.lemma_entry(j);
                        let j0 = if j < i {
                            j
                        } else {
                            j + 1
                        };
                        assert(before.entries@[j0].0@ == k);
                        before.lemma_entry(j0);
                        assert(before.entries@[i as int].0@ == name@);
                    }
                    assert forall|k: Seq<char>|
                        before@.remove(name@).contains_key(k) implies self@.contains_key(k) by {
                        let j0 = entry_index(before.entries@, k);
                        assert(before.entries@[j0].0@ == k);
                        let j = if j0 < i {
                            j0
                        } else {
                            j0 - 1
                        };
                        assert(self.entries@[j].0@ == k);
                    }
                    assert(self@ =~= before@.remove(name@));
                }
            },
            None => {
                assert(self@ =~= before@.remove(name@));
            },
        }
    }

    /// Whether nothing is held.
    pub fn is_empty(&self) -> (empty: bool)
        ensures
            empty == (self@ == Map::<Seq<char>, V>::empty()),
    {
        let empty = self.entries.len() == 0;
        proof {
            if empty {
                assert(self@ =~= Map::<Seq<char>, V>::empty());
            } else {
                use_type_invariant(self);
                self.lemma_entry(0);
            }
        }
        empty
    }
}

impl<V: Clone> Clone for NameMap<V> {
    /// A map with the same names, each with a clone of its value.
    fn clone(&self) -> (copy: Self)
        ensures
            copy@.dom() == self@.dom(),
            forall|name: Seq<char>| #[trigger]
                self@.contains_key(name) ==> cloned(self@[name], copy@[name]),
    {
        proof {
            use_type_invariant(self);
        }
        let mut entries: Vec<(String, V)> = Vec::new();
        let n: usize = self.entries.len();
        let mut i: usize = 0;
        while i < n
            invariant
                i <= n,
                n == self.entries@.len(),
                entries@.len() == i,
                forall|j: int|
                    #![trigger entries@[j]]
                    0 <= j < i ==> entries@[j].0@ == self.entries@[j].0@ && cloned(
                        self.entries@[j].1,
                        entries@[j].1,
                    ),
            decreases n - i,
        {
            let name = self.entries[i].0.clone();
            let value = self.entries[i].1.clone();
            entries.push((name, value));
            i += 1;
        }
        assert(distinct_names(entries@)) by {
            assert forall|a: int, b: int|
                #![trigger entries@[a], entries@[b]]
                0 <= a < b < entries@.len() implies entries@[a].0@ != entries@[b].0@ by {
                assert(self.entries@[a].0@ != self.entries@[b].0@);
            }
        }
        let copy = NameMap { entries };
        proof {
            assert forall|name: Seq<char>| self@.contains_key(name) implies copy@.contains_key(name)
                && cloned(self@[name], copy@[name]) by {
                let j = entry_index(self.entries@, name);
                assert(self.entries@[j].0@ == name);
                self.lemma_entry(j);
                assert(copy.entries@[j].0@ == name);
                copy.lemma_entry(j);
            }
            assert forall|name: Seq<char>| copy@.contains_key(name) implies self@.contains_key(
                name,
            ) by {
                let j = entry_index(copy.entries@, name);
                assert(copy.entries@[j].0@ == name);
                assert(self.entries@[j].0@ == name);
            }
            assert(copy@.dom() =~= self@.dom());
        }
        copy
    }
}

/// The map that the first entries make grows by one name and value with each further entry.
proof fn lemma_next_entry<V>(entries: Seq<(String, V)>, i: int)
    requires
        distinct_names(entries),
        0 <= i < entries.len(),
    ensures
        entries_map(entries.take(i + 1)) == entries_map(entries.take(i)).insert(
            entries[i].0@,
            entries[i].1,
        ),
{
    let short = entries.take(i);
    let long = entries.take(i + 1);
    let grown = entries_map(short).insert(entries[i].0@, entries[i].1);
    assert(long[i] == entries[i]);
    assert(distinct_names(short));
    assert(distinct_names(long));
    assert forall|name: Seq<char>|
        entries_map(long).contains_key(name) <==> grown.contains_key(name) by {
        if names_entry(long, name) {
            let j = entry_index(long, name);
            assert(long[j].0@ == name);
            if j < i {
                assert(short[j].0@ == name);
            }
        }
        if names_entry(short, name) {
            let j = entry_index(short, name);
            assert(long[j].0@ == name);
        }
    }
    assert forall|name: Seq<char>| entries_map(long).contains_key(name) implies entries_map(
        long,
    )[name] == grown[name] by {
        let j = entry_index(long, name);
        assert(long[j].0@ == name);
        if name != entries[i].0@ {
            assert(short[j].0@ == name);
            let j2 = entry_index(short, name);
            assert(short[j2].0@ == name);
            assert(j == j2);
        } else {
            assert(j == i);
        }
    }
    assert(entries_map(long) =~= grown);
}

impl NameMap<String> {
    /// Puts every value of `updates` under its name, in place of what was held there.
    pub fn insert_all(&mut self, updates: &NameMap<String>)
        ensures
            final(self).deep_view() == old(self).deep_view().union_prefer_right(
                updates.deep_view(),
            ),
    {
        proof {
            use_type_invariant(updates);
        }
        let ghost before = self@;
        let n: usize = updates.entries.len();
        let mut i: usize = 0;
        assert(self@ =~= before.union_prefer_right(entries_map(updates.entries@.take(0))));
        while i < n
            invariant
                i <= n,
                n == updates.entries@.len(),
                distinct_names(updates.entries@),
                self@ == before.union_prefer_right(entries_map(updates.entries@.take(i as int))),
            decreases n - i,
        {
            let name = updates.entries[i].0.clone();
            let value = updates.entries[i].1.clone();
            proof {
                lemma_next_entry(updates.entries@, i as int);
            }
            let ghost held = self@;
            self.insert(name, value);
            assert(held.insert(name@, value) =~= before.union_prefer_right(
                entries_map(updates.entries@.take(i + 1)),
            ));
            i += 1;
        }
        proof {
            assert(updates.entries@.take(n as int) =~= updates.entries@);
            assert(self.deep_view() =~= old(self).deep_view().union_prefer_right(
                updates.deep_view(),
            ));
        }
    }

    /// Takes away what is held under each of `names`.
    pub fn remove_all(&mut self, names: &Vec<String>)
        ensures
            final(self).deep_view() == old(self).deep_view().remove_keys(
                names.deep_view().to_set(),
            ),
    {
        let ghost before = self.deep_view();
        let ghost gone = names.deep_view();
        let n: usize = names.len();
        let mut i: usize = 0;
        assert(self.deep_view() =~= before.remove_keys(gone.take(0).to_set()));
        while i < n
            invariant
                i <= n,
                n == names@.len(),
                gone == names.deep_view(),
                self.deep_view() == before.remove_keys(gone.take(i as int).to_set()),
            decreases n - i,
        {
            let ghost held = *self;
            self.remove(names[i].as_str());
            proof {
                let name = gone[i as int];
                assert(self.deep_view() =~= held.deep_view().remove(name));
                assert(gone.take(i + 1) =~= gone.take(i as int).push(name));
                let gone_so_far = gone.take(i as int).to_set();
                gone.take(i as int).lemma_push_to_set_commute(name);
                assert(before.remove_keys(gone_so_far.insert(name)) =~= before.remove_keys(
                    gone_so_far,
                ).remove(name));
            }
            i += 1;
        }
        assert(gone.take(n as int) =~= gone);
    }
}

} // verus!
