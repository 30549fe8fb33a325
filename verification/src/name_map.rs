//! Maps from names, kept in the order of the names.

use crate::text::{
    lemma_precedes_irreflexive, lemma_precedes_transitive, place_of, precedes, Place,
};
use vstd::prelude::*;

verus! {

/// The entry of a name among name-and-value pairs, where there is one.
pub open spec fn entry_of<V>(pairs: Seq<(Seq<char>, V)>, name: Seq<char>) -> Option<V> {
    if exists|i: int| 0 <= i < pairs.len() && pairs[i].0 == name {
        Some(pairs[choose|i: int| 0 <= i < pairs.len() && pairs[i].0 == name].1)
    } else {
        None
    }
}

/// Whether the names of the pairs stand in the strict order of strings, so
/// that none occurs twice.
pub open spec fn in_order<V>(pairs: Seq<(Seq<char>, V)>) -> bool {
    forall|i: int, j: int| 0 <= i < j < pairs.len() ==> precedes(pairs[i].0, pairs[j].0)
}

/// The map that pairs in order stand for.
pub open spec fn map_of<V>(pairs: Seq<(Seq<char>, V)>) -> Map<Seq<char>, V> {
    Map::new(
        |name: Seq<char>| entry_of(pairs, name) is Some,
        |name: Seq<char>| entry_of(pairs, name)->0,
    )
}

/// Among pairs in order, the entry of the name that stands at a place is the
/// value that stands there.
pub proof fn lemma_entry_at<V>(pairs: Seq<(Seq<char>, V)>, i: int)
    requires
        in_order(pairs),
        0 <= i < pairs.len(),
    ensures
        entry_of(pairs, pairs[i].0) == Some(pairs[i].1),
{
    let j = choose|j: int| 0 <= j < pairs.len() && pairs[j].0 == pairs[i].0;
    if j < i {
        lemma_precedes_irreflexive(pairs[j].0, pairs[i].0);
    }
    if i < j {
        lemma_precedes_irreflexive(pairs[i].0, pairs[j].0);
    }
}

/// A map from names. As a mathematical value, the map itself; the entries are
/// kept in the order of their names, which is the order in which they are
/// handed out.
#[derive(Debug)]
pub struct NameMap<V> {
    entries: Vec<(String, V)>,
}

impl<V> View for NameMap<V> {
    type V = Map<Seq<char>, V>;

    open spec fn view(&self) -> Map<Seq<char>, V> {
        map_of(self.pairs())
    }
}

impl<V> NameMap<V> {
    /// The entries, each with its name, in the order of the names.
    pub closed spec fn pairs(&self) -> Seq<(Seq<char>, V)> {
        self.entries@.map_values(|e: (String, V)| (e.0@, e.1))
    }

    #[verifier::type_invariant]
    spec fn ordered(&self) -> bool {
        in_order(self.pairs())
    }

    /// A table without any entry.
    pub fn new() -> (table: NameMap<V>)
        ensures
            table.pairs() == Seq::<(Seq<char>, V)>::empty(),
            table@ == Map::<Seq<char>, V>::empty(),
    {
        let table = NameMap { entries: Vec::new() };
        assert(table.pairs() =~= Seq::<(Seq<char>, V)>::empty());
        assert(table@ =~= Map::<Seq<char>, V>::empty());
        table
    }

    /// How many names have an entry. The entries stand in the order of their
    /// names.
    pub fn len(&self) -> (n: usize)
        ensures
            n == self.pairs().len(),
            in_order(self.pairs()),
    {
        proof {
            use_type_invariant(self);
        }
        self.entries.len()
    }

    /// Whether no name has an entry.
    pub fn is_empty(&self) -> (empty: bool)
        ensures
            empty == (self.pairs().len() == 0),
    {
        self.entries.len() == 0
    }

    /// The name of the entry at a place in the order of names.
    pub fn key_at(&self, i: usize) -> (name: &str)
        requires
            i < self.pairs().len(),
        ensures
            name@ == self.pairs()[i as int].0,
    {
        self.entries[i].0.as_str()
    }

    /// The value of the entry at a place in the order of names.
    pub fn value_at(&self, i: usize) -> (value: &V)
        requires
            i < self.pairs().len(),
        ensures
            *value == self.pairs()[i as int].1,
    {
        &self.entries[i].1
    }

    /// Puts a value in place of the one at a place in the order of names,
    /// and returns the one that stood there. The name at the place stays.
    pub fn replace_value_at(&mut self, i: usize, value: V) -> (before: V)
        requires
            i < old(self).pairs().len(),
        ensures
            final(self).pairs() == old(self).pairs().update(
                i as int,
                (old(self).pairs()[i as int].0, value),
            ),
            before == old(self).pairs()[i as int].1,
            in_order(final(self).pairs()),
    {
        proof {
            use_type_invariant(&*self);
        }
        let ghost pairs = self.pairs();
        let mut entries: Vec<(String, V)> = Vec::new();
        std::mem::swap(&mut self.entries, &mut entries);
        let mut held = value;
        std::mem::swap(&mut entries[i].1, &mut held);
        proof {
            let after = entries@.map_values(|e: (String, V)| (e.0@, e.1));
            assert(after =~= pairs.update(i as int, (pairs[i as int].0, value)));
            lemma_entries_after_update(pairs, i as int, value, pairs[i as int].0);
        }
        self.entries = entries;
        held
    }

    /// The first place whose name does not come before the given name, and
    /// whether that place holds the name itself.
    fn find(&self, name: &str) -> (at: (usize, bool))
        ensures
            at.0 <= self.pairs().len(),
            forall|j: int| 0 <= j < at.0 ==> precedes(#[trigger] self.pairs()[j].0, name@),
            at.1 ==> at.0 < self.pairs().len() && self.pairs()[at.0 as int].0 == name@,
            !at.1 ==> forall|j: int|
                at.0 <= j < self.pairs().len() ==> precedes(name@, #[trigger] self.pairs()[j].0),
    {
        proof {
            use_type_invariant(self);
        }
        let mut i: usize = 0;
        while i < self.entries.len()
            invariant
                i <= self.pairs().len(),
                self.pairs().len() == self.entries@.len(),
                in_order(self.pairs()),
                forall|j: int| 0 <= j < i ==> precedes(#[trigger] self.pairs()[j].0, name@),
            decreases self.entries@.len() - i,
        {
            match place_of(self.entries[i].0.as_str(), name) {
                Place::Before => {},
                Place::Same => {
                    return (i, true);
                },
                Place::After => {
                    proof {
                        assert forall|j: int| i <= j < self.pairs().len() implies precedes(
                            name@,
                            #[trigger] self.pairs()[j].0,
                        ) by {
                            if i < j {
                                lemma_precedes_transitive(
                                    name@,
                                    self.pairs()[i as int].0,
                                    self.pairs()[j].0,
                                );
                            }
                        }
                    }
                    return (i, false);
                },
            }
            i += 1;
        }
        (i, false)
    }

    /// What is recorded of a name.
    pub fn get(&self, name: &str) -> (found: Option<&V>)
        ensures
            found is Some <==> self@.contains_key(name@),
            found is Some ==> *found->0 == self@[name@],
    {
        proof {
            use_type_invariant(self);
        }
        let (i, found) = self.find(name);
        if found {
            proof {
                lemma_entry_at(self.pairs(), i as int);
            }
            Some(&self.entries[i].1)
        } else {
            proof {
                if entry_of(self.pairs(), name@) is Some {
                    let j = choose|j: int|
                        0 <= j < self.pairs().len() && self.pairs()[j].0 == name@;
                    if j < i {
                        lemma_precedes_irreflexive(self.pairs()[j].0, name@);
                    } else {
                        lemma_precedes_irreflexive(name@, self.pairs()[j].0);
                    }
                }
            }
            None
        }
    }

    /// Whether anything is recorded of a name.
    pub fn contains_key(&self, name: &str) -> (found: bool)
        ensures
            found == self@.contains_key(name@),
    {
        self.get(name).is_some()
    }

    /// Records something of a name, in place of what was recorded of it
    /// before, which is returned. The other entries stay, and the entries stay
    /// in the order of their names.
    pub fn insert(&mut self, name: String, info: V) -> (before: Option<V>)
        ensures
            final(self)@ == old(self)@.insert(name@, info),
            before is Some <==> old(self)@.contains_key(name@),
            before is Some ==> before->0 == old(self)@[name@],
            in_order(final(self).pairs()),
    {
        proof {
            use_type_invariant(&*self);
        }
        let ghost pairs = self.pairs();
        let (i, found) = self.find(name.as_str());
        if found {
            let mut entries: Vec<(String, V)> = Vec::new();
            std::mem::swap(&mut self.entries, &mut entries);
            let mut pair = (name, info);
            std::mem::swap(&mut entries[i], &mut pair);
            let before = pair.1;
            proof {
                let after = entries@.map_values(|e: (String, V)| (e.0@, e.1));
                assert(after =~= pairs.update(i as int, (name@, info)));
                lemma_entries_after_update(pairs, i as int, info, name@);
            }
            self.entries = entries;
            proof {
                let after = self.pairs();
                assert(after =~= pairs.update(i as int, (name@, info)));
                lemma_entry_at(pairs, i as int);
                assert forall|k: Seq<char>| entry_of(after, k) == (if k == name@ {
                    Some(info)
                } else {
                    entry_of(pairs, k)
                }) by {
                    lemma_entries_after_update(pairs, i as int, info, k);
                }
                assert(self@ =~= map_of(pairs).insert(name@, info));
            }
            Some(before)
        } else {
            let mut entries: Vec<(String, V)> = Vec::new();
            std::mem::swap(&mut self.entries, &mut entries);
            entries.insert(i, (name, info));
            proof {
                let after = entries@.map_values(|e: (String, V)| (e.0@, e.1));
                assert(after =~= pairs.insert(i as int, (name@, info)));
                lemma_in_order_after_insert(pairs, i as int, name@, info);
            }
            self.entries = entries;
            proof {
                let after = self.pairs();
                assert(after =~= pairs.insert(i as int, (name@, info)));
                lemma_in_order_after_insert(pairs, i as int, name@, info);
                assert forall|k: Seq<char>| entry_of(after, k) == (if k == name@ {
                    Some(info)
                } else {
                    entry_of(pairs, k)
                }) by {
                    lemma_entries_after_insert(pairs, i as int, name@, info, k);
                }
                assert(entry_of(pairs, name@) is None) by {
                    if entry_of(pairs, name@) is Some {
                        let j = choose|j: int| 0 <= j < pairs.len() && pairs[j].0 == name@;
                        if j < i {
                            lemma_precedes_irreflexive(pairs[j].0, name@);
                        } else {
                            lemma_precedes_irreflexive(name@, pairs[j].0);
                        }
                    }
                }
                assert(self@ =~= map_of(pairs).insert(name@, info));
            }
            None
        }
    }
}

/// Pairs in order stay in order when the value at one place changes, and
/// then hold the new value under that place's name and all else as before.
pub proof fn lemma_entries_after_update<V>(
    pairs: Seq<(Seq<char>, V)>,
    i: int,
    info: V,
    name: Seq<char>,
)
    requires
        in_order(pairs),
        0 <= i < pairs.len(),
    ensures
        in_order(pairs.update(i, (pairs[i].0, info))),
        entry_of(pairs.update(i, (pairs[i].0, info)), name) == (if name == pairs[i].0 {
            Some(info)
        } else {
            entry_of(pairs, name)
        }),
{
    let after = pairs.update(i, (pairs[i].0, info));
    assert(in_order(after)) by {
        assert forall|a: int, b: int| 0 <= a < b < after.len() implies precedes(
            after[a].0,
            after[b].0,
        ) by {
            assert(after[a].0 == pairs[a].0);
            assert(after[b].0 == pairs[b].0);
        }
    }
    if name == pairs[i].0 {
        lemma_entry_at(after, i);
    } else if entry_of(pairs, name) is Some {
        let j = choose|j: int| 0 <= j < pairs.len() && pairs[j].0 == name;
        assert(after[j] == pairs[j]);
        lemma_entry_at(pairs, j);
        lemma_entry_at(after, j);
    } else if entry_of(after, name) is Some {
        let j = choose|j: int| 0 <= j < after.len() && after[j].0 == name;
        assert(pairs[j].0 == name);
    }
}

/// Pairs in order stay in order when a new name enters at its place.
pub proof fn lemma_in_order_after_insert<V>(
    pairs: Seq<(Seq<char>, V)>,
    i: int,
    name: Seq<char>,
    info: V,
)
    requires
        in_order(pairs),
        0 <= i <= pairs.len(),
        forall|j: int| 0 <= j < i ==> precedes(#[trigger] pairs[j].0, name),
        forall|j: int| i <= j < pairs.len() ==> precedes(name, #[trigger] pairs[j].0),
    ensures
        in_order(pairs.insert(i, (name, info))),
{
    let after = pairs.insert(i, (name, info));
    assert forall|a: int, b: int| 0 <= a < b < after.len() implies precedes(
        after[a].0,
        after[b].0,
    ) by {
        if b < i {
            assert(after[a] == pairs[a] && after[b] == pairs[b]);
        } else if b == i {
            assert(after[a] == pairs[a]);
        } else if a < i {
            assert(after[a] == pairs[a] && after[b] == pairs[b - 1]);
        } else if a == i {
            assert(after[b] == pairs[b - 1]);
        } else {
            assert(after[a] == pairs[a - 1] && after[b] == pairs[b - 1]);
        }
    }
}

/// After a new name has entered at its place, the pairs hold its value under
/// it and all else as before.
pub proof fn lemma_entries_after_insert<V>(
    pairs: Seq<(Seq<char>, V)>,
    i: int,
    name: Seq<char>,
    info: V,
    other: Seq<char>,
)
    requires
        in_order(pairs),
        0 <= i <= pairs.len(),
        forall|j: int| 0 <= j < i ==> precedes(#[trigger] pairs[j].0, name),
        forall|j: int| i <= j < pairs.len() ==> precedes(name, #[trigger] pairs[j].0),
    ensures
        entry_of(pairs.insert(i, (name, info)), other) == (if other == name {
            Some(info)
        } else {
            entry_of(pairs, other)
        }),
{
    let after = pairs.insert(i, (name, info));
    lemma_in_order_after_insert(pairs, i, name, info);
    if other == name {
        assert(after[i] == (name, info));
        lemma_entry_at(after, i);
    } else if entry_of(pairs, other) is Some {
        let j = choose|j: int| 0 <= j < pairs.len() && pairs[j].0 == other;
        lemma_entry_at(pairs, j);
        let k = if j < i {
            j
        } else {
            j + 1
        };
        assert(after[k] == pairs[j]);
        lemma_entry_at(after, k);
    } else if entry_of(after, other) is Some {
        let k = choose|k: int| 0 <= k < after.len() && after[k].0 == other;
        if k < i {
            assert(after[k] == pairs[k]);
        } else {
            assert(after[k] == pairs[k - 1]);
        }
    }
}

} // verus!
