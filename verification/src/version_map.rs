//! Maps from versions, kept in the order of the versions.

use crate::version::Version;
use vstd::prelude::*;

verus! {

/// Whether the versions of the pairs stand in strictly rising order, so that
/// none occurs twice.
pub open spec fn rising<V>(pairs: Seq<(Version, V)>) -> bool {
    forall|i: int, j: int| 0 <= i < j < pairs.len() ==> pairs[i].0.rank() < pairs[j].0.rank()
}

/// The value that stands with a version among pairs, where one does.
pub open spec fn value_of<V>(pairs: Seq<(Version, V)>, version: Version) -> Option<V> {
    if exists|i: int| 0 <= i < pairs.len() && pairs[i].0 == version {
        Some(pairs[choose|i: int| 0 <= i < pairs.len() && pairs[i].0 == version].1)
    } else {
        None
    }
}

/// The map that pairs in rising order stand for.
pub open spec fn map_of_versions<V>(pairs: Seq<(Version, V)>) -> Map<Version, V> {
    Map::new(
        |version: Version| value_of(pairs, version) is Some,
        |version: Version| value_of(pairs, version)->0,
    )
}

/// Versions of the same rank are the same version.
pub proof fn lemma_rank_tells_apart(a: Version, b: Version)
    requires
        a.rank() == b.rank(),
    ensures
        a == b,
{
    if a.0 != b.0 {
        if a.0 < b.0 {
            assert(a.0 * 0x1_0000_0000 + 0x1_0000_0000 <= b.0 * 0x1_0000_0000);
        } else {
            assert(b.0 * 0x1_0000_0000 + 0x1_0000_0000 <= a.0 * 0x1_0000_0000);
        }
    } else if a.1 != b.1 {
        if a.1 < b.1 {
            assert(a.1 * 0x1_0000 + 0x1_0000 <= b.1 * 0x1_0000);
        } else {
            assert(b.1 * 0x1_0000 + 0x1_0000 <= a.1 * 0x1_0000);
        }
    }
}

/// Among pairs in rising order, the value of the version that stands at a
/// place is the value that stands there.
pub proof fn lemma_value_at<V>(pairs: Seq<(Version, V)>, i: int)
    requires
        rising(pairs),
        0 <= i < pairs.len(),
    ensures
        value_of(pairs, pairs[i].0) == Some(pairs[i].1),
{
    let j = choose|j: int| 0 <= j < pairs.len() && pairs[j].0 == pairs[i].0;
    assert(j == i);
}

/// A version that lies between the versions before a place and those from
/// it on stands with no value.
pub proof fn lemma_value_missing<V>(pairs: Seq<(Version, V)>, i: int, version: Version)
    requires
        0 <= i <= pairs.len(),
        forall|j: int| 0 <= j < i ==> (#[trigger] pairs[j]).0.rank() < version.rank(),
        forall|j: int| i <= j < pairs.len() ==> version.rank() < (#[trigger] pairs[j]).0.rank(),
    ensures
        value_of(pairs, version) is None,
{
    if value_of(pairs, version) is Some {
        let j = choose|j: int| 0 <= j < pairs.len() && pairs[j].0 == version;
        assert(pairs[j].0.rank() == version.rank());
    }
}

/// Pairs in rising order stay so when a new version enters at its place,
/// and then hold its value with it and all else as before.
pub proof fn lemma_after_insert<V>(pairs: Seq<(Version, V)>, i: int, version: Version, value: V)
    requires
        rising(pairs),
        0 <= i <= pairs.len(),
        forall|j: int| 0 <= j < i ==> (#[trigger] pairs[j]).0.rank() < version.rank(),
        forall|j: int| i <= j < pairs.len() ==> version.rank() < (#[trigger] pairs[j]).0.rank(),
    ensures
        rising(pairs.insert(i, (version, value))),
        map_of_versions(pairs.insert(i, (version, value))) == map_of_versions(pairs).insert(
            version,
            value,
        ),
{
    let after = pairs.insert(i, (version, value));
    assert(rising(after)) by {
        assert forall|a: int, b: int| 0 <= a < b < after.len() implies after[a].0.rank()
            < after[b].0.rank() by {
            if b < i {
                assert(after[a] == pairs[a] && after[b] == pairs[b]);
            } else if b == i {
                assert(after[a] == pairs[a]);
            } else if a < i {
                assert(after[a] == pairs[a] && after[b] == pairs[b - 1]);
            } else if a == i {
                assert(after[b] == pairs[b - 1]);
            } else {
                assert(after[a] == pairs[a - 1] && after[b] == pairs[b - 1]);
            }
        }
    }
    assert forall|other: Version| value_of(after, other) == (if other == version {
        Some(value)
    } else {
        value_of(pairs, other)
    }) by {
        if other == version {
            assert(after[i] == (version, value));
            lemma_value_at(after, i);
        } else if value_of(pairs, other) is Some {
            let j = choose|j: int| 0 <= j < pairs.len() && pairs[j].0 == other;
            lemma_value_at(pairs, j);
            let k = if j < i {
                j
            } else {
                j + 1
            };
            assert(after[k] == pairs[j]);
            lemma_value_at(after, k);
        } else if value_of(after, other) is Some {
            let k = choose|k: int| 0 <= k < after.len() && after[k].0 == other;
            if k < i {
                assert(after[k] == pairs[k]);
            } else {
                assert(after[k] == pairs[k - 1]);
            }
        }
    }
    assert(map_of_versions(after) =~= map_of_versions(pairs).insert(version, value));
}

/// Pairs in rising order stay so when the value at a place changes, and
/// then hold the new value with that place's version and all else as before.
pub proof fn lemma_after_update<V>(pairs: Seq<(Version, V)>, i: int, value: V)
    requires
        rising(pairs),
        0 <= i < pairs.len(),
    ensures
        rising(pairs.update(i, (pairs[i].0, value))),
        map_of_versions(pairs.update(i, (pairs[i].0, value))) == map_of_versions(pairs).insert(
            pairs[i].0,
            value,
        ),
{
    let after = pairs.update(i, (pairs[i].0, value));
    assert(rising(after)) by {
        assert forall|a: int, b: int| 0 <= a < b < after.len() implies after[a].0.rank()
            < after[b].0.rank() by {
            assert(after[a].0 == pairs[a].0);
            assert(after[b].0 == pairs[b].0);
        }
    }
    assert forall|other: Version| value_of(after, other) == (if other == pairs[i].0 {
        Some(value)
    } else {
        value_of(pairs, other)
    }) by {
        if other == pairs[i].0 {
            lemma_value_at(after, i);
        } else if value_of(pairs, other) is Some {
            let j = choose|j: int| 0 <= j < pairs.len() && pairs[j].0 == other;
            assert(after[j] == pairs[j]);
            lemma_value_at(pairs, j);
            lemma_value_at(after, j);
        } else if value_of(after, other) is Some {
            let j = choose|j: int| 0 <= j < after.len() && after[j].0 == other;
            assert(pairs[j].0 == other);
        }
    }
    assert(map_of_versions(after) =~= map_of_versions(pairs).insert(pairs[i].0, value));
}

/// A map from versions. As a mathematical value, the map itself; the entries
/// are kept in the order of their versions, which is the order in which they
/// are handed out.
#[derive(Debug)]
pub struct VersionMap<V> {
    entries: Vec<(Version, V)>,
}

impl<V> View for VersionMap<V> {
    type V = Map<Version, V>;

    open spec fn view(&self) -> Map<Version, V> {
        map_of_versions(self.pairs())
    }
}

impl<V> VersionMap<V> {
    /// The entries, each with its version, in the order of the versions.
    pub closed spec fn pairs(&self) -> Seq<(Version, V)> {
        self.entries@
    }

    #[verifier::type_invariant]
    spec fn ordered(&self) -> bool {
        rising(self.pairs())
    }

    /// A map without entries.
    pub fn new() -> (map: VersionMap<V>)
        ensures
            map.pairs() == Seq::<(Version, V)>::empty(),
            map@ == Map::<Version, V>::empty(),
    {
        let map = VersionMap { entries: Vec::new() };
        assert(map@ =~= Map::<Version, V>::empty());
        map
    }

    /// How many versions have an entry. The entries stand in the order of
    /// their versions.
    pub fn len(&self) -> (n: usize)
        ensures
            n == self.pairs().len(),
            rising(self.pairs()),
    {
        proof {
            use_type_invariant(self);
        }
        self.entries.len()
    }

    /// The version of the entry at a place in the order of versions.
    pub fn key_at(&self, i: usize) -> (version: Version)
        requires
            i < self.pairs().len(),
        ensures
            version == self.pairs()[i as int].0,
    {
        self.entries[i].0
    }

    /// The value of the entry at a place in the order of versions.
    pub fn value_at(&self, i: usize) -> (value: &V)
        requires
            i < self.pairs().len(),
        ensures
            *value == self.pairs()[i as int].1,
    {
        &self.entries[i].1
    }

    /// The first place whose version is not earlier than the given one, and
    /// whether that place holds the version itself.
    fn find(&self, version: Version) -> (at: (usize, bool))
        ensures
            at.0 <= self.pairs().len(),
            forall|j: int| 0 <= j < at.0 ==> (#[trigger] self.pairs()[j]).0.rank() < version.rank(),
            at.1 ==> at.0 < self.pairs().len() && self.pairs()[at.0 as int].0 == version,
            !at.1 ==> forall|j: int|
                at.0 <= j < self.pairs().len() ==> version.rank() < (
                #[trigger] self.pairs()[j]).0.rank(),
    {
        proof {
            use_type_invariant(self);
        }
        let mut i: usize = 0;
        while i < self.entries.len()
            invariant
                i <= self.pairs().len(),
                self.pairs() == self.entries@,
                rising(self.pairs()),
                forall|j: int| 0 <= j < i ==> (#[trigger] self.pairs()[j]).0.rank() < version.rank(),
            decreases self.entries@.len() - i,
        {
            let here = self.entries[i].0;
            if here == version {
                return (i, true);
            }
            if here > version {
                return (i, false);
            }
            proof {
                if here.rank() == version.rank() {
                    lemma_rank_tells_apart(here, version);
                }
            }
            i += 1;
        }
        (i, false)
    }

    /// The entry of a version.
    pub fn get(&self, version: &Version) -> (found: Option<&V>)
        ensures
            found is Some <==> self@.contains_key(*version),
            found is Some ==> *found->0 == self@[*version],
    {
        proof {
            use_type_invariant(self);
        }
        let (i, found) = self.find(*version);
        if found {
            proof {
                lemma_value_at(self.pairs(), i as int);
            }
            Some(&self.entries[i].1)
        } else {
            proof {
                lemma_value_missing(self.pairs(), i as int, *version);
            }
            None
        }
    }

    /// Whether a version has an entry.
    pub fn contains_key(&self, version: &Version) -> (found: bool)
        ensures
            found == self@.contains_key(*version),
    {
        self.get(version).is_some()
    }

    /// Gives a version an entry, in place of the one it had, which is
    /// returned. The other entries stay, and the entries stay in the order of
    /// their versions.
    pub fn insert(&mut self, version: Version, value: V) -> (before: Option<V>)
        ensures
            final(self)@ == old(self)@.insert(version, value),
            before is Some <==> old(self)@.contains_key(version),
            before is Some ==> before->0 == old(self)@[version],
            rising(final(self).pairs()),
    {
        proof {
            use_type_invariant(&*self);
        }
        let ghost pairs = self.pairs();
        let (i, found) = self.find(version);
        let mut entries: Vec<(Version, V)> = Vec::new();
        std::mem::swap(&mut self.entries, &mut entries);
        if found {
            let mut pair = (version, value);
            std::mem::swap(&mut entries[i], &mut pair);
            proof {
                lemma_value_at(pairs, i as int);
                lemma_after_update(pairs, i as int, value);
                assert(entries@ =~= pairs.update(i as int, (version, value)));
            }
            self.entries = entries;
            Some(pair.1)
        } else {
            entries.insert(i, (version, value));
            proof {
                lemma_value_missing(pairs, i as int, version);
                lemma_after_insert(pairs, i as int, version, value);
            }
            self.entries = entries;
            None
        }
    }
}

} // verus!
