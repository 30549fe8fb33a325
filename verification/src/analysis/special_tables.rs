//! The two tables of the registry: by operation, and by function name.

use crate::analysis::special_functions::{FunctionInfo, TraitInfo, TraitInfoView, Type};
use crate::name_map::NameMap;
use vstd::prelude::*;

verus! {

/// For each operation, the function that stands for it, if there is one.
/// As a mathematical value, a map from the operations that have a function to
/// that function.
#[derive(Debug)]
pub struct TraitInfos {
    compare: Option<TraitInfo>,
    copy: Option<TraitInfo>,
    equal: Option<TraitInfo>,
    free: Option<TraitInfo>,
    ref_: Option<TraitInfo>,
    display: Option<TraitInfo>,
    unref: Option<TraitInfo>,
    hash: Option<TraitInfo>,
}

impl View for TraitInfos {
    type V = Map<Type, TraitInfoView>;

    closed spec fn view(&self) -> Map<Type, TraitInfoView> {
        Map::new(|t: Type| self.slot(t) is Some, |t: Type| self.slot(t)->0@)
    }
}

impl TraitInfos {
    spec fn slot(&self, t: Type) -> Option<TraitInfo> {
        match t {
            Type::Compare => self.compare,
            Type::Copy => self.copy,
            Type::Equal => self.equal,
            Type::Free => self.free,
            Type::Ref => self.ref_,
            Type::Display => self.display,
            Type::Unref => self.unref,
            Type::Hash => self.hash,
        }
    }

    /// A table without any function.
    pub fn new() -> (table: TraitInfos)
        ensures
            table@ == Map::<Type, TraitInfoView>::empty(),
    {
        let table = TraitInfos {
            compare: None,
            copy: None,
            equal: None,
            free: None,
            ref_: None,
            display: None,
            unref: None,
            hash: None,
        };
        assert(table@ =~= Map::<Type, TraitInfoView>::empty());
        table
    }

    /// The function that stands for an operation.
    pub fn get(&self, t: &Type) -> (found: Option<&TraitInfo>)
        ensures
            found is Some <==> self@.contains_key(*t),
            found is Some ==> found->0@ == self@[*t],
    {
        match t {
            Type::Compare => self.compare.as_ref(),
            Type::Copy => self.copy.as_ref(),
            Type::Equal => self.equal.as_ref(),
            Type::Free => self.free.as_ref(),
            Type::Ref => self.ref_.as_ref(),
            Type::Display => self.display.as_ref(),
            Type::Unref => self.unref.as_ref(),
            Type::Hash => self.hash.as_ref(),
        }
    }

    /// Whether a function stands for an operation.
    pub fn contains_key(&self, t: &Type) -> (found: bool)
        ensures
            found == self@.contains_key(*t),
    {
        self.get(t).is_some()
    }

    /// Lets a function stand for an operation, in place of the one that did
    /// before, which is returned.
    pub fn insert(&mut self, t: Type, info: TraitInfo) -> (before: Option<TraitInfo>)
        ensures
            final(self)@ == old(self)@.insert(t, info@),
            before is Some <==> old(self)@.contains_key(t),
            before is Some ==> before->0@ == old(self)@[t],
    {
        let before = match t {
            Type::Compare => self.compare.take(),
            Type::Copy => self.copy.take(),
            Type::Equal => self.equal.take(),
            Type::Free => self.free.take(),
            Type::Ref => self.ref_.take(),
            Type::Display => self.display.take(),
            Type::Unref => self.unref.take(),
            Type::Hash => self.hash.take(),
        };
        match t {
            Type::Compare => self.compare = Some(info),
            Type::Copy => self.copy = Some(info),
            Type::Equal => self.equal = Some(info),
            Type::Free => self.free = Some(info),
            Type::Ref => self.ref_ = Some(info),
            Type::Display => self.display = Some(info),
            Type::Unref => self.unref = Some(info),
            Type::Hash => self.hash = Some(info),
        }
        assert(self@ =~= old(self)@.insert(t, info@));
        before
    }

    /// How many operations have a function.
    pub fn len(&self) -> (n: usize)
        ensures
            n == self@.len(),
    {
        let keys = self.keys();
        proof {
            keys@.unique_seq_to_set();
            assert(keys@.to_set() =~= self@.dom());
        }
        keys.len()
    }

    /// Whether no operation has a function.
    pub fn is_empty(&self) -> (empty: bool)
        ensures
            empty == (self@.len() == 0),
    {
        self.len() == 0
    }

    /// The operations that have a function, in the order of operations.
    pub fn keys(&self) -> (keys: Vec<Type>)
        ensures
            forall|t: Type| keys@.contains(t) <==> self@.contains_key(t),
            forall|i: int, j: int| 0 <= i < j < keys@.len() ==> keys@[i].rank() < keys@[j].rank(),
            keys@.no_duplicates(),
    {
        let mut keys: Vec<Type> = Vec::new();
        let all = [
            Type::Compare,
            Type::Copy,
            Type::Equal,
            Type::Free,
            Type::Ref,
            Type::Display,
            Type::Unref,
            Type::Hash,
        ];
        let mut n: usize = 0;
        while n < 8
            invariant
                n <= 8,
                all@.len() == 8,
                forall|i: int| 0 <= i < 8 ==> (#[trigger] all@[i]).rank() == i,
                forall|t: Type|
                    keys@.contains(t) <==> (self@.contains_key(t) && t.rank() < n),
                forall|i: int, j: int|
                    0 <= i < j < keys@.len() ==> keys@[i].rank() < keys@[j].rank(),
            decreases 8 - n,
        {
            let t = all[n];
            if self.contains_key(&t) {
                let ghost before = keys@;
                keys.push(t);
                assert forall|i: int, j: int| 0 <= i < j < keys@.len() implies keys@[i].rank()
                    < keys@[j].rank() by {
                    if j == before.len() {
                        assert(before.contains(before[i]));
                    }
                }
                assert forall|u: Type|
                    keys@.contains(u) <==> (self@.contains_key(u) && u.rank() < n + 1) by {
                    if keys@.contains(u) {
                        let i = choose|i: int| 0 <= i < keys@.len() && keys@[i] == u;
                        if i < before.len() {
                            assert(before.contains(u));
                        }
                    }
                    if self@.contains_key(u) && u.rank() < n + 1 {
                        if u.rank() < n {
                            assert(before.contains(u));
                            let i = choose|i: int| 0 <= i < before.len() && before[i] == u;
                            assert(keys@[i] == u);
                        } else {
                            assert(u == t);
                            assert(keys@[before.len() as int] == u);
                        }
                    }
                }
            }
            n += 1;
        }
        keys
    }
}

/// For each function name, what is special about the function, if anything.
pub type FunctionInfos = NameMap<FunctionInfo>;

} // verus!
