//! The parts of the library model that the analysis reads.

use crate::text::{after_dot, before_dot, split_at_dot, str_eq, texts};
use vstd::prelude::*;
use vstd::string::*;

verus! {

/// Identifies a type of the library: the namespace it belongs to and its
/// place in that namespace.
#[derive(Clone, Copy, Debug, PartialEq, Eq, Structural, Hash)]
pub struct TypeId {
    pub ns_id: u16,
    pub id: u32,
}

impl TypeId {
    /// Whether this is the UTF-8 string type.
    pub open spec fn is_utf8(self) -> bool {
        self.ns_id == 0 && self.id == 28
    }

    /// The UTF-8 string type.
    pub fn tid_utf8() -> (tid: TypeId)
        ensures
            tid.is_utf8(),
            forall|other: TypeId| other.is_utf8() ==> other == tid,
    {
        TypeId { ns_id: 0, id: 28 }
    }
}

/// Who owns a value after it has been handed over.
#[derive(Clone, Copy, Debug, PartialEq, Eq, Structural, Hash)]
pub enum Transfer {
    /// Nothing passes: the value stays with the callee.
    Nothing,
    /// Only the container passes to the receiver, not what it holds.
    Container,
    /// The value passes to the receiver.
    Full,
}

/// What kind of type owns the functions under analysis.
#[derive(Clone, Copy, Debug, PartialEq, Eq, Structural, Hash)]
pub enum Type {
    Enumeration,
    Bitfield,
    Other,
}

impl Type {
    /// Enumerations and bitfields carry trustworthy annotations on what their
    /// functions return, and hand out strings that live as long as the program.
    pub open spec fn is_enum_like(self) -> bool {
        self is Enumeration || self is Bitfield
    }

    /// Executable form of [`Type::is_enum_like`].
    pub fn enum_like(&self) -> (yes: bool)
        ensures
            yes == self.is_enum_like(),
    {
        match self {
            Type::Enumeration => true,
            Type::Bitfield => true,
            Type::Other => false,
        }
    }
}

/// Between which threads the values of a type can pass.
#[derive(Clone, Copy, Debug, PartialEq, Eq, Structural, Hash)]
pub enum Concurrency {
    /// They stay on the thread that made them.
    Nothing,
    /// They can be sent to another thread.
    Send,
    /// They can be sent to another thread while nothing else refers to them.
    SendUnique,
    /// They can be sent to, and shared with, other threads.
    SendSync,
}

/// The kind of concurrency that a name stands for, if it stands for one.
pub open spec fn concurrency_of(name: Seq<char>) -> Option<Concurrency> {
    if name == "none"@ {
        Some(Concurrency::Nothing)
    } else if name == "send"@ {
        Some(Concurrency::Send)
    } else if name == "send-unique"@ {
        Some(Concurrency::SendUnique)
    } else if name == "send+sync"@ {
        Some(Concurrency::SendSync)
    } else {
        None
    }
}

/// What is said of a name that stands for no kind of concurrency.
pub open spec fn unknown_concurrency(name: Seq<char>) -> Seq<char> {
    "Unknown concurrency kind '"@ + name + "'"@
}

impl Concurrency {
    /// The kind of concurrency that a name stands for, or what is wrong with
    /// the name.
    pub fn from_name(name: &str) -> (kind: Result<Concurrency, String>)
        ensures
            match kind {
                Ok(k) => concurrency_of(name@) == Some(k),
                Err(e) => concurrency_of(name@) is None && e@ == unknown_concurrency(name@),
            },
    {
        if str_eq(name, "none") {
            Ok(Concurrency::Nothing)
        } else if str_eq(name, "send") {
            Ok(Concurrency::Send)
        } else if str_eq(name, "send-unique") {
            Ok(Concurrency::SendUnique)
        } else if str_eq(name, "send+sync") {
            Ok(Concurrency::SendSync)
        } else {
            let mut e = "Unknown concurrency kind '".to_owned();
            e.append(name);
            e.append("'");
            Err(e)
        }
    }
}

impl Default for Concurrency {
    fn default() -> (kind: Concurrency)
        ensures
            kind == Concurrency::Nothing,
    {
        Concurrency::Nothing
    }
}

/// One namespace of the library: its name, and the names of its types,
/// each at the place that identifies the type.
#[derive(Clone, Debug)]
pub struct Namespace {
    pub name: String,
    pub type_names: Vec<String>,
}

/// A [`Namespace`] as a mathematical value.
pub struct NamespaceView {
    pub name: Seq<char>,
    pub type_names: Seq<Seq<char>>,
}

impl View for Namespace {
    type V = NamespaceView;

    open spec fn view(&self) -> NamespaceView {
        NamespaceView { name: self.name@, type_names: texts(self.type_names@) }
    }
}

/// The types of a library, by namespace. The place of a namespace
/// identifies it; the first namespace holds the types that every library has.
#[derive(Clone, Debug)]
pub struct Library {
    pub namespaces: Vec<Namespace>,
}

impl View for Library {
    type V = Seq<NamespaceView>;

    open spec fn view(&self) -> Seq<NamespaceView> {
        self.namespaces@.map_values(|n: Namespace| n@)
    }
}

/// The first place at which a text stands among the first `limit` of a
/// list, if it stands at one.
pub open spec fn first_place(names: Seq<Seq<char>>, name: Seq<char>, limit: int) -> Option<int> {
    if exists|i: int| is_first_place(names, name, limit, i) {
        Some(choose|i: int| is_first_place(names, name, limit, i))
    } else {
        None
    }
}

/// Whether a text stands at a place among the first `limit` of a list and
/// at none before it.
pub open spec fn is_first_place(names: Seq<Seq<char>>, name: Seq<char>, limit: int, i: int) -> bool {
    &&& 0 <= i < names.len()
    &&& i < limit
    &&& names[i] == name
    &&& forall|j: int| 0 <= j < i ==> names[j] != name
}

/// The type of a name within the namespace at a place.
pub open spec fn type_in(library: Seq<NamespaceView>, ns_id: int, name: Seq<char>) -> Option<
    TypeId,
> {
    if 0 <= ns_id < library.len() && ns_id <= u16::MAX {
        match first_place(library[ns_id].type_names, name, u32::MAX + 1) {
            Some(id) => Some(TypeId { ns_id: ns_id as u16, id: id as u32 }),
            None => None,
        }
    } else {
        None
    }
}

/// The type that a name stands for. A name with a dot names its namespace
/// before the dot and the type after it. A name without one is looked for in
/// the current namespace and then in the first one.
pub open spec fn type_of(library: Seq<NamespaceView>, current_ns_id: u16, name: Seq<char>)
    -> Option<TypeId> {
    match after_dot(name) {
        Some(own_name) => match first_place(
            library.map_values(|n: NamespaceView| n.name),
            before_dot(name),
            u16::MAX + 1,
        ) {
            Some(ns_id) => type_in(library, ns_id, own_name),
            None => None,
        },
        None => match type_in(library, current_ns_id as int, name) {
            Some(tid) => Some(tid),
            None => type_in(library, 0, name),
        },
    }
}

/// The first place at which a text stands among the first `limit` of a
/// list.
fn find_place(names: &Vec<String>, name: &str, limit: u64) -> (place: Option<usize>)
    ensures
        match place {
            Some(i) => first_place(texts(names@), name@, limit as int) == Some(i as int),
            None => first_place(texts(names@), name@, limit as int) is None,
        },
{
    let mut i: usize = 0;
    while i < names.len() && (i as u64) < limit
        invariant
            i <= names@.len(),
            i <= limit,
            forall|j: int| 0 <= j < i ==> texts(names@)[j] != name@,
        decreases names@.len() - i,
    {
        if str_eq(names[i].as_str(), name) {
            proof {
                let all = texts(names@);
                assert(is_first_place(all, name@, limit as int, i as int));
                assert forall|k: int| is_first_place(all, name@, limit as int, k) implies k
                    == i by {}
            }
            return Some(i);
        }
        i += 1;
    }
    proof {
        let all = texts(names@);
        assert forall|k: int| !is_first_place(all, name@, limit as int, k) by {}
    }
    None
}

impl Library {
    fn find_in(&self, ns_id: usize, name: &str) -> (found: Option<TypeId>)
        ensures
            found == type_in(self@, ns_id as int, name@),
    {
        if ns_id < self.namespaces.len() && ns_id <= 0xffff {
            assert(self@[ns_id as int] == self.namespaces@[ns_id as int]@);
            match find_place(&self.namespaces[ns_id].type_names, name, 0x1_0000_0000) {
                Some(id) => Some(TypeId { ns_id: ns_id as u16, id: id as u32 }),
                None => None,
            }
        } else {
            None
        }
    }

    /// The first namespace of a name among the first 65536.
    fn find_namespace(&self, name: &str) -> (place: Option<usize>)
        ensures
            match place {
                Some(i) => first_place(
                    self@.map_values(|n: NamespaceView| n.name),
                    name@,
                    u16::MAX + 1,
                ) == Some(i as int),
                None => first_place(
                    self@.map_values(|n: NamespaceView| n.name),
                    name@,
                    u16::MAX + 1,
                ) is None,
            },
    {
        let ghost names = self@.map_values(|n: NamespaceView| n.name);
        let ghost limit: int = u16::MAX + 1;
        let mut i: usize = 0;
        while i < self.namespaces.len() && i < 0x1_0000
            invariant
                i <= self.namespaces@.len(),
                i <= 0x1_0000,
                names == self@.map_values(|n: NamespaceView| n.name),
                limit == u16::MAX + 1,
                forall|j: int| 0 <= j < i ==> names[j] != name@,
            decreases self.namespaces@.len() - i,
        {
            assert(names[i as int] == self.namespaces@[i as int].name@);
            if str_eq(self.namespaces[i].name.as_str(), name) {
                proof {
                    assert(is_first_place(names, name@, limit, i as int));
                    assert forall|k: int| is_first_place(names, name@, limit, k) implies k == i by {}
                }
                return Some(i);
            }
            i += 1;
        }
        proof {
            assert forall|k: int| !is_first_place(names, name@, limit, k) by {}
        }
        None
    }

    /// Finds the type that a name stands for.
    pub fn find_type(&self, current_ns_id: u16, name: &str) -> (found: Option<TypeId>)
        ensures
            found == type_of(self@, current_ns_id, name@),
    {
        let (first, rest) = split_at_dot(name);
        match rest {
            Some(own_name) => match self.find_namespace(first) {
                Some(ns_id) => self.find_in(ns_id, own_name),
                None => None,
            },
            None => {
                assert(first@ =~= name@) by {
                    crate::text::lemma_first_dot_bounds(name@);
                }
                match self.find_in(current_ns_id as usize, name) {
                    Some(tid) => Some(tid),
                    None => self.find_in(0, name),
                }
            },
        }
    }
}

} // verus!
