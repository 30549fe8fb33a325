//! What the configuration says of the types of the library.

use crate::library::{type_of, Concurrency, Library, TypeId};
use crate::name_map::NameMap;
use vstd::prelude::*;

verus! {

/// How a configured item is to be treated.
#[derive(Clone, Copy, Debug, PartialEq, Eq, Structural, Hash)]
pub enum GStatus {
    Manual,
    Generate,
    Comment,
    Ignore,
}

impl GStatus {
    /// Whether code is to be generated for the item.
    pub open spec fn is_generate(self) -> bool {
        self is Generate
    }

    /// Executable form of [`GStatus::is_generate`].
    pub fn need_generate(self) -> (yes: bool)
        ensures
            yes == self.is_generate(),
    {
        match self {
            GStatus::Generate => true,
            _ => false,
        }
    }
}

impl Default for GStatus {
    fn default() -> (status: GStatus)
        ensures
            status == GStatus::Ignore,
    {
        GStatus::Ignore
    }
}

/// What the configuration says of one type.
#[derive(Clone, Debug)]
pub struct GObject {
    /// The full name of the type: its namespace, a dot, and its own name.
    pub name: String,
    pub status: GStatus,
    pub concurrency: Concurrency,
    /// Whether a formatting implementation is wanted for the type.
    pub generate_display_trait: bool,
    /// Whether the library's annotations on whether a returned value may be
    /// absent are taken as they are.
    pub trust_return_value_nullability: bool,
    /// The type in the library, once it has been looked up.
    pub type_id: Option<TypeId>,
}

/// The configured types, by their full names.
pub type GObjects = NameMap<GObject>;

impl Default for GObject {
    fn default() -> (object: GObject)
        ensures
            object.name@ == Seq::<char>::empty(),
            object.status == GStatus::Ignore,
            object.concurrency == Concurrency::Nothing,
            object.generate_display_trait,
            !object.trust_return_value_nullability,
            object.type_id is None,
    {
        GObject {
            name: String::new(),
            status: GStatus::Ignore,
            concurrency: Concurrency::Nothing,
            generate_display_trait: true,
            trust_return_value_nullability: false,
            type_id: None,
        }
    }
}

/// A configured type with the type of the library that its name stands for.
pub open spec fn resolved(object: GObject, name: Seq<char>, library: &Library) -> GObject {
    GObject { type_id: type_of(library@, 0, name), ..object }
}

/// Looks up in the library each configured type by the name under which it
/// is configured, and records what was found, or that nothing was.
pub fn resolve_type_ids(objects: &mut GObjects, library: &Library)
    ensures
        final(objects).pairs().len() == old(objects).pairs().len(),
        forall|i: int|
            0 <= i < old(objects).pairs().len() ==> #[trigger] final(objects).pairs()[i] == (
                old(objects).pairs()[i].0,
                resolved(old(objects).pairs()[i].1, old(objects).pairs()[i].0, library),
            ),
{
    let n = objects.len();
    let mut i: usize = 0;
    while i < n
        invariant
            i <= n,
            n == old(objects).pairs().len(),
            objects.pairs().len() == n,
            forall|j: int|
                0 <= j < i ==> #[trigger] objects.pairs()[j] == (
                    old(objects).pairs()[j].0,
                    resolved(old(objects).pairs()[j].1, old(objects).pairs()[j].0, library),
                ),
            forall|j: int| i <= j < n ==> #[trigger] objects.pairs()[j] == old(objects).pairs()[j],
        decreases n - i,
    {
        let type_id = library.find_type(0, objects.key_at(i));
        let mut object = objects.replace_value_at(i, GObject::default());
        object.type_id = type_id;
        objects.replace_value_at(i, object);
        i += 1;
    }
}

} // verus!
