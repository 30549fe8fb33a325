//! The declarations that generated code asks for.

use crate::version::Version;
use vstd::prelude::*;

verus! {

/// A declaration that generated code needs, and the version of the library
/// from which it needs it. Without a version it is needed always.
#[derive(Debug, Clone)]
pub struct Import {
    pub name: String,
    pub version: Option<Version>,
}

/// An [`Import`] as a mathematical value.
pub struct ImportView {
    pub name: Seq<char>,
    pub version: Option<Version>,
}

impl View for Import {
    type V = ImportView;

    open spec fn view(&self) -> ImportView {
        ImportView { name: self.name@, version: self.version }
    }
}

/// The declarations asked for so far, in the order in which they were asked
/// for.
#[derive(Debug)]
pub struct Imports {
    entries: Vec<Import>,
}

impl View for Imports {
    type V = Seq<ImportView>;

    closed spec fn view(&self) -> Seq<ImportView> {
        self.entries@.map_values(|e: Import| e@)
    }
}

impl Imports {
    /// No declaration.
    pub fn new() -> (imports: Imports)
        ensures
            imports@ == Seq::<ImportView>::empty(),
    {
        let imports = Imports { entries: Vec::new() };
        assert(imports@ =~= Seq::<ImportView>::empty());
        imports
    }

    /// Asks for a declaration from a version of the library on.
    pub fn add_with_version(&mut self, name: &str, version: Option<Version>)
        ensures
            final(self)@ == old(self)@.push(ImportView { name: name@, version }),
    {
        self.entries.push(Import { name: name.to_owned(), version });
        assert(self@ =~= old(self)@.push(ImportView { name: name@, version }));
    }

    /// How many declarations were asked for.
    pub fn len(&self) -> (n: usize)
        ensures
            n == self@.len(),
    {
        self.entries.len()
    }

    /// The declaration that was asked for at a place.
    pub fn get(&self, i: usize) -> (import: &Import)
        requires
            i < self@.len(),
        ensures
            import@ == self@[i as int],
    {
        &self.entries[i]
    }
}

} // verus!
