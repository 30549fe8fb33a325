//! The other libraries that the generated code builds on.

use vstd::prelude::*;

verus! {

/// A library that the generated code builds on.
#[derive(Clone, Debug)]
pub struct ExternalLibrary {
    /// The namespace of the library.
    pub namespace: String,
    /// The name of the crate that binds the library.
    pub crate_name: String,
}

/// An [`ExternalLibrary`] as a mathematical value.
pub struct ExternalLibraryView {
    pub namespace: Seq<char>,
    pub crate_name: Seq<char>,
}

impl View for ExternalLibrary {
    type V = ExternalLibraryView;

    open spec fn view(&self) -> ExternalLibraryView {
        ExternalLibraryView { namespace: self.namespace@, crate_name: self.crate_name@ }
    }
}

} // verus!
