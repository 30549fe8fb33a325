//! The description of one function, as the analysis reads and adjusts it.

use crate::config::gobjects::GStatus;
use crate::library::{Transfer, TypeId};
use crate::version::Version;
use vstd::prelude::*;

verus! {

/// Who may see a generated function.
#[derive(Clone, Copy, Debug, PartialEq, Eq, Structural, Hash)]
pub enum Visibility {
    Public,
    /// Written out as a comment only: such a function is never touched again.
    Comment,
    Private,
    Hidden,
}

/// One parameter of a function.
#[derive(Clone, Copy, Debug, PartialEq, Eq, Structural)]
pub struct Parameter {
    /// Whether this is the instance that the function works on.
    pub instance_parameter: bool,
}

/// What a function returns.
#[derive(Clone, Copy, Debug, PartialEq, Eq, Structural)]
pub struct ReturnValue {
    pub typ: TypeId,
    pub nullable: bool,
    pub transfer: Transfer,
}

/// One function of a type.
#[derive(Clone, Debug)]
pub struct Info {
    /// The name under which the function is generated.
    pub name: String,
    /// The name of the function in the library.
    pub glib_name: String,
    pub status: GStatus,
    pub visibility: Visibility,
    pub parameters: Vec<Parameter>,
    pub ret: Option<ReturnValue>,
    /// The first version of the library that has the function.
    pub version: Option<Version>,
}

/// An [`Info`] as a mathematical value.
pub struct InfoView {
    pub name: Seq<char>,
    pub glib_name: Seq<char>,
    pub status: GStatus,
    pub visibility: Visibility,
    pub parameters: Seq<Parameter>,
    pub ret: Option<ReturnValue>,
    pub version: Option<Version>,
}

impl View for Info {
    type V = InfoView;

    open spec fn view(&self) -> InfoView {
        InfoView {
            name: self.name@,
            glib_name: self.glib_name@,
            status: self.status,
            visibility: self.visibility,
            parameters: self.parameters@,
            ret: self.ret,
            version: self.version,
        }
    }
}

/// The functions of a list, each as a mathematical value.
pub open spec fn views(functions: Seq<Info>) -> Seq<InfoView> {
    functions.map_values(|f: Info| f@)
}

} // verus!
