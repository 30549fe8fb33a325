//! What the generator is asked to produce.

use crate::text::str_eq;
use vstd::prelude::*;
use vstd::string::*;

verus! {

/// What the generator is asked to produce.
#[derive(Clone, Copy, Debug, PartialEq, Eq, Structural, Hash)]
pub enum WorkMode {
    /// The high-level bindings.
    Normal,
    /// The low-level declarations.
    Sys,
    /// The documentation.
    Doc,
    /// A list of what is not bound.
    DisplayNotBound,
}

/// The work mode that a name stands for, if it stands for one.
pub open spec fn work_mode_of(name: Seq<char>) -> Option<WorkMode> {
    if name == "normal"@ {
        Some(WorkMode::Normal)
    } else if name == "sys"@ {
        Some(WorkMode::Sys)
    } else if name == "doc"@ {
        Some(WorkMode::Doc)
    } else if name == "not_bound"@ {
        Some(WorkMode::DisplayNotBound)
    } else {
        None
    }
}

/// What is said of a name that stands for no work mode.
pub open spec fn wrong_work_mode(name: Seq<char>) -> Seq<char> {
    "Wrong work mode '"@ + name + "'"@
}

impl WorkMode {
    /// The work mode that a name stands for, or what is wrong with the name.
    pub fn from_name(name: &str) -> (mode: Result<WorkMode, String>)
        ensures
            match mode {
                Ok(m) => work_mode_of(name@) == Some(m),
                Err(e) => work_mode_of(name@) is None && e@ == wrong_work_mode(name@),
            },
    {
        if str_eq(name, "normal") {
            Ok(WorkMode::Normal)
        } else if str_eq(name, "sys") {
            Ok(WorkMode::Sys)
        } else if str_eq(name, "doc") {
            Ok(WorkMode::Doc)
        } else if str_eq(name, "not_bound") {
            Ok(WorkMode::DisplayNotBound)
        } else {
            let mut e = "Wrong work mode '".to_owned();
            e.append(name);
            e.append("'");
            Err(e)
        }
    }
}

impl Default for WorkMode {
    fn default() -> (mode: WorkMode)
        ensures
            mode == WorkMode::Normal,
    {
        WorkMode::Normal
    }
}

} // verus!
