//! Library versions and their order.

use crate::text::{after_dot, before_dot, decimal, decimal_string, parse_u16, read_u16, split_at_dot};
use std::cmp::Ordering;
use vstd::prelude::*;
use vstd::std_specs::cmp::PartialOrdSpecImpl;
use vstd::string::*;

verus! {

/// A library version: major, minor and patch number. Versions are ordered
/// by major number, then minor, then patch.
#[derive(Clone, Copy, Debug, PartialEq, Eq, Structural, Ord, Hash)]
pub struct Version(pub u16, pub u16, pub u16);

impl Version {
    /// The version as one number that orders as the versions do.
    pub open spec fn rank(self) -> int {
        self.0 * 0x1_0000_0000 + self.1 * 0x1_0000 + self.2
    }

    /// The name of the feature that stands for the version: `v`, then the
    /// numbers joined by `_`, without those that are zero at the end (the major
    /// number always stays).
    pub open spec fn feature_name(self) -> Seq<char> {
        if self.2 != 0 {
            "v"@ + decimal(self.0 as nat) + "_"@ + decimal(self.1 as nat) + "_"@ + decimal(
                self.2 as nat,
            )
        } else if self.1 != 0 {
            "v"@ + decimal(self.0 as nat) + "_"@ + decimal(self.1 as nat)
        } else {
            "v"@ + decimal(self.0 as nat)
        }
    }

    /// The version as text: the numbers joined by dots, without those that
    /// are zero at the end (the major number always stays).
    pub open spec fn text(self) -> Seq<char> {
        if self.2 != 0 {
            decimal(self.0 as nat) + "."@ + decimal(self.1 as nat) + "."@ + decimal(self.2 as nat)
        } else if self.1 != 0 {
            decimal(self.0 as nat) + "."@ + decimal(self.1 as nat)
        } else {
            decimal(self.0 as nat)
        }
    }

    /// The name of the feature that stands for the version.
    pub fn to_feature(self) -> (name: String)
        ensures
            name@ == self.feature_name(),
    {
        let mut name = "v".to_owned();
        name.append(decimal_string(self.0).as_str());
        if self.1 != 0 || self.2 != 0 {
            name.append("_");
            name.append(decimal_string(self.1).as_str());
        }
        if self.2 != 0 {
            name.append("_");
            name.append(decimal_string(self.2).as_str());
        }
        name
    }

    /// The version as text.
    pub fn to_string(&self) -> (text: String)
        ensures
            text@ == self.text(),
    {
        let mut text = decimal_string(self.0);
        if self.1 != 0 || self.2 != 0 {
            text.append(".");
            text.append(decimal_string(self.1).as_str());
        }
        if self.2 != 0 {
            text.append(".");
            text.append(decimal_string(self.2).as_str());
        }
        text
    }
}

/// The version that a text stands for. The text is cut at its dots; the
/// pieces are read as numbers from the first on, up to three of them, and
/// reading stops at the first piece that is no number up to 65535. What was
/// not read counts as zero.
pub open spec fn parse_version(s: Seq<char>) -> Version {
    match parse_u16(before_dot(s)) {
        None => Version(0, 0, 0),
        Some(major) => match after_dot(s) {
            None => Version(major, 0, 0),
            Some(rest) => match parse_u16(before_dot(rest)) {
                None => Version(major, 0, 0),
                Some(minor) => match after_dot(rest) {
                    None => Version(major, minor, 0),
                    Some(last) => match parse_u16(before_dot(last)) {
                        None => Version(major, minor, 0),
                        Some(patch) => Version(major, minor, patch),
                    },
                },
            },
        },
    }
}

impl Version {
    /// Reads a version from its text.
    pub fn parse(text: &str) -> (version: Version)
        ensures
            version == parse_version(text@),
    {
        let (first, rest) = split_at_dot(text);
        let major = match read_u16(first) {
            Some(n) => n,
            None => {
                return Version(0, 0, 0);
            },
        };
        let rest = match rest {
            Some(rest) => rest,
            None => {
                return Version(major, 0, 0);
            },
        };
        let (second, last) = split_at_dot(rest);
        let minor = match read_u16(second) {
            Some(n) => n,
            None => {
                return Version(major, 0, 0);
            },
        };
        let last = match last {
            Some(last) => last,
            None => {
                return Version(major, minor, 0);
            },
        };
        let (third, _) = split_at_dot(last);
        match read_u16(third) {
            Some(patch) => Version(major, minor, patch),
            None => Version(major, minor, 0),
        }
    }
}

impl Default for Version {
    fn default() -> (version: Version)
        ensures
            version == Version(0, 0, 0),
    {
        Version(0, 0, 0)
    }
}

impl PartialOrd for Version {
    fn partial_cmp(&self, other: &Version) -> (order: Option<Ordering>) {
        if self.0 < other.0 {
            Some(Ordering::Less)
        } else if self.0 > other.0 {
            Some(Ordering::Greater)
        } else if self.1 < other.1 {
            Some(Ordering::Less)
        } else if self.1 > other.1 {
            Some(Ordering::Greater)
        } else if self.2 < other.2 {
            Some(Ordering::Less)
        } else if self.2 > other.2 {
            Some(Ordering::Greater)
        } else {
            Some(Ordering::Equal)
        }
    }
}

impl PartialOrdSpecImpl for Version {
    open spec fn obeys_partial_cmp_spec() -> bool {
        true
    }

    open spec fn partial_cmp_spec(&self, other: &Version) -> Option<Ordering> {
        if self.rank() < other.rank() {
            Some(Ordering::Less)
        } else if self.rank() > other.rank() {
            Some(Ordering::Greater)
        } else {
            Some(Ordering::Equal)
        }
    }
}

} // verus!
