//! How the configuration names what it speaks of: by a name, or by a
//! pattern that names match.

use crate::config::toml_helper::{lookup, lookup_path, toml_of, value_as_str, Toml};
use crate::text::str_eq;
use regex::Regex;
use vstd::prelude::*;
use vstd::std_specs::cmp::PartialEqSpecImpl;
use vstd::string::*;

verus! {

/// `regex::Regex`: a regular expression, of which nothing is known but what
/// the functions below say.
#[verifier::external_type_specification]
#[verifier::external_body]
pub struct ExRegex(Regex);

/// `regex::Error`: why a pattern is no regular expression.
#[verifier::external_type_specification]
#[verifier::external_body]
pub struct ExRegexError(regex::Error);

/// What `Regex::new` says against a pattern; nothing where it makes a
/// regular expression of it.
pub uninterp spec fn pattern_error(pattern: Seq<char>) -> Option<Seq<char>>;

/// What an error of the `regex` crate says.
pub uninterp spec fn regex_error_text(error: &regex::Error) -> Seq<char>;

/// Whether `Regex::new` makes a regular expression of a pattern.
pub open spec fn pattern_is_valid(pattern: Seq<char>) -> bool {
    pattern_error(pattern) is None
}

/// The pattern that a regular expression was made of.
pub uninterp spec fn regex_source(regex: &Regex) -> Seq<char>;

/// Whether a regular expression matches somewhere in a text.
pub uninterp spec fn regex_matches(regex: &Regex, text: Seq<char>) -> bool;

/// `Regex::new`: makes a regular expression of a pattern, where the pattern
/// is a valid one and what it makes is not too large. The expression keeps
/// the pattern that it was made of.
#[verifier::external_body]
fn regex_new(pattern: &str) -> (made: Result<Regex, regex::Error>)
    ensures
        match made {
            Ok(regex) => pattern_error(pattern@) is None && regex_source(&regex) == pattern@,
            Err(error) => pattern_error(pattern@) == Some(regex_error_text(&error)),
        },
{
    Regex::new(pattern)
}

/// `regex::Error::to_string`: what an error says.
#[verifier::external_body]
fn regex_error_to_string(error: &regex::Error) -> (text: String)
    ensures
        text@ == regex_error_text(error),
{
    error.to_string()
}

/// `Regex::as_str`: the pattern that a regular expression was made of.
#[verifier::external_body]
fn regex_as_str(regex: &Regex) -> (pattern: &str)
    ensures
        pattern@ == regex_source(regex),
{
    regex.as_str()
}

/// `Regex::is_match`: whether a regular expression matches somewhere in a
/// text.
#[verifier::external_body]
fn regex_is_match(regex: &Regex, text: &str) -> (found: bool)
    ensures
        found == regex_matches(regex, text@),
{
    regex.is_match(text)
}

/// `Regex::clone`: a copy of a regular expression was made of the same
/// pattern and matches the same texts.
pub assume_specification[ <Regex as Clone>::clone ](regex: &Regex) -> (copy: Regex)
    ensures
        regex_source(&copy) == regex_source(regex),
        forall|text: Seq<char>| #[trigger] regex_matches(&copy, text) == regex_matches(regex, text),
;

/// A name, or a pattern that names match.
#[derive(Clone, Debug)]
pub enum Ident {
    Name(String),
    Pattern(Regex),
}

/// An [`Ident`] as a mathematical value: the name, or the pattern that the
/// regular expression was made of.
pub enum IdentView {
    Name(Seq<char>),
    Pattern(Seq<char>),
}

impl View for Ident {
    type V = IdentView;

    open spec fn view(&self) -> IdentView {
        match self {
            Ident::Name(name) => IdentView::Name(name@),
            Ident::Pattern(regex) => IdentView::Pattern(regex_source(regex)),
        }
    }
}

impl PartialEq for Ident {
    fn eq(&self, other: &Ident) -> (same: bool) {
        match (self, other) {
            (Ident::Name(s1), Ident::Name(s2)) => str_eq(s1.as_str(), s2.as_str()),
            (Ident::Pattern(r1), Ident::Pattern(r2)) => str_eq(regex_as_str(r1), regex_as_str(r2)),
            _ => false,
        }
    }
}

impl PartialEqSpecImpl for Ident {
    open spec fn obeys_eq_spec() -> bool {
        true
    }

    open spec fn eq_spec(&self, other: &Ident) -> bool {
        self@ == other@
    }
}

impl Eq for Ident {

}

/// Whether a name holds a character that belongs in a pattern: a dot, a
/// plus sign or an asterisk.
pub open spec fn has_pattern_char(name: Seq<char>) -> bool {
    exists|i: int| 0 <= i < name.len() && is_pattern_char(#[trigger] name[i])
}

/// Whether a character belongs in a pattern.
pub open spec fn is_pattern_char(c: char) -> bool {
    c == '.' || c == '+' || c == '*'
}

/// The text of a table's entry, where the entry is there and is a string.
pub open spec fn text_at(value: Toml, key: Seq<char>) -> Option<Seq<char>> {
    match lookup_path(value, key) {
        Some(Toml::String(text)) => Some(text),
        _ => None,
    }
}

/// The pattern that has to match a name from its first character to its
/// last.
pub open spec fn anchored(pattern: Seq<char>) -> Seq<char> {
    "^"@ + pattern + "$"@
}

/// Why a table names nothing.
#[derive(Clone, Debug, PartialEq, Eq)]
pub enum IdentFailure {
    /// Its pattern is not valid; `error` says why.
    BadPattern { pattern: String, error: String },
    /// Its name holds a character of a pattern: a pattern was meant.
    NameIsPattern,
    /// It has neither a pattern nor a name.
    Nothing,
}

/// An [`IdentFailure`] as a mathematical value.
pub enum IdentFailureView {
    BadPattern { pattern: Seq<char>, error: Seq<char> },
    NameIsPattern,
    Nothing,
}

impl View for IdentFailure {
    type V = IdentFailureView;

    open spec fn view(&self) -> IdentFailureView {
        match self {
            IdentFailure::BadPattern { pattern, error } => IdentFailureView::BadPattern {
                pattern: pattern@,
                error: error@,
            },
            IdentFailure::NameIsPattern => IdentFailureView::NameIsPattern,
            IdentFailure::Nothing => IdentFailureView::Nothing,
        }
    }
}

/// What a table names, or why it names nothing. Its `pattern`, where it
/// has one that is a string, decides alone: it names what the pattern matches
/// as a whole, and nothing where the pattern is not valid. Else its `name`
/// does, where it has one that is a string, unless the name holds a character
/// of a pattern.
pub open spec fn ident_or_failure(value: Toml) -> Result<IdentView, IdentFailureView> {
    match text_at(value, "pattern"@) {
        Some(pattern) => match pattern_error(anchored(pattern)) {
            None => Ok(IdentView::Pattern(anchored(pattern))),
            Some(error) => Err(IdentFailureView::BadPattern { pattern, error }),
        },
        None => match text_at(value, "name"@) {
            Some(name) => if has_pattern_char(name) {
                Err(IdentFailureView::NameIsPattern)
            } else {
                Ok(IdentView::Name(name))
            },
            None => Err(IdentFailureView::Nothing),
        },
    }
}

/// What a table names. Its `pattern`, where it has one that is a string,
/// decides alone: it names what the pattern matches as a whole, or nothing
/// where the pattern is not valid. Else its `name` does, where it has one
/// that is a string and holds no character of a pattern.
pub open spec fn ident_of(value: Toml) -> Option<IdentView> {
    match ident_or_failure(value) {
        Ok(ident) => Some(ident),
        Err(_) => None,
    }
}

fn contains_pattern_char(name: &str) -> (found: bool)
    ensures
        found == has_pattern_char(name@),
{
    let len = name.unicode_len();
    let mut i: usize = 0;
    while i < len
        invariant
            i <= len,
            len == name@.len(),
            forall|j: int| 0 <= j < i ==> !is_pattern_char(#[trigger] name@[j]),
        decreases len - i,
    {
        let c = name.get_char(i);
        if c == '.' || c == '+' || c == '*' {
            return true;
        }
        i += 1;
    }
    false
}

fn text_of<'a>(toml: &'a toml::Value, key: &str) -> (text: Option<&'a str>)
    ensures
        match text {
            Some(s) => text_at(toml_of(toml), key@) == Some(s@),
            None => text_at(toml_of(toml), key@) is None,
        },
{
    match lookup(toml, key) {
        Some(value) => value_as_str(value),
        None => None,
    }
}

impl Ident {
    /// Reads from a table what it names, or why it names nothing.
    pub fn try_parse(toml: &toml::Value) -> (ident: Result<Ident, IdentFailure>)
        ensures
            match ident {
                Ok(i) => ident_or_failure(toml_of(toml)) == Ok::<IdentView, IdentFailureView>(i@),
                Err(e) => ident_or_failure(toml_of(toml)) == Err::<IdentView, IdentFailureView>(e@),
            },
    {
        match text_of(toml, "pattern") {
            Some(s) => {
                let mut pattern = "^".to_owned();
                pattern.append(s);
                pattern.append("$");
                match regex_new(pattern.as_str()) {
                    Ok(regex) => Ok(Ident::Pattern(regex)),
                    Err(error) => Err(
                        IdentFailure::BadPattern {
                            pattern: s.to_owned(),
                            error: regex_error_to_string(&error),
                        },
                    ),
                }
            },
            None => match text_of(toml, "name") {
                Some(name) => {
                    if contains_pattern_char(name) {
                        Err(IdentFailure::NameIsPattern)
                    } else {
                        Ok(Ident::Name(name.to_owned()))
                    }
                },
                None => Err(IdentFailure::Nothing),
            },
        }
    }

    /// Reads from a table what it names. `object_name` and `what` say where
    /// the table stands, for whoever reports a table that names nothing.
    pub fn parse(toml: &toml::Value, object_name: &str, what: &str) -> (ident: Option<Ident>)
        ensures
            match ident {
                Some(i) => ident_of(toml_of(toml)) == Some(i@),
                None => ident_of(toml_of(toml)) is None,
            },
    {
        match Ident::try_parse(toml) {
            Ok(ident) => Some(ident),
            Err(_) => None,
        }
    }

    /// Whether a name is the one meant: it is the name itself, or the
    /// pattern matches in it.
    pub fn is_match(&self, name: &str) -> (found: bool)
        ensures
            found == match self {
                Ident::Name(n) => name@ == n@,
                Ident::Pattern(regex) => regex_matches(regex, name@),
            },
    {
        match self {
            Ident::Name(n) => str_eq(name, n.as_str()),
            Ident::Pattern(regex) => regex_is_match(regex, name),
        }
    }

    /// The name itself; of a pattern only that it is one.
    pub fn to_string(&self) -> (text: String)
        ensures
            text@ == match self {
                Ident::Name(n) => n@,
                Ident::Pattern(_) => "Regex"@,
            },
    {
        match self {
            Ident::Name(name) => name.clone(),
            Ident::Pattern(_) => "Regex".to_owned(),
        }
    }
}

} // verus!
