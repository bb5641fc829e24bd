//! The type-to-filter query: a case-insensitive regular expression, or plain
//! text while the query is no valid expression.

use vstd::prelude::*;
use crate::text::{contains_text, lowercase, string_from, text_contains};

verus! {

/// A compiled expression of the `regex` crate.
#[verifier::external_type_specification]
#[verifier::external_body]
pub struct ExRegex(regex::Regex);

/// Whether the `regex` crate accepts a pattern, compiled case-insensitively
/// and with its default limits.
pub uninterp spec fn regex_valid(pattern: Seq<char>) -> bool;

/// Whether a valid pattern, compiled case-insensitively, matches somewhere in
/// a text.
pub uninterp spec fn regex_matches(pattern: Seq<char>, text: Seq<char>) -> bool;

/// A compiled pattern together with its text. Only `compile_pattern` makes one.
pub struct CompiledPattern {
    re: regex::Regex,
    pattern: String,
}

impl CompiledPattern {
    /// The text that the pattern was compiled from.
    pub closed spec fn pattern(&self) -> Seq<char> {
        self.pattern@
    }
}

/// `regex::RegexBuilder::build` with `case_insensitive(true)`: there is a
/// compiled pattern exactly where the crate accepts the text, and it is that
/// of the text.
#[verifier::external_body]
fn compile_pattern(pattern: &str) -> (r: Option<CompiledPattern>)
    ensures
        r is Some == regex_valid(pattern@),
        r matches Some(c) ==> c.pattern() == pattern@,
{
    match regex::RegexBuilder::new(pattern).case_insensitive(true).build() {
        Ok(re) => Some(CompiledPattern { re, pattern: pattern.to_string() }),
        Err(_) => None,
    }
}

/// `regex::Regex::is_match` on the expression compiled from the pattern: whether
/// there is a match anywhere in the text.
#[verifier::external_body]
fn pattern_matches(c: &CompiledPattern, text: &str) -> (r: bool)
    ensures
        r == regex_matches(c.pattern(), text@),
{
    c.re.is_match(text)
}

/// Whether `needle` occurs in `hay` when case is ignored.
pub open spec fn contains_ignoring_case(hay: Seq<char>, needle: Seq<char>) -> bool {
    contains_text(lowercase(hay), lowercase(needle))
}

/// Whether a name passes a filter, given what the expression decides: whether
/// the filter is a valid one, and whether it matches.
pub open spec fn passes_with(filter: Seq<char>, name: Seq<char>, valid: bool, found: bool) -> bool {
    if filter.len() == 0 {
        true
    } else if valid {
        found
    } else {
        contains_ignoring_case(name, filter)
    }
}

/// Whether a name passes a filter.
pub open spec fn passes_filter(filter: Seq<char>, name: Seq<char>) -> bool {
    passes_with(filter, name, regex_valid(filter), regex_matches(filter, name))
}

/// Whether a name passes a filter, given what the expression decided: `None`
/// where the filter is no valid expression.
pub fn decide_filter(filter: &str, name: &str, outcome: Option<bool>) -> (r: bool)
    ensures
        r == passes_with(filter@, name@, outcome is Some, outcome == Some(true)),
{
    if filter.is_empty() {
        return true;
    }
    match outcome {
        Some(found) => found,
        None => contains_folded(name, filter),
    }
}

/// Whether `needle` occurs in `hay` when case is ignored.
pub fn contains_folded(hay: &str, needle: &str) -> (r: bool)
    ensures
        r == contains_ignoring_case(hay@, needle@),
{
    let h = hay.to_lowercase();
    let n = needle.to_lowercase();
    text_contains(h.as_str(), n.as_str())
}

/// A filter made ready to test many names.
pub struct NameFilter {
    filter: String,
    compiled: Option<CompiledPattern>,
}

impl NameFilter {
    /// The filter's text.
    pub closed spec fn filter(&self) -> Seq<char> {
        self.filter@
    }

    /// The prepared parts belong to the filter's text.
    pub closed spec fn wf(&self) -> bool {
        &&& self.compiled is Some == (self.filter@.len() > 0 && regex_valid(self.filter@))
        &&& self.compiled matches Some(c) ==> c.pattern() == self.filter@
    }

    pub fn new(filter: &str) -> (r: NameFilter)
        ensures
            r.wf(),
            r.filter() == filter@,
    {
        let compiled = if filter.is_empty() {
            None
        } else {
            compile_pattern(filter)
        };
        NameFilter { filter: string_from(filter), compiled }
    }

    /// Whether a name passes the filter.
    pub fn passes(&self, name: &str) -> (r: bool)
        requires
            self.wf(),
        ensures
            r == passes_filter(self.filter(), name@),
    {
        let outcome: Option<bool> = match &self.compiled {
            Some(c) => Some(pattern_matches(c, name)),
            None => None,
        };
        decide_filter(self.filter.as_str(), name, outcome)
    }
}

} // verus!
