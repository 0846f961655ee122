//! Regular expressions, by way of the `regex` crate.
//!
//! Branch and tag names are classified by patterns that the configuration
//! brings, and labels and versions are made from templates that refer to the
//! groups a pattern captured. What a pattern matches and what a template
//! expands to is the `regex` crate's business. This module gives those
//! results names, so that the rest of the library can say exactly what it
//! does with them, and holds the few calls into the crate. Nothing here is
//! proved: the contracts of the three functions below are taken on trust.

use vstd::prelude::*;

verus! {

/// Whether `regex::Regex::new` accepts `pattern`.
pub uninterp spec fn pattern_is_valid(pattern: Seq<char>) -> bool;

/// Whether the regular expression `pattern` has a match somewhere in `text`,
/// as `regex::Regex::is_match` tells it. A pattern that is not valid matches
/// nothing.
pub uninterp spec fn pattern_matches(pattern: Seq<char>, text: Seq<char>) -> bool;

/// What `regex::Captures::expand` writes for `template`, given the groups
/// that the first match of `pattern` in `text` captured: `template` with each
/// `$name`, `${name}` and `$number` replaced by what that group matched, or
/// by nothing where there is no such group.
pub uninterp spec fn expansion(pattern: Seq<char>, text: Seq<char>, template: Seq<char>) -> Seq<
    char,
>;

/// Tells whether `pattern` is a regular expression that `regex::Regex::new`
/// compiles.
///
/// Trusted: the result is that of `Regex::new(pattern).is_ok()`, which
/// depends on `pattern` alone.
#[verifier::external_body]
pub(crate) fn compiles(pattern: &str) -> (valid: bool)
    ensures
        valid == pattern_is_valid(pattern@),
{
    regex::Regex::new(pattern).is_ok()
}

/// Tells whether `pattern` matches somewhere in `text`.
///
/// Trusted: the result is that of `Regex::is_match` on the compiled
/// `pattern`, and `false` where `pattern` does not compile. It depends on
/// `pattern` and `text` alone.
#[verifier::external_body]
pub(crate) fn is_match(pattern: &str, text: &str) -> (found: bool)
    ensures
        found == pattern_matches(pattern@, text@),
{
    match regex::Regex::new(pattern) {
        Ok(compiled) => compiled.is_match(text),
        Err(_) => false,
    }
}

/// Expands `template` with the groups of the first match of `pattern` in
/// `text`; `None` where there is no match.
///
/// Trusted: `Regex::captures` finds a match exactly where `Regex::is_match`
/// tells of one, and the text is what `Captures::expand` appends to an empty
/// string. It depends on the three arguments alone.
#[verifier::external_body]
pub(crate) fn expand(pattern: &str, text: &str, template: &str) -> (expanded: Option<String>)
    ensures
        expanded is Some <==> pattern_matches(pattern@, text@),
        expanded matches Some(written) ==> written@ == expansion(pattern@, text@, template@),
{
    let compiled = regex::Regex::new(pattern).ok()?;
    let captures = compiled.captures(text)?;
    let mut written = String::new();
    captures.expand(template, &mut written);
    Some(written)
}

} // verus!
