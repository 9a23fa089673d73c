//! Regular expressions, as far as the crate needs them.

use vstd::prelude::*;

verus! {

/// What the `regex` crate makes of `template` for the leftmost match of
/// `pattern` in `text`, each `$name` in the template replaced by what the
/// group of that name matched; nothing where the pattern is no regular
/// expression or matches nowhere in the text.
pub uninterp spec fn expansion(pattern: Seq<char>, text: Seq<char>, template: Seq<char>) -> Option<
    Seq<char>,
>;

/// Calls `regex::Regex::new`, `Regex::captures` and `Captures::expand`.
///
/// Believed: the result is a function of the three arguments alone.
#[verifier::external_body]
pub(crate) fn expand_match(pattern: &str, text: &str, template: &str) -> (expanded: Option<String>)
    ensures
        expanded.deep_view() == expansion(pattern@, text@, template@),
{
    let captures = regex::Regex::new(pattern).ok()?.captures(text)?;
    let mut expanded = String::new();
    captures.expand(template, &mut expanded);
    Some(expanded)
}

} // verus!
