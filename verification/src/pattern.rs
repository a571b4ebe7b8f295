use regex::Regex;
use vstd::prelude::*;

verus! {

/// What the `regex` crate finds when it compiles `pattern` with `Regex::new`
/// and searches `text` with `Regex::captures`: nothing where the pattern is
/// refused or does not match anywhere in the text; otherwise the text of
/// every capture group of the leftmost match, group 0 (the whole match)
/// first, with `None` for a group that took no part in the match.
pub uninterp spec fn regex_captures(pattern: Seq<char>, text: Seq<char>) -> Option<
    Seq<Option<Seq<char>>>,
>;

/// Runs `Regex::new` on `pattern` and `Regex::captures` on `text`, and copies
/// the text of each group out of the `Captures` value. Nothing is proved of
/// the engine: the result is only known to be `regex_captures` of the two
/// texts.
#[verifier::external_body]
pub(crate) fn captures(pattern: &str, text: &str) -> (groups: Option<Vec<Option<String>>>)
    ensures
        groups.deep_view() == regex_captures(pattern@, text@),
{
    let engine = Regex::new(pattern).ok()?;
    let found = engine.captures(text)?;
    Some(found.iter().map(|m| m.map(|m| m.as_str().to_string())).collect())
}

/// Whether `pattern` matches somewhere in `text`.
pub open spec fn pattern_matches(pattern: Seq<char>, text: Seq<char>) -> bool {
    regex_captures(pattern, text) is Some
}

/// Whether `pattern` matches somewhere in `text`.
pub fn is_match(pattern: &str, text: &str) -> (found: bool)
    ensures
        found == pattern_matches(pattern@, text@),
{
    captures(pattern, text).is_some()
}

} // verus!
