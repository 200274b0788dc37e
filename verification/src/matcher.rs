//! The multi-pattern keyword matcher: a thin, specified layer over
//! `aho_corasick::AhoCorasick`.
//!
//! A matcher is compiled once from the list of disallowed keywords and then
//! tests, in a single pass, whether any keyword occurs as a substring of a
//! matching key. The matcher value itself is opaque; `matcher_patterns`
//! names the pattern list it was compiled from, and every contract over a
//! matcher speaks of that list.

use aho_corasick::AhoCorasick;
use vstd::prelude::*;

verus! {

#[verifier::external_type_specification]
#[verifier::external_body]
pub struct ExAhoCorasick(AhoCorasick);

/// The list of patterns a matcher was compiled from, as character sequences.
pub uninterp spec fn matcher_patterns(m: AhoCorasick) -> Seq<Seq<char>>;

/// Whether a matcher compiles from the given pattern list.
/// `aho_corasick::AhoCorasick::new` is deterministic in its patterns — it
/// fails only at internal size limits of the automaton — so its success is
/// a function of the pattern list alone.
pub uninterp spec fn matcher_builds(pats: Seq<Seq<char>>) -> bool;

/// `pat` occurs in `text` starting at position `k`.
pub open spec fn is_substring_at(pat: Seq<char>, text: Seq<char>, k: int) -> bool {
    0 <= k && k + pat.len() <= text.len() && text.subrange(k, k + pat.len()) == pat
}

/// `pat` occurs somewhere in `text` as a contiguous substring.
pub open spec fn is_substring(pat: Seq<char>, text: Seq<char>) -> bool {
    exists|k: int| is_substring_at(pat, text, k)
}

/// Some pattern of `pats` occurs in `text` as a contiguous substring.
/// With an empty pattern list this is false: an empty keyword set matches
/// nothing.
pub open spec fn matches_any(pats: Seq<Seq<char>>, text: Seq<char>) -> bool {
    exists|i: int| 0 <= i < pats.len() && is_substring(pats[i], text)
}

/// Relies on `aho_corasick::AhoCorasick::new`: on success the returned
/// automaton is compiled from exactly the given patterns, with the default
/// (standard, unanchored) match semantics. On failure the build error is
/// rendered as its message.
#[verifier::external_body]
pub(crate) fn build_matcher(patterns: &Vec<String>) -> (r: Result<AhoCorasick, String>)
    ensures
        r is Ok <==> matcher_builds(patterns.deep_view()),
        r matches Ok(m) ==> matcher_patterns(m) == patterns.deep_view(),
{
    match AhoCorasick::new(patterns) {
        Ok(m) => Ok(m),
        Err(e) => Err(e.to_string()),
    }
}

/// Relies on `aho_corasick::AhoCorasick::is_match`: true if and only if some
/// pattern occurs in the haystack. The crate matches over the UTF-8 bytes of
/// the haystack; since a valid UTF-8 pattern occurs in valid UTF-8 text only
/// at character boundaries, that is byte-for-byte the same as a substring of
/// the character sequence. A matcher built with the default configuration
/// (as every matcher of this crate is) supports the unanchored search this
/// performs.
#[verifier::external_body]
pub(crate) fn matcher_is_match(m: &AhoCorasick, text: &str) -> (r: bool)
    ensures
        r == matches_any(matcher_patterns(*m), text@),
{
    m.is_match(text)
}

/// Relies on `aho_corasick::AhoCorasick::patterns_len`: the number of
/// patterns the automaton was compiled from.
#[verifier::external_body]
pub(crate) fn matcher_patterns_len(m: &AhoCorasick) -> (n: usize)
    ensures
        n == matcher_patterns(*m).len(),
{
    m.patterns_len()
}

} // verus!
