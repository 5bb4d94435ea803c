use vstd::prelude::*;
use fuzzy_matcher::FuzzyMatcher;
use grep::matcher::Matcher;

verus! {

// ---------------------------------------------------------------------------
// The regex engine, behind trusted wrappers.
//
// A query string is compiled as a regular expression; compiling, matching
// and locating the first match are pure functions of the query and of the
// searched text, so each result is given a name that the wrappers' contracts
// share.
// ---------------------------------------------------------------------------

/// Whether the query compiles as a regular expression.
pub uninterp spec fn regex_valid(q: Seq<char>) -> bool;

/// Whether the compiled query matches somewhere in the text (meaningful only
/// when the query is valid).
pub uninterp spec fn regex_match(q: Seq<char>, t: Seq<char>) -> bool;

/// The text split around the first match of the query: the parts before,
/// inside and after the match, when the match lies on character boundaries;
/// `None` when there is no such split.
pub uninterp spec fn regex_split(q: Seq<char>, t: Seq<char>) -> Option<
    (Seq<char>, Seq<char>, Seq<char>),
>;

/// Relies on grep's RegexMatcher::new: the query compiles or is rejected,
/// deterministically in the query alone.
#[verifier::external_body]
pub fn regex_compiles(q: &str) -> (r: bool)
    ensures
        r == regex_valid(q@),
{
    grep::regex::RegexMatcher::new(q).is_ok()
}

/// Relies on grep's RegexMatcher::new and Matcher::is_match: true exactly
/// when the query compiles and matches somewhere in the text; RegexMatcher's
/// matching never errors.
#[verifier::external_body]
pub fn line_matches(q: &str, t: &str) -> (r: bool)
    ensures
        r == (regex_valid(q@) && regex_match(q@, t@)),
{
    match grep::regex::RegexMatcher::new(q) {
        Ok(m) => m.is_match(t.as_bytes()).unwrap_or(false),
        Err(_) => false,
    }
}

/// Relies on grep's RegexMatcher::new and Matcher::find: the first match's
/// byte range, turned into the three surrounding text pieces. `find` reports
/// a range exactly when `is_match` holds, and the range lies within the
/// text, so the pieces put back together give the text; when the range does
/// not fall on character boundaries no split is produced.
#[verifier::external_body]
pub fn split_first_match(q: &str, t: &str) -> (r: Option<(String, String, String)>)
    ensures
        (r is Some) == (regex_valid(q@) && regex_split(q@, t@) is Some),
        r matches Some(p) ==> regex_match(q@, t@) && regex_split(q@, t@) == Some(
            (p.0@, p.1@, p.2@),
        ) && p.0@ + p.1@ + p.2@ == t@,
        regex_valid(q@) && !regex_match(q@, t@) ==> r is None,
{
    let m = grep::regex::RegexMatcher::new(q).ok()?;
    let found = m.find(t.as_bytes()).ok().flatten()?;
    let pre = t.get(..found.start())?;
    let mid = t.get(found.start()..found.end())?;
    let post = t.get(found.end()..)?;
    Some((pre.to_string(), mid.to_string(), post.to_string()))
}

// ---------------------------------------------------------------------------
// Fuzzy filename matching, behind a trusted wrapper.
// ---------------------------------------------------------------------------

/// Whether the query fuzzily matches the path, after the skim algorithm with
/// its default settings.
pub uninterp spec fn fuzzy_matches(path: Seq<char>, q: Seq<char>) -> bool;

/// Relies on SkimMatcherV2::fuzzy_match with default settings: a pure
/// function of the path and the query, `Some` exactly when the query
/// fuzzily matches.
#[verifier::external_body]
pub fn fuzzy_match_path(path: &str, q: &str) -> (r: bool)
    ensures
        r == fuzzy_matches(path@, q@),
{
    fuzzy_matcher::skim::SkimMatcherV2::default().fuzzy_match(path, q).is_some()
}

} // verus!
