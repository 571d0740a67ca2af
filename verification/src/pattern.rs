//! Regular expressions: the compiled pattern of a monitor and what it finds.
use vstd::prelude::*;

verus! {

/// A compiled regular expression of the `regex` crate, held and handed on.
#[verifier::external_type_specification]
#[verifier::external_body]
pub struct ExRegex(regex::Regex);

/// The pattern a regex was compiled from: what `Regex::as_str` returns.
pub uninterp spec fn pattern_source(re: regex::Regex) -> Seq<char>;

/// The capture groups of a regex in the order of their opening parentheses,
/// each with its name if it has one: what `Regex::capture_names` yields.
pub uninterp spec fn group_names(re: regex::Regex) -> Seq<Option<Seq<char>>>;

/// The successive non-overlapping matches of a regex in a text, in text
/// order, each as the texts of its capture groups (`None` for a group that
/// took no part): what `Regex::captures_iter` yields.
pub uninterp spec fn match_groups(re: regex::Regex, text: Seq<char>) -> Seq<
    Seq<Option<Seq<char>>>,
>;

/// The pattern read in multi-line mode, where `^` and `$` match at line
/// breaks: a chunk may hold more than one line.
pub open spec fn multiline(pattern: Seq<char>) -> Seq<char> {
    "(?m)"@ + pattern
}

/// Calls `Regex::new`. Whether a pattern compiles is left open (the size
/// limit of a compiled program is the crate's affair); a regex that comes
/// back was compiled from this pattern. An error comes back as its text.
#[verifier::external_body]
pub(crate) fn compile(pattern: &str) -> (compiled: Result<regex::Regex, String>)
    ensures
        compiled matches Ok(re) ==> pattern_source(re) == pattern@,
{
    regex::Regex::new(pattern).map_err(|e| e.to_string())
}

/// Calls `Regex::capture_names` and copies each name. The contract only
/// names the result.
#[verifier::external_body]
pub(crate) fn capture_names(re: &regex::Regex) -> (names: Vec<Option<String>>)
    ensures
        names.deep_view() == group_names(*re),
{
    re.capture_names().map(|n| n.map(str::to_owned)).collect()
}

/// Calls `Regex::captures_iter` and copies, match by match, the text of each
/// group that `Captures::iter` yields. The contract only names the result.
#[verifier::external_body]
pub(crate) fn captures(re: &regex::Regex, text: &str) -> (found: Vec<Vec<Option<String>>>)
    ensures
        found.deep_view() == match_groups(*re, text@),
{
    re.captures_iter(text).map(
        |c| c.iter().map(|g| g.map(|m| m.as_str().to_owned())).collect(),
    ).collect()
}

/// Compiles a monitor's pattern in multi-line mode. Whether it compiles is
/// the regex compiler's word, and so is the text of its complaint; a regex
/// that comes back was compiled from the pattern with the multi-line flag
/// before it.
pub fn compile_multiline(pattern: &str) -> (compiled: Result<regex::Regex, String>)
    ensures
        compiled matches Ok(re) ==> pattern_source(re) == multiline(pattern@),
{
    let mut source = "(?m)".to_owned();
    source.append(pattern);
    compile(source.as_str())
}

} // verus!
