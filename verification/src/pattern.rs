//! Regular expressions.
use vstd::prelude::*;

verus! {

/// A compiled expression of regex. `regex_source` names the pattern that it was made from.
#[verifier::external_type_specification]
#[verifier::external_body]
pub struct ExRegex(regex::Regex);

/// An error of regex, carried through.
#[verifier::external_type_specification]
#[verifier::external_body]
pub struct ExRegexError(regex::Error);

/// An error of regex in words.
pub uninterp spec fn regex_reason(e: regex::Error) -> Seq<char>;

/// `to_string` of an error of regex: its reason in words.
#[verifier::external_body]
pub(crate) fn reason(e: &regex::Error) -> (r: String)
    ensures
        r@ == regex_reason(*e),
{
    e.to_string()
}

/// The pattern of a compiled expression, which `Regex::as_str` gives.
pub uninterp spec fn regex_source(re: regex::Regex) -> Seq<char>;

/// The pattern can be compiled.
pub uninterp spec fn regex_compiles(pattern: Seq<char>) -> bool;

/// The pattern matches somewhere in the text.
pub uninterp spec fn regex_accepts(pattern: Seq<char>, text: Seq<char>) -> bool;

/// `Regex::new` of regex: succeeds where the pattern compiles, and the expression is that of the
/// pattern.
#[verifier::external_body]
pub(crate) fn compile(pattern: &str) -> (r: Result<regex::Regex, regex::Error>)
    ensures
        r is Ok <==> regex_compiles(pattern@),
        r matches Ok(re) ==> regex_source(re) == pattern@,
{
    regex::Regex::new(pattern)
}

/// `Regex::is_match` of regex.
#[verifier::external_body]
pub(crate) fn matches_text(re: &regex::Regex, text: &str) -> (r: bool)
    ensures
        r == regex_accepts(regex_source(*re), text@),
{
    re.is_match(text)
}

} // verus!
