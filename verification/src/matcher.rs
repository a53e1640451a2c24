//! Regular expressions, compiled and run by the `regex` crate.
//!
//! A compiled expression is known here by its language: the set of texts in
//! which it finds a match. Nothing in this crate looks inside a pattern.

use regex::Regex;
use regex::RegexBuilder;
use vstd::prelude::*;

verus! {

/// `regex::Regex`, a compiled regular expression. Nothing inside it is
/// visible here.
#[verifier::external_type_specification]
#[verifier::external_body]
pub struct ExRegex(Regex);

/// The language of a compiled expression: the texts somewhere in which it
/// matches.
pub uninterp spec fn regex_language(re: Regex) -> Set<Seq<char>>;

/// What compiling `pattern` gives, with or without regard to case: the
/// language of the compiled expression, or `None` where the pattern is
/// refused.
pub uninterp spec fn compiled_language(pattern: Seq<char>, case_sensitive: bool) -> Option<
    Set<Seq<char>>,
>;

/// Compiles `pattern` with `RegexBuilder::build`, in single-line mode and
/// with the builder's case flag as given. The builder returns an error for a
/// pattern that is malformed or too large, which is handed on as `None`. The
/// claim: whether it succeeds, and the language of what it returns, depend
/// on the pattern and the flag alone.
#[verifier::external_body]
pub(crate) fn compile_regex(pattern: &str, case_insensitive: bool) -> (r: Option<Regex>)
    ensures
        match r {
            Some(re) => compiled_language(pattern@, !case_insensitive) == Some(regex_language(re)),
            None => compiled_language(pattern@, !case_insensitive) is None,
        },
{
    RegexBuilder::new(pattern).case_insensitive(case_insensitive).multi_line(false).build().ok()
}

/// `Regex::is_match`: true if and only if the expression matches somewhere
/// in `text`. The claim: the answer depends on the expression's language and
/// the text alone.
#[verifier::external_body]
pub(crate) fn regex_is_match(re: &Regex, text: &str) -> (b: bool)
    ensures
        b == regex_language(*re).contains(text@),
{
    re.is_match(text)
}

/// `Regex::clone`: a second handle to the same compiled expression. The
/// claim: the copy has the language of the expression it was made from.
#[verifier::external_body]
pub(crate) fn clone_regex(re: &Regex) -> (r: Regex)
    ensures
        regex_language(r) == regex_language(*re),
{
    re.clone()
}

} // verus!
