//! Regular-expression search over text, done by the `regex` crate.

use vstd::prelude::*;
use regex::{Error, Regex};
use crate::utils::text::width::char_span;

verus! {

#[verifier::external_type_specification]
#[verifier::external_body]
pub struct ExRegex(Regex);

#[verifier::external_type_specification]
#[verifier::external_body]
pub struct ExRegexError(Error);

/// Whether `Regex::new` accepts a pattern (it is well formed and within the
/// default size limit).
pub uninterp spec fn regex_valid(pattern: Seq<char>) -> bool;

/// What `Regex::find` gives for a pattern and a text: the byte range and the
/// text of the leftmost-first match, if any.
pub uninterp spec fn regex_first_match(pattern: Seq<char>, text: Seq<char>) -> Option<
    (usize, usize, Seq<char>),
>;

/// What `Regex::find_iter` yields for a pattern and a text: the byte ranges
/// of the successive non-overlapping matches.
pub uninterp spec fn regex_all_matches(pattern: Seq<char>, text: Seq<char>) -> Seq<(usize, usize)>;

/// A regular expression together with the pattern it was compiled from.
pub struct CompiledRegex {
    pattern: String,
    regex: Regex,
}

impl CompiledRegex {
    /// The pattern the expression was compiled from.
    pub closed spec fn pattern_of(&self) -> Seq<char> {
        self.pattern@
    }
}

/// `Regex::new`: compiles `pattern`, failing exactly when the pattern is
/// not a valid expression (or too large).
#[verifier::external_body]
pub fn compile_regex(pattern: &str) -> (r: Result<CompiledRegex, Error>)
    ensures
        r is Ok <==> regex_valid(pattern@),
        r matches Ok(c) ==> c.pattern_of() == pattern@,
{
    match Regex::new(pattern) {
        Ok(regex) => Ok(CompiledRegex { pattern: pattern.to_string(), regex }),
        Err(e) => Err(e),
    }
}

/// The message of a `regex::Error` (its `Display` text), which tells why a
/// pattern was refused; nothing is stated of its wording.
#[verifier::external_body]
pub fn regex_error_text(e: &Error) -> (r: String) {
    e.to_string()
}

/// `Regex::find`: the leftmost-first match of `re` in `text`, as its byte
/// range and matched text. As the crate documents, the range starts and
/// ends on character boundaries and the matched text is what it covers.
#[verifier::external_body]
pub fn regex_find(re: &CompiledRegex, text: &str) -> (r: Option<(usize, usize, String)>)
    ensures
        match r {
            Some((s, e, m)) => regex_first_match(re.pattern_of(), text@) == Some((s, e, m@)),
            None => regex_first_match(re.pattern_of(), text@) is None,
        },
        r matches Some((s, e, m)) ==> exists|a: int, b: int|
            #[trigger] char_span(text@, s, e, a, b) && m@ == text@.subrange(a, b),
{
    re.regex.find(text).map(|m| (m.start(), m.end(), m.as_str().to_string()))
}

/// `Regex::find_iter`: byte ranges of the successive non-overlapping matches
/// of `re` in `text`; as the crate documents, each starts and ends on
/// character boundaries.
#[verifier::external_body]
pub fn regex_find_all(re: &CompiledRegex, text: &str) -> (r: Vec<(usize, usize)>)
    ensures
        r@ == regex_all_matches(re.pattern_of(), text@),
        forall|i: int|
            0 <= i < r@.len() ==> exists|a: int, b: int|
                char_span(text@, #[trigger] r@[i].0, r@[i].1, a, b),
{
    re.regex.find_iter(text).map(|m| (m.start(), m.end())).collect()
}

} // verus!
