//! What the library asks of the `regex` crate: whether a pattern matches
//! anywhere in a text.
use vstd::prelude::*;
use crate::text::contains_infix;

verus! {

/// Whether the compiled `pattern` has a match somewhere in `haystack`
/// (`regex::Regex::is_match`).
pub uninterp spec fn regex_matches(pattern: Seq<char>, haystack: Seq<char>) -> bool;

/// `c` stands for itself in a regular expression: an ASCII letter or digit,
/// a space, `:`, `-`, a line feed or a carriage return.
pub open spec fn plain_regex_char(c: char) -> bool {
    ('a' <= c && c <= 'z') || ('A' <= c && c <= 'Z') || ('0' <= c && c <= '9') || c == ' '
        || c == ':' || c == '-' || c == '\n' || c == '\r'
}

/// A short pattern made only of characters that stand for themselves: it
/// matches exactly where its own text occurs.
pub open spec fn plain_pattern(pattern: Seq<char>) -> bool {
    &&& 0 < pattern.len() <= 256
    &&& forall|k: int| 0 <= k < pattern.len() ==> plain_regex_char(#[trigger] pattern[k])
}

/// Compiles `pattern` with `regex::Regex::new` and, when that succeeds, asks
/// `regex::Regex::is_match` about `haystack`; `None` when the pattern does not
/// compile. The contract claims, as the crate's documentation says, that a
/// pattern made of characters without special meaning compiles and matches
/// wherever its text occurs; of other patterns it claims only that the answer
/// is `regex_matches`.
#[verifier::external_body]
pub(crate) fn regex_is_match(pattern: &str, haystack: &str) -> (r: Option<bool>)
    ensures
        plain_pattern(pattern@) ==> r == Some(contains_infix(haystack@, pattern@)),
        r matches Some(b) ==> b == regex_matches(pattern@, haystack@),
{
    match regex::Regex::new(pattern) {
        Ok(re) => Some(re.is_match(haystack)),
        Err(_) => None,
    }
}

} // verus!
