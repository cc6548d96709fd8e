//! What the library asks of `serde_json`: whether a piece of text is a JSON
//! document and whether its value is `null`, whether two documents hold the
//! same value, and the JSON writing of one member of a document.
use vstd::prelude::*;

verus! {

/// What `serde_json::from_str::<serde_json::Value>(text)` gives: none when
/// `text` is not JSON, else whether the value is `null`.
pub uninterp spec fn json_null_test(text: Seq<char>) -> Option<bool>;

/// `text` is a JSON document whose value is not `null`.
pub open spec fn json_non_null(text: Seq<char>) -> bool {
    json_null_test(text) == Some(false)
}

/// `serde_json::from_str::<serde_json::Value>` gives equal values
/// (`serde_json::Value`'s `==`) for the two texts, when both are JSON.
pub uninterp spec fn json_same_value(a: Seq<char>, b: Seq<char>) -> bool;

/// The compact JSON writing (`Display` of `serde_json::Value`) of the member
/// `key` of the document that `text` parses to; none when `text` does not
/// parse or the document has no such member.
pub uninterp spec fn json_member_text(text: Seq<char>, key: Seq<char>) -> Option<Seq<char>>;

/// Calls `serde_json::from_str::<serde_json::Value>` on `text` and tells the
/// three outcomes apart, one arm each: a parse error, `Value::Null`, any other
/// value. The contract claims only that the answer is `json_null_test` of the
/// text; what serde_json accepts as JSON is not stated.
#[verifier::external_body]
pub(crate) fn json_null_test_of(text: &str) -> (r: Option<bool>)
    ensures
        r == json_null_test(text@),
{
    match serde_json::from_str::<serde_json::Value>(text) {
        Ok(serde_json::Value::Null) => Some(true),
        Ok(_) => Some(false),
        Err(_) => None,
    }
}

/// Whether `text` is a JSON document whose value is not `null`: a null
/// document counts as no document.
pub fn parses_as_non_null_json(text: &str) -> (r: bool)
    ensures
        r == json_non_null(text@),
{
    match json_null_test_of(text) {
        Some(is_null) => !is_null,
        None => false,
    }
}

/// Parses both texts with `serde_json::from_str::<serde_json::Value>` and,
/// when both are JSON, compares the values with `serde_json::Value`'s `==`;
/// none when either is not JSON. The contract claims that the answer is there
/// exactly when both texts parse (as `json_null_test` tells) and that it is
/// `json_same_value` of the texts; how serde_json compares values is not
/// stated.
#[verifier::external_body]
pub(crate) fn json_values_equal(a: &str, b: &str) -> (r: Option<bool>)
    ensures
        r is Some <==> (json_null_test(a@) is Some && json_null_test(b@) is Some),
        r matches Some(same) ==> same == json_same_value(a@, b@),
{
    match (serde_json::from_str::<serde_json::Value>(a), serde_json::from_str::<serde_json::Value>(b)) {
        (Ok(x), Ok(y)) => Some(x == y),
        _ => None,
    }
}

/// Parses `text` with `serde_json::from_str::<serde_json::Value>`, looks the
/// member up with `serde_json::Value::get`, and writes it back with its
/// `Display` (compact JSON). The contract claims that the answer is
/// `json_member_text` of the two arguments; which texts parse and how values
/// are written is not stated.
#[verifier::external_body]
pub(crate) fn member_text(text: &str, key: &str) -> (r: Option<String>)
    ensures
        match r {
            Some(t) => json_member_text(text@, key@) == Some(t@),
            None => json_member_text(text@, key@) is None,
        },
{
    match serde_json::from_str::<serde_json::Value>(text) {
        Ok(value) => match value.get(key) {
            Some(member) => Some(member.to_string()),
            None => None,
        },
        Err(_) => None,
    }
}

} // verus!
