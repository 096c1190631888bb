//! JSON values carried through the library.

use vstd::prelude::*;
use crate::text::opt_view;

verus! {

/// `serde_json::Value`, carried as an opaque value.
#[verifier::external_type_specification]
#[verifier::external_body]
pub struct ExJsonValue(serde_json::Value);

/// `<serde_json::Value as Clone>::clone`. `Value` derives `Clone`, so the
/// contract claims that the copy equals the value copied.
#[verifier::external_body]
pub(crate) fn clone_json(v: &serde_json::Value) -> (r: serde_json::Value)
    ensures
        r == *v,
{
    v.clone()
}

/// The value that `serde_json::from_str::<Value>` reads from `text`: `None`
/// where the text is not one JSON document (or nests deeper than the
/// parser's recursion limit).
pub uninterp spec fn json_value_of(text: Seq<char>) -> Option<serde_json::Value>;

/// `serde_json::from_str::<Value>`. The contract claims that its result is a
/// function of the text, named `json_value_of`; what that function is is
/// not stated.
#[verifier::external_body]
pub(crate) fn parse_json(text: &str) -> (r: Option<serde_json::Value>)
    ensures
        r == json_value_of(text@),
{
    serde_json::from_str::<serde_json::Value>(text).ok()
}

/// The text that `serde_json::to_string` writes for a value.
pub uninterp spec fn json_text_of(v: serde_json::Value) -> Seq<char>;

/// `serde_json::to_string` on a value. It reports an error only where a
/// `Serialize` impl fails or a map key is not a string; `Value`'s impl only
/// forwards to the serializer and its map keys are strings, and writing into
/// memory cannot fail, so the contract claims success, with the text named
/// `json_text_of`.
#[verifier::external_body]
pub(crate) fn json_text(v: &serde_json::Value) -> (r: Option<String>)
    ensures
        r is Some,
        r->0@ == json_text_of(*v),
{
    serde_json::to_string(v).ok()
}

/// The text of field `key` of a value, as `Value::get` and then
/// `Value::as_str` find it: `None` when the value is not an object with
/// that field, or the field is not a string.
pub uninterp spec fn json_text_field(v: serde_json::Value, key: Seq<char>) -> Option<Seq<char>>;

/// `Value::get` followed by `Value::as_str`. The contract claims that the
/// result is a function of the value and the key, named `json_text_field`;
/// what that function is is not stated.
#[verifier::external_body]
pub(crate) fn json_str_field(v: &serde_json::Value, key: &str) -> (r: Option<String>)
    ensures
        opt_view(r) == json_text_field(*v, key@),
{
    v.get(key).and_then(serde_json::Value::as_str).map(String::from)
}

} // verus!
