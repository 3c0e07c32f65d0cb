//! The functions of other crates and of the standard library that the agent's
//! logic calls, with what is taken for granted about each.

use crate::json::{Json, JsonView};
use crate::text::lower;
use serde_json::Value;
use vstd::prelude::*;

verus! {

/// `serde_json`'s own form of a JSON value.
#[verifier::external_type_specification]
#[verifier::external_body]
pub struct ExValue(serde_json::Value);

/// A [`serde_json::Value`] as a [`Json`], node by node: an unsigned, a negative
/// or another number, the last by its text.
#[verifier::external_body]
pub(crate) fn json_of_value(v: serde_json::Value) -> Json {
    match v {
        Value::Null => Json::Null,
        Value::Bool(b) => Json::Bool(b),
        Value::Number(n) => match (n.as_u64(), n.as_i64()) {
            (Some(u), _) => Json::Unsigned(u),
            (_, Some(i)) => Json::Negative(i),
            _ => Json::Decimal(n.to_string()),
        },
        Value::String(s) => Json::Str(s),
        Value::Array(xs) => Json::Array(xs.into_iter().map(json_of_value).collect()),
        Value::Object(es) => Json::Object(
            es.into_iter().map(|(k, x)| (k, json_of_value(x))).collect(),
        ),
    }
}

/// A [`Json`] as a [`serde_json::Value`], node by node. Of members with one key
/// the last stays, and a decimal whose text is no number becomes null: such are
/// the values that the target can hold.
#[verifier::external_body]
pub(crate) fn value_of_json(v: &Json) -> serde_json::Value {
    match v {
        Json::Null => Value::Null,
        Json::Bool(b) => Value::Bool(*b),
        Json::Unsigned(n) => Value::from(*n),
        Json::Negative(n) => Value::from(*n),
        Json::Decimal(s) => Value::from(s.parse().ok().and_then(serde_json::Number::from_f64)),
        Json::Str(s) => Value::from(s.as_str()),
        Json::Array(xs) => xs.iter().map(value_of_json).collect(),
        Json::Object(es) => es.iter().map(|(k, x)| (k.clone(), value_of_json(x))).collect(),
    }
}

/// The value that `serde_json::from_str` reads from a text, if it is JSON.
pub uninterp spec fn json_of(text: Seq<char>) -> Option<JsonView>;

/// `serde_json::from_str` into a [`serde_json::Value`]: a function of the text
/// alone. Which texts are JSON, and which value they stand for, is left to it.
#[verifier::external_body]
pub(crate) fn parse_json(text: &str) -> (r: Option<Json>)
    ensures
        r.deep_view() == json_of(text@),
{
    serde_json::from_str(text).ok().map(json_of_value)
}

/// What `serde_json::to_string` writes for a value.
pub uninterp spec fn json_text(v: JsonView) -> Seq<char>;

/// `serde_json::to_string` on a [`serde_json::Value`], which never fails: a
/// function of the value alone.
#[verifier::external_body]
pub(crate) fn write_json(v: &Json) -> (r: String)
    ensures
        r@ == json_text(v.deep_view()),
{
    serde_json::to_string(&value_of_json(v)).expect("a JSON value is always serializable")
}

/// What `serde_json::to_string_pretty` writes for a value.
pub uninterp spec fn json_pretty_text(v: JsonView) -> Seq<char>;

/// `serde_json::to_string_pretty` on a [`serde_json::Value`], which never fails:
/// a function of the value alone.
#[verifier::external_body]
pub(crate) fn write_pretty_json(v: &Json) -> (r: String)
    ensures
        r@ == json_pretty_text(v.deep_view()),
{
    serde_json::to_string_pretty(&value_of_json(v)).expect("a JSON value is always serializable")
}

/// What `{:?}` of `std::fmt` makes of a string.
pub uninterp spec fn debug_quoted(s: Seq<char>) -> Seq<char>;

/// `format!` with `{:?}` on a string, the text between quotes with its special
/// characters escaped: a function of the text alone.
#[verifier::external_body]
pub(crate) fn debug_quote(s: &str) -> (r: String)
    ensures
        r@ == debug_quoted(s@),
{
    format!("{s:?}")
}

/// What `str::to_lowercase` makes of a string.
pub uninterp spec fn lowercased(s: Seq<char>) -> Seq<char>;

/// `str::to_lowercase`, by the Unicode property: a function of the text alone.
#[verifier::external_body]
pub(crate) fn lowercase(s: &str) -> (r: String)
    ensures
        r@ == lowercased(s@),
{
    s.to_lowercase()
}

/// The 32-bit xxHash of bytes under a seed.
pub uninterp spec fn xxh32_of(bytes: Seq<u8>, seed: u32) -> u32;

/// `xxhash_rust::xxh32::xxh32`: a function of the bytes and the seed.
#[verifier::external_body]
pub(crate) fn xxh32(bytes: &[u8], seed: u32) -> (r: u32)
    ensures
        r == xxh32_of(bytes@, seed),
{
    xxhash_rust::xxh32::xxh32(bytes, seed)
}

/// `uuid::Uuid::new_v4`, rendered by its `Display`: a random identifier of 36
/// characters.
#[verifier::external_body]
pub(crate) fn fresh_id() -> (r: String)
    ensures
        r@.len() == 36,
{
    uuid::Uuid::new_v4().to_string()
}

/// `chrono::Utc::now`, in seconds since the epoch. Nothing is known of the
/// time it reads.
#[verifier::external_body]
pub(crate) fn now_seconds() -> i64 {
    chrono::Utc::now().timestamp()
}

/// A character that may stand in an HTTP header name.
pub open spec fn is_header_name_char(c: char) -> bool {
    ||| '0' <= c <= '9'
    ||| 'a' <= c <= 'z'
    ||| 'A' <= c <= 'Z'
    ||| c == '!' || c == '#' || c == '$' || c == '%' || c == '&' || c == '\''
    ||| c == '*' || c == '+' || c == '-' || c == '.' || c == '^' || c == '_'
    ||| c == '`' || c == '|' || c == '~'
}

/// An HTTP header name: one to 65535 such characters.
pub open spec fn header_name_ok(s: Seq<char>) -> bool {
    &&& 0 < s.len() <= 65535
    &&& forall|i: int| 0 <= i < s.len() ==> is_header_name_char(#[trigger] s[i])
}

/// An HTTP header value: no control character but the tab.
pub open spec fn header_value_ok(s: Seq<char>) -> bool {
    forall|i: int|
        0 <= i < s.len() ==> (#[trigger] s[i] == '\t' || (s[i] as u32 >= 32 && s[i] as u32 != 127))
}

/// The error of `http::HeaderName::from_bytes`.
#[verifier::external_type_specification]
#[verifier::external_body]
pub struct ExInvalidHeaderName(http::header::InvalidHeaderName);

/// The error of `http::HeaderValue::from_str`.
#[verifier::external_type_specification]
#[verifier::external_body]
pub struct ExInvalidHeaderValue(http::header::InvalidHeaderValue);

/// `http::HeaderName::from_bytes`: accepts the characters of a token, at most
/// 65535 of them, and gives them in lower case.
#[verifier::external_body]
pub(crate) fn parse_header_name(name: &str) -> (r: Result<
    String,
    http::header::InvalidHeaderName,
>)
    ensures
        match r {
            Ok(n) => header_name_ok(name@) && n@ == lower(name@),
            Err(_) => !header_name_ok(name@),
        },
{
    http::HeaderName::from_bytes(name.as_bytes()).map(|n| n.as_str().to_owned())
}

/// `http::HeaderValue::from_str`: accepts text without control characters other
/// than the tab, and keeps it.
#[verifier::external_body]
pub(crate) fn parse_header_value(value: &str) -> (r: Result<
    String,
    http::header::InvalidHeaderValue,
>)
    ensures
        match r {
            Ok(v) => header_value_ok(value@) && v@ == value@,
            Err(_) => !header_value_ok(value@),
        },
{
    http::HeaderValue::from_str(value).map(
        |v| String::from_utf8_lossy(v.as_bytes()).into_owned(),
    )
}

/// The `Display` text of `http::header::InvalidHeaderName`, which is always the
/// same.
#[verifier::external_body]
pub(crate) fn header_name_error_text(e: &http::header::InvalidHeaderName) -> (r: String)
    ensures
        r@ == "invalid HTTP header name"@,
{
    e.to_string()
}

/// The `Display` text of `http::header::InvalidHeaderValue`, which is always the
/// same.
#[verifier::external_body]
pub(crate) fn header_value_error_text(e: &http::header::InvalidHeaderValue) -> (r: String)
    ensures
        r@ == "failed to parse header value"@,
{
    e.to_string()
}

} // verus!
