//! The crate's only window onto upstream JSON text: three trusted wrappers
//! over the `json` crate, each naming its result with an uninterpreted spec
//! function, so that every caller's contract is exact in those names.
use vstd::prelude::*;

verus! {

/// What `json::parse(s)` followed by indexing with `key` and `as_str` yields:
/// the member's text if `s` is a JSON object whose member `key` is a string.
pub uninterp spec fn str_field_of(s: Seq<char>, key: Seq<char>) -> Option<Seq<char>>;

/// As [`str_field_of`], but through `as_u32`: the member's numeric value if
/// it is a number that fits in 32 bits.
pub uninterp spec fn u32_field_of(s: Seq<char>, key: Seq<char>) -> Option<u32>;

/// As [`str_field_of`], but through `dump`: the member re-serialized as JSON
/// text, if `s` parses and has such a member.
pub uninterp spec fn object_field_of(s: Seq<char>, key: Seq<char>) -> Option<Seq<char>>;

/// Relies on json::parse, JsonValue's Index by &str, and JsonValue::as_str:
/// the string member `key` of the JSON object `s`, if there is one.
#[verifier::external_body]
pub fn json_str_field(s: &str, key: &str) -> (r: Option<String>)
    ensures
        match r {
            Some(v) => str_field_of(s@, key@) == Some(v@),
            None => str_field_of(s@, key@) is None,
        },
{
    match json::parse(s) {
        Ok(parsed) => parsed[key].as_str().map(|v| v.to_owned()),
        Err(_) => None,
    }
}

/// Relies on json::parse, JsonValue's Index by &str, and JsonValue::as_u32:
/// the numeric member `key` of the JSON object `s`, if there is one and it
/// fits.
#[verifier::external_body]
pub fn json_u32_field(s: &str, key: &str) -> (r: Option<u32>)
    ensures
        r == u32_field_of(s@, key@),
{
    match json::parse(s) {
        Ok(parsed) => parsed[key].as_u32(),
        Err(_) => None,
    }
}

/// Relies on json::parse, JsonValue's Index by &str, JsonValue::is_null and
/// JsonValue::dump: the member `key` of the JSON object `s`, re-serialized
/// as JSON text; absent members index to null and count as missing.
#[verifier::external_body]
pub fn json_object_field(s: &str, key: &str) -> (r: Option<String>)
    ensures
        match r {
            Some(v) => object_field_of(s@, key@) == Some(v@),
            None => object_field_of(s@, key@) is None,
        },
{
    match json::parse(s) {
        Ok(parsed) => {
            if parsed[key].is_null() {
                None
            } else {
                Some(parsed[key].dump())
            }
        },
        Err(_) => None,
    }
}

} // verus!
