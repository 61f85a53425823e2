//! Trusted access to the JSON documents this crate handles: token headers
//! and payloads, JWKS documents, introspection responses.
//!
//! Parsing is delegated to serde_json.  What each lookup yields is a pure
//! function of the document bytes and the key, so each is given a name (an
//! uninterpreted spec function) that the wrappers' contracts and the verified
//! callers' contracts share.  Nothing else is assumed about the documents.

use vstd::prelude::*;

verus! {

/// Whether the bytes parse as a JSON document whose top level is an object.
pub uninterp spec fn json_object_ok(bytes: Seq<u8>) -> bool;

/// The string value at `key` of the top-level object, if the bytes parse
/// and the value is a string.
pub uninterp spec fn json_str_field(bytes: Seq<u8>, key: Seq<char>) -> Option<Seq<char>>;

/// The unsigned integer value at `key`, if the bytes parse and the value is
/// a number representable as `u64`.
pub uninterp spec fn json_u64_field(bytes: Seq<u8>, key: Seq<char>) -> Option<u64>;

/// The boolean value at `key`, if the bytes parse and the value is a
/// boolean.
pub uninterp spec fn json_bool_field(bytes: Seq<u8>, key: Seq<char>) -> Option<bool>;

/// The array value at `key`, if the bytes parse and the value is an array:
/// each element is its string content, or `None` for a non-string element.
pub uninterp spec fn json_str_list_field(bytes: Seq<u8>, key: Seq<char>) -> Option<
    Seq<Option<Seq<char>>>,
>;

/// The key descriptors of a JWKS document: for each element of the
/// top-level `keys` array, its `kty`, `kid`, `n`, `e` and `alg` members
/// (each the string content, or `None` when absent or not a string).
/// `None` when the bytes are not JSON or carry no `keys` array.
pub uninterp spec fn jwks_descs(bytes: Seq<u8>) -> Option<
    Seq<(Option<Seq<char>>, Option<Seq<char>>, Option<Seq<char>>, Option<Seq<char>>, Option<
        Seq<char>,
    >)>,
>;

/// View of an optional owned string.
pub open spec fn opt_view(o: Option<String>) -> Option<Seq<char>> {
    match o {
        Some(s) => Some(s@),
        None => None,
    }
}

/// One JWKS key descriptor, as plain values.
pub struct JwksDescriptor {
    pub kty: Option<String>,
    pub kid: Option<String>,
    pub n: Option<String>,
    pub e: Option<String>,
    pub alg: Option<String>,
}

/// View of a descriptor as the tuple [`jwks_descs`] speaks of.
pub open spec fn desc_view(d: JwksDescriptor) -> (
    Option<Seq<char>>,
    Option<Seq<char>>,
    Option<Seq<char>>,
    Option<Seq<char>>,
    Option<Seq<char>>,
) {
    (opt_view(d.kty), opt_view(d.kid), opt_view(d.n), opt_view(d.e), opt_view(d.alg))
}

/// Relies on `serde_json::from_slice` and `Value::is_object`: whether the
/// bytes are a JSON document with an object at top level.
#[verifier::external_body]
pub(crate) fn json_is_object(bytes: &[u8]) -> (r: bool)
    ensures
        r == json_object_ok(bytes@),
{
    match serde_json::from_slice::<serde_json::Value>(bytes) {
        Ok(v) => v.is_object(),
        Err(_) => false,
    }
}

/// Relies on `serde_json::from_slice`, `Value::get` and `Value::as_str`:
/// the string member at `key` of the parsed document.
#[verifier::external_body]
pub(crate) fn json_get_str(bytes: &[u8], key: &str) -> (r: Option<String>)
    ensures
        match r {
            Some(s) => json_str_field(bytes@, key@) == Some(s@),
            None => json_str_field(bytes@, key@) is None,
        },
{
    let doc: serde_json::Value = match serde_json::from_slice(bytes) {
        Ok(v) => v,
        Err(_) => return None,
    };
    doc.get(key).and_then(|v| v.as_str()).map(|s| s.to_string())
}

/// Relies on `serde_json::from_slice`, `Value::get` and `Value::as_u64`:
/// the `u64` member at `key` of the parsed document.
#[verifier::external_body]
pub(crate) fn json_get_u64(bytes: &[u8], key: &str) -> (r: Option<u64>)
    ensures
        r == json_u64_field(bytes@, key@),
{
    let doc: serde_json::Value = match serde_json::from_slice(bytes) {
        Ok(v) => v,
        Err(_) => return None,
    };
    doc.get(key).and_then(|v| v.as_u64())
}

/// Relies on `serde_json::from_slice`, `Value::get` and `Value::as_bool`:
/// the boolean member at `key` of the parsed document.
#[verifier::external_body]
pub(crate) fn json_get_bool(bytes: &[u8], key: &str) -> (r: Option<bool>)
    ensures
        r == json_bool_field(bytes@, key@),
{
    let doc: serde_json::Value = match serde_json::from_slice(bytes) {
        Ok(v) => v,
        Err(_) => return None,
    };
    doc.get(key).and_then(|v| v.as_bool())
}

/// Relies on `serde_json::from_slice`, `Value::get`, `Value::as_array` and
/// `Value::as_str`: the array member at `key`, each element as its string
/// content where it is a string.
#[verifier::external_body]
pub(crate) fn json_get_str_array(bytes: &[u8], key: &str) -> (r: Option<Vec<Option<String>>>)
    ensures
        match r {
            Some(v) => json_str_list_field(bytes@, key@) == Some(
                v@.map_values(|o: Option<String>| opt_view(o)),
            ),
            None => json_str_list_field(bytes@, key@) is None,
        },
{
    let doc: serde_json::Value = match serde_json::from_slice(bytes) {
        Ok(v) => v,
        Err(_) => return None,
    };
    let arr = match doc.get(key).and_then(|v| v.as_array()) {
        Some(a) => a,
        None => return None,
    };
    let mut out = Vec::new();
    for v in arr {
        out.push(v.as_str().map(|s| s.to_string()));
    }
    Some(out)
}

/// Relies on `serde_json::from_slice`, `Value::get`, `Value::as_array` and
/// `Value::as_str`: the descriptors of the document's `keys` array.
#[verifier::external_body]
pub(crate) fn jwks_key_descriptors(bytes: &[u8]) -> (r: Option<Vec<JwksDescriptor>>)
    ensures
        match r {
            Some(v) => jwks_descs(bytes@) == Some(
                v@.map_values(|d: JwksDescriptor| desc_view(d)),
            ),
            None => jwks_descs(bytes@) is None,
        },
{
    let doc: serde_json::Value = match serde_json::from_slice(bytes) {
        Ok(v) => v,
        Err(_) => return None,
    };
    let arr = match doc.get("keys").and_then(|k| k.as_array()) {
        Some(a) => a,
        None => return None,
    };
    let s = |k: &serde_json::Value, f: &str| k.get(f).and_then(|v| v.as_str()).map(|x| x.to_string());
    let mut out = Vec::new();
    for k in arr {
        out.push(JwksDescriptor { kty: s(k, "kty"), kid: s(k, "kid"), n: s(k, "n"), e: s(k, "e"), alg: s(k, "alg") });
    }
    Some(out)
}

} // verus!
