//! Reading numbers out of HTTP response headers.

use vstd::prelude::*;
use reqwest::header::{HeaderMap, HeaderValue};
use crate::text::{ascii_lowercase, parse_u32, parse_u32_spec, parse_u64, parse_u64_spec};

verus! {

/// `http::HeaderMap`, as `reqwest` hands it out with every response.  Nothing
/// of its layout is known here.
#[verifier::external_type_specification]
#[verifier::external_body]
#[verifier::reject_recursive_types(T)]
pub struct ExHeaderMap<T>(HeaderMap<T>);

/// `http::HeaderValue`: the bytes of one header value.
#[verifier::external_type_specification]
#[verifier::external_body]
pub struct ExHeaderValue(HeaderValue);

/// The fields of a header map: each header name that is present, with the
/// bytes of the first value stored under it.  The names are the map's own
/// keys: valid header names, in lower case.
pub uninterp spec fn header_fields(h: HeaderMap) -> Map<Seq<char>, Seq<u8>>;

/// The bytes that a header value holds.
pub uninterp spec fn header_value_bytes(v: HeaderValue) -> Seq<u8>;

/// `HeaderMap::get` with a string key: the first value stored under the name,
/// if the name is present.  The map keeps its names in lower case and folds
/// the ASCII upper-case letters of the key before it looks the name up; a key
/// that is no header name is found nowhere.
#[verifier::external_body]
fn first_value<'a>(h: &'a HeaderMap, name: &str) -> (r: Option<&'a HeaderValue>)
    ensures
        r is Some <==> header_fields(*h).contains_key(ascii_lowercase(name@)),
        r matches Some(v) ==> header_value_bytes(*v) == header_fields(*h)[ascii_lowercase(name@)],
{
    h.get(name)
}

/// A byte that `HeaderValue::to_str` accepts: printable ASCII or a tab.
pub open spec fn is_visible_ascii(b: u8) -> bool {
    (32 <= b < 127) || b == 9
}

pub open spec fn all_visible_ascii(bytes: Seq<u8>) -> bool {
    forall|i: int| 0 <= i < bytes.len() ==> is_visible_ascii(#[trigger] bytes[i])
}

/// The characters that a sequence of ASCII bytes stands for.
pub open spec fn ascii_chars(bytes: Seq<u8>) -> Seq<char> {
    Seq::new(bytes.len(), |i: int| bytes[i] as char)
}

/// `HeaderValue::to_str`: the value as text when every byte is printable ASCII
/// or a tab, and nothing otherwise.
#[verifier::external_body]
fn value_text<'a>(v: &'a HeaderValue) -> (r: Option<&'a str>)
    ensures
        r is Some <==> all_visible_ascii(header_value_bytes(*v)),
        r matches Some(s) ==> s@ == ascii_chars(header_value_bytes(*v)),
{
    v.to_str().ok()
}

/// The text of a header, where the header is present and its first value is
/// printable.  The name may be written in any mix of upper and lower case.
pub open spec fn header_text(h: HeaderMap, name: Seq<char>) -> Option<Seq<char>> {
    let key = ascii_lowercase(name);
    if header_fields(h).contains_key(key) && all_visible_ascii(header_fields(h)[key]) {
        Some(ascii_chars(header_fields(h)[key]))
    } else {
        None
    }
}

/// The text of a header's first value.
pub fn get_header_text<'a>(h: &'a HeaderMap, key: &str) -> (r: Option<&'a str>)
    ensures
        r is Some <==> header_text(*h, key@) is Some,
        r matches Some(s) ==> Some(s@) == header_text(*h, key@),
{
    match first_value(h, key) {
        Some(v) => value_text(v),
        None => None,
    }
}

/// The number that a header holds, where it is present and reads as an
/// unsigned decimal number of 32 bits.
pub open spec fn header_u32(h: HeaderMap, name: Seq<char>) -> Option<u32> {
    match header_text(h, name) {
        Some(text) => parse_u32_spec(text),
        None => None,
    }
}

/// The number that a header holds, where it is present and reads as an
/// unsigned decimal number of 64 bits.
pub open spec fn header_u64(h: HeaderMap, name: Seq<char>) -> Option<u64> {
    match header_text(h, name) {
        Some(text) => parse_u64_spec(text),
        None => None,
    }
}

pub fn get_header_u32(h: &HeaderMap, key: &str) -> (r: Option<u32>)
    ensures
        r == header_u32(*h, key@),
{
    match get_header_text(h, key) {
        Some(text) => parse_u32(text),
        None => None,
    }
}

pub fn get_header_u64(h: &HeaderMap, key: &str) -> (r: Option<u64>)
    ensures
        r == header_u64(*h, key@),
{
    match get_header_text(h, key) {
        Some(text) => parse_u64(text),
        None => None,
    }
}

} // verus!
