//! The HTTP header map and status codes of `reqwest` (which re-exports the `http`
//! crate), with what the client relies on stated over plain strings.

use vstd::prelude::*;

use reqwest::header::HeaderMap;
use reqwest::header::HeaderName;
use reqwest::header::HeaderValue;
use std::str::FromStr;

verus! {

#[verifier::external_type_specification]
#[verifier::external_body]
#[verifier::reject_recursive_types(T)]
pub struct ExHeaderMap<T>(reqwest::header::HeaderMap<T>);

#[verifier::external_type_specification]
#[verifier::external_body]
pub struct ExHeaderValue(reqwest::header::HeaderValue);

/// The headers a `HeaderMap` holds: each (lower-case) header name with the text of
/// its value. The client only ever inserts and removes whole entries, so a
/// map from name to one value describes every map it builds.
pub uninterp spec fn header_entries(map: HeaderMap) -> Map<Seq<char>, Seq<char>>;

/// A character that may appear in a header name (an RFC 7230 `tchar`).
pub open spec fn is_header_name_char(c: char) -> bool {
    ||| ('a' <= c && c <= 'z')
    ||| ('A' <= c && c <= 'Z')
    ||| ('0' <= c && c <= '9')
    ||| c == '!' || c == '#' || c == '$' || c == '%' || c == '&' || c == '\''
    ||| c == '*' || c == '+' || c == '-' || c == '.' || c == '^' || c == '_'
    ||| c == '`' || c == '|' || c == '~'
}

/// The strings `HeaderName::from_str` accepts: between 1 and 65535 name characters.
pub open spec fn is_valid_header_name(s: Seq<char>) -> bool {
    &&& 1 <= s.len() <= 65535
    &&& forall|i: int| 0 <= i < s.len() ==> is_header_name_char(#[trigger] s[i])
}

/// The strings `HeaderValue::from_str` accepts: no control character but tab.
/// (Every byte of a non-ASCII character is at least 0x80, so those pass.)
pub open spec fn is_valid_header_value(s: Seq<char>) -> bool {
    forall|i: int|
        0 <= i < s.len() ==> ((#[trigger] s[i] as u32) >= 32 && (s[i] as u32) != 127) || s[i]
            == '\t'
}

/// ASCII letters turned to lower case, every other character kept.
pub open spec fn ascii_lowercase(s: Seq<char>) -> Seq<char> {
    Seq::new(
        s.len(),
        |i: int| if 'A' <= s[i] && s[i] <= 'Z' { ((s[i] as u32) + 32) as char } else { s[i] },
    )
}

/// `HeaderMap::new`: an empty map.
#[verifier::external_body]
pub fn new_header_map() -> (map: HeaderMap)
    ensures
        header_entries(map).is_empty(),
{
    HeaderMap::new()
}

/// `HeaderMap::insert`, with the name converted by `HeaderName::from_str` and the
/// value by `HeaderValue::from_str`. When both convert, the entry for the
/// lower-cased name is replaced by the value and `true` comes back; otherwise
/// the map is left as it was. `HeaderMap` panics when it would grow past
/// 32768 slots, which can happen once it holds 6554 entries (when a collision
/// streak asks it to double at 32768 slots); with fewer it cannot get there.
#[verifier::external_body]
pub fn insert_header(map: &mut HeaderMap, name: &str, value: &str) -> (inserted: bool)
    requires
        header_entries(*old(map)).dom().finite(),
        header_entries(*old(map)).dom().len() < 6554,
    ensures
        inserted == (is_valid_header_name(name@) && is_valid_header_value(value@)),
        header_entries(*final(map)) == (if inserted {
            header_entries(*old(map)).insert(ascii_lowercase(name@), value@)
        } else {
            header_entries(*old(map))
        }),
{
    match (HeaderName::from_str(name), HeaderValue::from_str(value)) {
        (Ok(header_name), Ok(header_value)) => {
            map.insert(header_name, header_value);
            true
        },
        _ => false,
    }
}

/// `HeaderMap::remove` with a string key: the entry of the lower-cased name goes
/// when the name is a valid header name; an invalid name finds nothing.
#[verifier::external_body]
pub fn remove_header(map: &mut HeaderMap, name: &str)
    ensures
        header_entries(*final(map)) == (if is_valid_header_name(name@) {
            header_entries(*old(map)).remove(ascii_lowercase(name@))
        } else {
            header_entries(*old(map))
        }),
{
    map.remove(name);
}

/// The reason phrase `StatusCode::canonical_reason` gives for a status code.
pub uninterp spec fn http_reason_phrase(code: u16) -> Option<Seq<char>>;

/// `StatusCode::from_u16(code)` followed by `canonical_reason`: the standard
/// phrase of a registered status code, nothing for an unregistered one, and
/// nothing for a number outside 100..=999 (which is no status code).
#[verifier::external_body]
pub fn canonical_reason(code: u16) -> (r: Option<&'static str>)
    ensures
        r matches Some(p) ==> http_reason_phrase(code) == Some(p@),
        r is None ==> http_reason_phrase(code) is None,
        !(100 <= code <= 999) ==> r is None,
{
    match reqwest::StatusCode::from_u16(code) {
        Ok(status) => status.canonical_reason(),
        Err(_) => None,
    }
}

} // verus!
