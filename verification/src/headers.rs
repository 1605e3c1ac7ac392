//! Header maps of the `http` crate (through Poem), read through trusted
//! wrappers, and the validity rules of header names and values.

use vstd::prelude::*;
use poem::http::header::{HeaderMap, HeaderName, HeaderValue};

verus! {

#[verifier::external_type_specification]
#[verifier::external_body]
#[verifier::reject_recursive_types(T)]
pub struct ExHeaderMap<T>(HeaderMap<T>);

#[verifier::external_type_specification]
#[verifier::external_body]
pub struct ExHeaderValue(HeaderValue);

/// The entries of a header map in the order in which `HeaderMap::iter` visits
/// them: each name (normalized to lower case) with one of its values, as bytes.
pub uninterp spec fn header_entries(map: HeaderMap) -> Seq<(Seq<char>, Seq<u8>)>;

/// The first value that `entries` hold for `name`.
pub open spec fn first_value(entries: Seq<(Seq<char>, Seq<u8>)>, name: Seq<char>) -> Option<Seq<u8>>
    decreases entries.len(),
{
    if entries.len() == 0 {
        None
    } else if entries[0].0 == name {
        Some(entries[0].1)
    } else {
        first_value(entries.skip(1), name)
    }
}

/// No character of `s` is an upper-case ASCII letter.
pub open spec fn no_upper_case(s: Seq<char>) -> bool {
    forall|i: int| 0 <= i < s.len() ==> !('A' <= #[trigger] s[i] && s[i] <= 'Z')
}

/// `HeaderMap::get`, handing the value out as its bytes.
///
/// The map keeps all values of one name together, the first one first, and
/// `get` returns that first one; a name that is not a valid header name finds
/// nothing, and the map holds no such name. For a name without upper-case
/// letters the result is therefore the first value for that name in the
/// order of `header_entries`. (Upper-case names, which `get` normalizes, are
/// not admitted.)
#[verifier::external_body]
pub(crate) fn header_map_get(map: &HeaderMap, name: &str) -> (r: Option<Vec<u8>>)
    requires
        no_upper_case(name@),
    ensures
        match r {
            Some(v) => first_value(header_entries(*map), name@) == Some(v@),
            None => first_value(header_entries(*map), name@) is None,
        },
{
    map.get(name).map(|v| v.as_bytes().to_vec())
}

/// `HeaderMap::iter`, handing each name out as its text and each value as its
/// bytes; the result is `header_entries` of the map.
#[verifier::external_body]
pub(crate) fn header_map_entries(map: &HeaderMap) -> (r: Vec<(String, Vec<u8>)>)
    ensures
        r@.len() == header_entries(*map).len(),
        forall|i: int| 0 <= i < r@.len() ==> (#[trigger] r@[i].0@, r@[i].1@) == header_entries(*map)[i],
{
    map.iter().map(|(n, v)| (n.as_str().to_string(), v.as_bytes().to_vec())).collect()
}

/// A `tchar` of RFC 9110: a letter, a digit or one of ``!#$%&'*+-.^_`|~``.
pub open spec fn is_token_char(c: char) -> bool {
    ('a' <= c && c <= 'z') || ('A' <= c && c <= 'Z') || ('0' <= c && c <= '9') || c == '!'
        || c == '#' || c == '$' || c == '%' || c == '&' || c == '\'' || c == '*' || c == '+'
        || c == '-' || c == '.' || c == '^' || c == '_' || c == '`' || c == '|' || c == '~'
}

/// A text that `HeaderName::from_bytes` accepts: 1 to 65535 token characters.
pub open spec fn valid_header_name(s: Seq<char>) -> bool {
    1 <= s.len() <= 65535 && forall|i: int| 0 <= i < s.len() ==> is_token_char(#[trigger] s[i])
}

/// The ASCII letters of `s` in lower case.
pub open spec fn ascii_lower(s: Seq<char>) -> Seq<char> {
    s.map_values(|c: char| if 'A' <= c && c <= 'Z' { ((c as u32) + 32) as char } else { c })
}

/// A text that `HeaderValue::from_str` accepts: no control character but tab.
pub open spec fn valid_header_value(s: Seq<char>) -> bool {
    forall|i: int| 0 <= i < s.len() ==> ((#[trigger] s[i] >= ' ' && s[i] != '\x7f') || s[i] == '\t')
}

/// `HeaderName::from_bytes`, handing the normalized name out as its text.
///
/// It accepts exactly the names of 1 to 65535 token characters (a character
/// outside ASCII encodes to bytes that are no token characters) and stores
/// them in lower case.
#[verifier::external_body]
pub(crate) fn normalized_header_name(name: &str) -> (r: Option<String>)
    ensures
        match r {
            Some(n) => valid_header_name(name@) && n@ == ascii_lower(name@),
            None => !valid_header_name(name@),
        },
{
    HeaderName::from_bytes(name.as_bytes()).ok().map(|n| n.as_str().to_string())
}

/// `HeaderValue::from_str`: whether the text is accepted as a header value.
///
/// It rejects exactly the bytes below `0x20` other than tab, and `0x7f`; the
/// bytes of a character outside ASCII are all at least `0x80`.
#[verifier::external_body]
pub(crate) fn header_value_accepted(value: &str) -> (r: bool)
    ensures
        r == valid_header_value(value@),
{
    HeaderValue::from_str(value).is_ok()
}

} // verus!
