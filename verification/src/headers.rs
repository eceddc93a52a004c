//! The header map of a request, as far as this crate reads and writes it.
//!
//! The map and its values are those of the `http` crate. What a map holds
//! is modelled as a mapping from each name, in lower case, to the values
//! under that name in the order in which they were added; a name with no
//! value is not in the mapping. The functions here that call into `http`
//! are not verified: their contracts state what its source shows.

use vstd::prelude::*;

verus! {

#[verifier::external_type_specification]
#[verifier::external_body]
#[verifier::reject_recursive_types(T)]
pub struct ExHeaderMap<T>(http::HeaderMap<T>);

#[verifier::external_type_specification]
#[verifier::external_body]
pub struct ExHeaderValue(http::HeaderValue);

/// What a header map holds: for each name the values under it, oldest
/// first.
pub uninterp spec fn header_entries(map: http::HeaderMap<http::HeaderValue>) -> Map<
    Seq<char>,
    Seq<Seq<u8>>,
>;

/// The bytes of a header value.
pub uninterp spec fn header_value_bytes(value: http::HeaderValue) -> Seq<u8>;

/// The number of names that a header map holds.
pub uninterp spec fn header_count(map: http::HeaderMap<http::HeaderValue>) -> nat;

/// A number of names below which a header map takes every further name.
///
/// The map keeps its names in a table that it does not let grow beyond
/// 32768 slots. It asks the table to grow only once the names fill three
/// quarters of it, or, where too many names fall into the same slots, a
/// fifth of it. So the map refuses a name only where it holds 6554 names
/// or more; this bound leaves a margin.
pub const HEADER_ROOM: usize = 4096;

/// Whether a character may stand in the names that this crate looks up:
/// a lower-case letter, a digit or a hyphen.
pub open spec fn is_name_char(c: char) -> bool {
    ('a' <= c && c <= 'z') || ('0' <= c && c <= '9') || c == '-'
}

/// A header name in the form in which the map keeps it, short enough and
/// made of characters that every header name may hold.
pub open spec fn is_header_name(name: Seq<char>) -> bool {
    0 < name.len() <= 64 && forall|i: int| 0 <= i < name.len() ==> is_name_char(#[trigger] name[i])
}

/// The first value under `name`, if the map holds the name.
pub open spec fn first_value(entries: Map<Seq<char>, Seq<Seq<u8>>>, name: Seq<char>) -> Option<
    Seq<u8>,
> {
    if entries.contains_key(name) {
        Some(entries[name][0])
    } else {
        None
    }
}

/// Whether a header value may hold the byte: anything from the space up
/// but the delete character, and the tab.
pub open spec fn is_value_byte(b: u8) -> bool {
    (b >= 32 && b != 127) || b == 9
}

pub open spec fn is_value(bytes: Seq<u8>) -> bool {
    forall|i: int| 0 <= i < bytes.len() ==> is_value_byte(#[trigger] bytes[i])
}

/// Calls `HeaderMap::get` with a name given as text. A name in the form of
/// `is_header_name` is looked up as it stands; the result is the first
/// value under it.
#[verifier::external_body]
pub(crate) fn header_get<'a>(map: &'a http::HeaderMap<http::HeaderValue>, name: &str) -> (r:
    Option<&'a http::HeaderValue>)
    requires
        is_header_name(name@),
    ensures
        match r {
            Some(v) => first_value(header_entries(*map), name@) == Some(header_value_bytes(*v)),
            None => first_value(header_entries(*map), name@) is None,
        },
{
    map.get(name)
}

/// Calls `HeaderMap::contains_key` with a name given as text.
#[verifier::external_body]
pub(crate) fn header_contains(map: &http::HeaderMap<http::HeaderValue>, name: &str) -> (r: bool)
    requires
        is_header_name(name@),
    ensures
        r == header_entries(*map).contains_key(name@),
{
    map.contains_key(name)
}

/// Calls `HeaderMap::keys_len`.
#[verifier::external_body]
pub(crate) fn header_names(map: &http::HeaderMap<http::HeaderValue>) -> (r: usize)
    ensures
        r == header_count(*map),
{
    map.keys_len()
}

/// Calls `HeaderMap::remove`, which takes every value under the name out
/// of the map, and the name with them.
#[verifier::external_body]
pub(crate) fn header_remove(map: &mut http::HeaderMap<http::HeaderValue>, name: &str)
    requires
        is_header_name(name@),
    ensures
        header_entries(*final(map)) == header_entries(*old(map)).remove(name@),
        header_count(*final(map)) <= header_count(*old(map)),
{
    map.remove(name);
}

/// Calls `HeaderMap::try_insert`, which puts the value in the place of
/// every value under the name. The result tells whether the value went
/// in; the map is unchanged where it did not. It goes in wherever the map
/// holds fewer than `HEADER_ROOM` names, and adds at most one name.
#[verifier::external_body]
pub(crate) fn header_insert(
    map: &mut http::HeaderMap<http::HeaderValue>,
    name: &'static str,
    value: http::HeaderValue,
) -> (r: bool)
    requires
        is_header_name(name@),
    ensures
        r ==> header_entries(*final(map)) == header_entries(*old(map)).insert(
            name@,
            seq![header_value_bytes(value)],
        ),
        r ==> header_count(*final(map)) <= header_count(*old(map)) + 1,
        !r ==> header_entries(*final(map)) == header_entries(*old(map)),
        !r ==> header_count(*final(map)) == header_count(*old(map)),
        header_count(*old(map)) < HEADER_ROOM ==> r,
{
    map.try_insert(name, value).is_ok()
}

/// Says whether the map takes `more` further names for certain.
pub fn has_room(map: &http::HeaderMap<http::HeaderValue>, more: usize) -> (r: bool)
    ensures
        r == (header_count(*map) + more <= HEADER_ROOM),
{
    let names = header_names(map);
    names <= HEADER_ROOM && more <= HEADER_ROOM - names
}

/// Calls `HeaderValue::as_bytes`.
#[verifier::external_body]
pub(crate) fn value_bytes<'a>(value: &'a http::HeaderValue) -> (r: &'a [u8])
    ensures
        r@ == header_value_bytes(*value),
{
    value.as_bytes()
}

/// Calls `HeaderValue::from_bytes`, which takes the bytes that
/// `is_value_byte` admits and no others.
#[verifier::external_body]
pub(crate) fn value_from_bytes(bytes: &[u8]) -> (r: Option<http::HeaderValue>)
    ensures
        match r {
            Some(v) => is_value(bytes@) && header_value_bytes(v) == bytes@,
            None => !is_value(bytes@),
        },
{
    http::HeaderValue::from_bytes(bytes).ok()
}

/// Whether a byte is one that `HeaderValue::to_str` admits: a printable
/// character of ASCII, a space or a tab.
pub open spec fn is_visible_byte(b: u8) -> bool {
    (32 <= b < 127) || b == 9
}

pub open spec fn is_visible(bytes: Seq<u8>) -> bool {
    forall|i: int| 0 <= i < bytes.len() ==> is_visible_byte(#[trigger] bytes[i])
}

/// Whether every byte is printable ASCII, a space or a tab: whether the
/// bytes of a header value can be read as text.
pub fn is_visible_text(bytes: &[u8]) -> (r: bool)
    ensures
        r == is_visible(bytes@),
{
    let mut i: usize = 0;
    while i < bytes.len()
        invariant
            i <= bytes.len(),
            forall|j: int| 0 <= j < i ==> is_visible_byte(#[trigger] bytes@[j]),
        decreases bytes.len() - i,
    {
        let b = bytes[i];
        if !((32 <= b && b < 127) || b == 9) {
            return false;
        }
        i += 1;
    }
    true
}

/// The first value under `name`, where it can be read as text.
pub open spec fn first_text(entries: Map<Seq<char>, Seq<Seq<u8>>>, name: Seq<char>) -> Option<
    Seq<u8>,
> {
    match first_value(entries, name) {
        Some(v) => if is_visible(v) {
            Some(v)
        } else {
            None
        },
        None => None,
    }
}

/// Looks up the first value under `name` and hands out its bytes where
/// they can be read as text.
pub fn header_text<'a>(map: &'a http::HeaderMap<http::HeaderValue>, name: &str) -> (r: Option<
    &'a [u8],
>)
    requires
        is_header_name(name@),
    ensures
        match r {
            Some(v) => first_text(header_entries(*map), name@) == Some(v@),
            None => first_text(header_entries(*map), name@) is None,
        },
{
    match header_get(map, name) {
        Some(value) => {
            let bytes = value_bytes(value);
            if is_visible_text(bytes) {
                Some(bytes)
            } else {
                None
            }
        },
        None => None,
    }
}

} // verus!
