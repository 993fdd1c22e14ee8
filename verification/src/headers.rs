//! HTTP header names, values and maps, which the `http` crate validates
//! and holds (reached through `reqwest::header`).
//!
//! A name is known to the rest of the library by its text, a value by
//! its bytes, a map by its entries in the order in which it yields them.
//! The three types, the four names and the six wrappers that come first
//! are trusted: they state what the crate does and prove none of it.
//! The spec functions between them say of the plain cases what the
//! crate's source shows.
//! What comes after them ties the bytes of a value to the characters of
//! the text that it was made of, and is proved.
use crate::entries::{distinct_keys, key_index, with_entry};
use reqwest::header::{HeaderMap, HeaderName, HeaderValue};
use vstd::prelude::*;
use vstd::utf8::{encode_scalar, encode_utf8, has_width_1_encoding, leading_byte_width_1};

verus! {

/// `http::HeaderMap`, a map from header names to values. Nothing of its
/// inside is known here.
#[verifier::external_type_specification]
#[verifier::external_body]
#[verifier::reject_recursive_types(T)]
pub struct ExHeaderMap<T>(HeaderMap<T>);

/// `http::HeaderName`, a valid header name. Nothing of its inside is
/// known here.
#[verifier::external_type_specification]
#[verifier::external_body]
pub struct ExHeaderName(HeaderName);

/// `http::HeaderValue`, a valid header value. Nothing of its inside is
/// known here.
#[verifier::external_type_specification]
#[verifier::external_body]
pub struct ExHeaderValue(HeaderValue);

/// What a header name holds: its characters, which are lower-case ASCII.
pub uninterp spec fn header_name_text(name: HeaderName) -> Seq<char>;

/// What a header value holds: its bytes.
pub uninterp spec fn header_value_bytes(value: HeaderValue) -> Seq<u8>;

/// What a header map holds: its entries in the order in which the map
/// yields them, each as the text of its name and the bytes of its value.
pub uninterp spec fn header_entries(map: HeaderMap<HeaderValue>) -> Seq<(Seq<char>, Seq<u8>)>;

/// What `HeaderName::from_bytes` makes of a text: the text of the name,
/// which is the given text in lower case, or `None` where the text is
/// not a header name.
pub uninterp spec fn header_name_parsed(text: Seq<char>) -> Option<Seq<char>>;

/// How many entries a header map takes in any case. A map refuses an
/// entry only where it would have to grow beyond its 32768 slots, and
/// it grows no sooner than at a fifth of its slots taken, so at 6554
/// entries at the least.
pub const HEADER_ROOM: usize = 4096;

/// Whether a character is an ASCII letter, a digit, `-` or `_`.
pub open spec fn is_simple_name_char(c: char) -> bool {
    ('a' <= c <= 'z') || ('A' <= c <= 'Z') || ('0' <= c <= '9') || c == '-' || c == '_'
}

/// Whether a text is a header name of the simple kind: 1 to 65535
/// letters, digits, `-` and `_`.
pub open spec fn is_simple_name(text: Seq<char>) -> bool {
    &&& 1 <= text.len() <= 65535
    &&& forall|i: int| 0 <= i < text.len() ==> is_simple_name_char(#[trigger] text[i])
}

/// An ASCII capital as its small letter, any other character as it is.
pub open spec fn lower_case(c: char) -> char {
    if 'A' <= c <= 'Z' {
        ((c as u32) + 32) as char
    } else {
        c
    }
}

/// The header name that a text stands for: a simple name is a header
/// name, spelled in lower case; of any other text the parser decides.
pub open spec fn header_name_of(text: Seq<char>) -> Option<Seq<char>> {
    if is_simple_name(text) {
        Some(text.map_values(|c: char| lower_case(c)))
    } else {
        header_name_parsed(text)
    }
}

/// Whether a byte may stand in a header value: anything but the control
/// characters, the tab excepted.
pub open spec fn is_value_byte(b: u8) -> bool {
    (b >= 32 && b != 127) || b == 9
}

/// Whether a byte is visible ASCII or a tab.
pub open spec fn is_visible_byte(b: u8) -> bool {
    (b >= 32 && b < 127) || b == 9
}

/// Whether these bytes make a header value.
pub open spec fn is_header_value(bytes: Seq<u8>) -> bool {
    forall|i: int| 0 <= i < bytes.len() ==> is_value_byte(#[trigger] bytes[i])
}

/// Whether these bytes can be shown as text: all are visible ASCII or
/// tabs.
pub open spec fn is_visible_text(bytes: Seq<u8>) -> bool {
    forall|i: int| 0 <= i < bytes.len() ==> is_visible_byte(#[trigger] bytes[i])
}

/// Whether `line` shows `entry`: the name as it is, and the value as
/// text where it can be shown as text.
pub open spec fn line_shows(line: (String, Option<String>), entry: (Seq<char>, Seq<u8>)) -> bool {
    &&& line.0@ == entry.0
    &&& match line.1 {
        Some(text) => is_visible_text(entry.1) && encode_utf8(text@) == entry.1,
        None => !is_visible_text(entry.1),
    }
}

/// Parses a header name.
///
/// Trusted: `HeaderName::from_bytes` on the bytes of the text. The
/// result is a function of the text alone. A text of 1 to 65535 ASCII
/// letters, digits, `-` and `_` is taken, with its capitals made small.
#[verifier::external_body]
pub(crate) fn parse_header_name(text: &str) -> (r: Option<HeaderName>)
    ensures
        match r {
            Some(name) => {
                &&& header_name_parsed(text@) == Some(header_name_text(name))
                &&& header_name_of(text@) == Some(header_name_text(name))
            },
            None => header_name_parsed(text@) is None && header_name_of(text@) is None,
        },
{
    HeaderName::from_bytes(text.as_bytes()).ok()
}

/// Parses a header value.
///
/// Trusted: `HeaderValue::from_str`, which takes the text if and only if
/// each of its bytes is 32 or above and not 127, or is a tab, and then
/// holds those bytes.
#[verifier::external_body]
pub(crate) fn parse_header_value(text: &str) -> (r: Option<HeaderValue>)
    ensures
        match r {
            Some(value) => is_header_value(encode_utf8(text@)) && header_value_bytes(value)
                == encode_utf8(text@),
            None => !is_header_value(encode_utf8(text@)),
        },
{
    HeaderValue::from_str(text).ok()
}

/// The text of a header name.
///
/// Trusted: `HeaderName::as_str`.
#[verifier::external_body]
pub(crate) fn header_name_string(name: &HeaderName) -> (text: String)
    ensures
        text@ == header_name_text(*name),
{
    name.as_str().to_owned()
}

/// A header map without entries.
///
/// Trusted: `HeaderMap::new`.
#[verifier::external_body]
pub(crate) fn new_header_map() -> (map: HeaderMap<HeaderValue>)
    ensures
        header_entries(map) == Seq::<(Seq<char>, Seq<u8>)>::empty(),
{
    HeaderMap::new()
}

/// Sets a header in a map in which each name has one value. Returns
/// whether the map took it.
///
/// Trusted: `HeaderMap::try_insert`, which fails only where the map
/// would have to grow beyond its maximum size, and so never while it
/// holds fewer than [`HEADER_ROOM`] entries. Where it succeeds, a name
/// that is there takes the new value where it stands, and a new name is
/// put last.
#[verifier::external_body]
pub(crate) fn header_map_insert(
    map: &mut HeaderMap<HeaderValue>,
    name: HeaderName,
    value: HeaderValue,
) -> (taken: bool)
    requires
        distinct_keys(header_entries(*old(map))),
    ensures
        taken ==> header_entries(*final(map)) == with_entry(
            header_entries(*old(map)),
            header_name_text(name),
            header_value_bytes(value),
        ),
        header_entries(*old(map)).len() < HEADER_ROOM ==> taken,
{
    map.try_insert(name, value).is_ok()
}

/// The entries of a map, in the map's order, each with its name as a
/// string and its value as a string where the value is text.
///
/// Trusted: `HeaderMap::iter`, with `HeaderName::as_str` and
/// `HeaderValue::to_str` on what it yields. `to_str` gives the value's
/// bytes as a string if and only if all of them are visible ASCII or
/// tabs.
#[verifier::external_body]
pub(crate) fn header_lines(map: &HeaderMap<HeaderValue>) -> (lines: Vec<(String, Option<String>)>)
    ensures
        lines@.len() == header_entries(*map).len(),
        forall|i: int|
            0 <= i < lines@.len() ==> line_shows(#[trigger] lines@[i], header_entries(*map)[i]),
{
    map.iter().map(|(name, value)| {
        (name.as_str().to_owned(), value.to_str().ok().map(str::to_owned))
    }).collect()
}

/// Whether a character may stand in a header value: it is no control
/// character, or it is a tab.
pub open spec fn is_value_char(c: char) -> bool {
    (c >= ' ' && c != '\u{7f}') || c == '\t'
}

/// Whether a character is visible ASCII, from the space to `~`, or a
/// tab.
pub open spec fn is_visible_char(c: char) -> bool {
    (' ' <= c <= '~') || c == '\t'
}

/// Whether a text makes a header value: it holds no control character
/// but the tab.
pub open spec fn is_value_text(text: Seq<char>) -> bool {
    forall|i: int| 0 <= i < text.len() ==> is_value_char(#[trigger] text[i])
}

/// Whether a text can be shown as it is: all its characters are visible
/// ASCII or tabs.
pub open spec fn is_shown_text(text: Seq<char>) -> bool {
    forall|i: int| 0 <= i < text.len() ==> is_visible_char(#[trigger] text[i])
}

/// Headers as a header map holds them: each value as its bytes.
pub open spec fn encoded_entries(headers: Seq<(Seq<char>, Seq<char>)>) -> Seq<
    (Seq<char>, Seq<u8>),
> {
    headers.map_values(|header: (Seq<char>, Seq<char>)| (header.0, encode_utf8(header.1)))
}

/// The bytes that stand for one character: the character itself where
/// it is ASCII, and else bytes from 128 up. So the bytes may all stand
/// in a header value, or are all visible, if and only if the character
/// may, or is.
proof fn lemma_bytes_of_char(c: char)
    ensures
        ({
            let bytes = encode_scalar(c as u32);
            &&& bytes.len() >= 1
            &&& is_header_value(bytes) <==> is_value_char(c)
            &&& is_visible_text(bytes) <==> is_visible_char(c)
        }),
{
    let v = c as u32;
    let bytes = encode_scalar(v);
    if has_width_1_encoding(v) {
        assert(v as u8 == leading_byte_width_1(v)) by (bit_vector)
            requires
                has_width_1_encoding(v),
        ;
        assert(is_visible_byte(bytes[0]) <==> is_visible_char(c));
    } else {
        assert(forall|x: u8| #![auto] 0xC0u8 | x >= 128) by (bit_vector);
        assert(forall|x: u8| #![auto] 0xE0u8 | x >= 128) by (bit_vector);
        assert(forall|x: u8| #![auto] 0xF0u8 | x >= 128) by (bit_vector);
        assert(forall|x: u8| #![auto] 0x80u8 | x >= 128) by (bit_vector);
    }
}

/// What holds of each byte of two texts put together holds of each byte
/// of the one and of the other.
proof fn lemma_bytes_together(head: Seq<u8>, tail: Seq<u8>)
    ensures
        is_header_value(head + tail) <==> is_header_value(head) && is_header_value(tail),
        is_visible_text(head + tail) <==> is_visible_text(head) && is_visible_text(tail),
{
    let all = head + tail;
    if is_header_value(all) {
        assert forall|k: int| 0 <= k < head.len() implies is_value_byte(#[trigger] head[k]) by {
            assert(head[k] == all[k]);
        }
        assert forall|k: int| 0 <= k < tail.len() implies is_value_byte(#[trigger] tail[k]) by {
            assert(tail[k] == all[head.len() + k]);
        }
    }
    if is_visible_text(all) {
        assert forall|k: int| 0 <= k < head.len() implies is_visible_byte(#[trigger] head[k]) by {
            assert(head[k] == all[k]);
        }
        assert forall|k: int| 0 <= k < tail.len() implies is_visible_byte(#[trigger] tail[k]) by {
            assert(tail[k] == all[head.len() + k]);
        }
    }
}

/// The bytes of a text make a header value if and only if the text
/// holds no control character but the tab.
pub proof fn lemma_header_value_chars(text: Seq<char>)
    ensures
        is_header_value(encode_utf8(text)) <==> is_value_text(text),
    decreases text.len(),
{
    if text.len() > 0 {
        let rest = text.drop_first();
        lemma_bytes_of_char(text[0]);
        lemma_header_value_chars(rest);
        lemma_bytes_together(encode_scalar(text[0] as u32), encode_utf8(rest));
        if is_header_value(encode_utf8(text)) {
            assert forall|i: int| 0 <= i < text.len() implies is_value_char(
                #[trigger] text[i],
            ) by {
                if i > 0 {
                    assert(text[i] == rest[i - 1]);
                }
            }
        }
    }
}

/// The bytes of a text are all visible ASCII or tabs if and only if its
/// characters are.
pub proof fn lemma_visible_text_chars(text: Seq<char>)
    ensures
        is_visible_text(encode_utf8(text)) <==> is_shown_text(text),
    decreases text.len(),
{
    if text.len() > 0 {
        let rest = text.drop_first();
        lemma_bytes_of_char(text[0]);
        lemma_visible_text_chars(rest);
        lemma_bytes_together(encode_scalar(text[0] as u32), encode_utf8(rest));
        if is_visible_text(encode_utf8(text)) {
            assert forall|i: int| 0 <= i < text.len() implies is_visible_char(
                #[trigger] text[i],
            ) by {
                if i > 0 {
                    assert(text[i] == rest[i - 1]);
                }
            }
        }
    }
}

/// Setting a header among headers and taking the bytes of the values
/// comes to the same as taking the bytes and setting the header among
/// them.
pub proof fn lemma_encoded_with_entry(
    headers: Seq<(Seq<char>, Seq<char>)>,
    name: Seq<char>,
    value: Seq<char>,
)
    ensures
        encoded_entries(with_entry(headers, name, value)) == with_entry(
            encoded_entries(headers),
            name,
            encode_utf8(value),
        ),
{
    lemma_encoded_key_index(headers, name);
    crate::entries::lemma_key_index(headers, name);
}

/// A name stands among the headers where it stands among their bytes.
proof fn lemma_encoded_key_index(headers: Seq<(Seq<char>, Seq<char>)>, name: Seq<char>)
    ensures
        key_index(encoded_entries(headers), name) == key_index(headers, name),
    decreases headers.len(),
{
    if headers.len() > 0 {
        lemma_encoded_key_index(headers.drop_last(), name);
        assert(encoded_entries(headers).drop_last() =~= encoded_entries(headers.drop_last()));
    }
}

} // verus!
