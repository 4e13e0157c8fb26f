//! Reading and writing header fields.

use crate::text;
use axum::http::{HeaderMap, HeaderValue};
use vstd::prelude::*;
use vstd::string::*;
use vstd::utf8::*;

verus! {

/// The bytes of all values under each header name, in their order; names in
/// lower case.
pub uninterp spec fn header_values(headers: HeaderMap<HeaderValue>) -> Map<
    Seq<char>,
    Seq<Seq<u8>>,
>;

/// Whether a text is a header name made of lower-case letters and hyphens that
/// is at most 64 characters long.
pub open spec fn is_header_name(name: Seq<char>) -> bool {
    &&& 1 <= name.len() <= 64
    &&& forall|i: int| 0 <= i < name.len() ==> 'a' <= #[trigger] name[i] <= 'z' || name[i] == '-'
}

/// Whether a byte is visible ASCII, a space or a tab.
pub open spec fn is_visible_byte(b: u8) -> bool {
    32 <= b < 127 || b == 9
}

/// The text of a header value. Only a value of visible ASCII has one.
pub open spec fn visible_text(value: Seq<u8>) -> Option<Seq<char>> {
    if forall|i: int| 0 <= i < value.len() ==> is_visible_byte(#[trigger] value[i]) {
        Some(value.map_values(|b: u8| b as char))
    } else {
        None
    }
}

/// The text of the first value under a header name, if there is one and it is
/// visible ASCII.
pub open spec fn header_text(headers: Map<Seq<char>, Seq<Seq<u8>>>, name: Seq<char>) -> Option<
    Seq<char>,
> {
    if headers.contains_key(name) && headers[name].len() > 0 {
        visible_text(headers[name][0])
    } else {
        None
    }
}

/// Calls `HeaderMap::get` and `HeaderValue::to_str`: the first value under the
/// name, as a text if it is visible ASCII.
#[verifier::external_body]
pub(crate) fn get_header<'a>(headers: &'a HeaderMap, name: &str) -> (value: Option<&'a str>)
    requires
        is_header_name(name@),
    ensures
        text::view_str(value) == header_text(header_values(*headers), name@),
{
    headers.get(name).and_then(|value| value.to_str().ok())
}

/// Whether a byte may stand in a header value.
pub open spec fn is_value_byte(b: u8) -> bool {
    32 <= b && b != 127 || b == 9
}

/// Whether a text can be a header value.
pub open spec fn is_header_value(value: Seq<char>) -> bool {
    forall|i: int| 0 <= i < encode_utf8(value).len() ==> is_value_byte(#[trigger] encode_utf8(value)[i])
}

/// A header map with at most this many names has room for one more.
pub const ROOMY: usize = 6553;

/// What came of setting a header.
#[derive(Debug, Clone, Copy, PartialEq, Eq, Structural)]
pub enum HeaderOutcome {
    /// The header is set.
    Done,
    /// The text cannot be a header value.
    BadValue,
    /// The map is full.
    MapFull,
}

/// Calls the `FromStr` of `HeaderValue` and `HeaderMap::try_insert`: puts the
/// value under the name, in place of all that were there. Nothing changes if
/// the text cannot be a value or the map is full; a map with few names is
/// never full. The names in a map are finitely many.
#[verifier::external_body]
pub(crate) fn set_header(
    headers: &mut HeaderMap,
    name: &'static str,
    value: &str,
) -> (outcome: HeaderOutcome)
    requires
        is_header_name(name@),
    ensures
        outcome == HeaderOutcome::BadValue <==> !is_header_value(value@),
        outcome == HeaderOutcome::MapFull ==> header_values(*old(headers)).len() > ROOMY,
        header_values(*final(headers)) == (if outcome == HeaderOutcome::Done {
            header_values(*old(headers)).insert(name@, seq![encode_utf8(value@)])
        } else {
            header_values(*old(headers))
        }),
        header_values(*final(headers)).dom().finite(),
{
    match value.parse::<HeaderValue>() {
        Ok(parsed) => match headers.try_insert(name, parsed) {
            Ok(_) => HeaderOutcome::Done,
            Err(_) => HeaderOutcome::MapFull,
        },
        Err(_) => HeaderOutcome::BadValue,
    }
}

/// A text of visible ASCII characters can be a header value.
pub proof fn lemma_visible_is_header_value(value: Seq<char>)
    requires
        forall|i: int| 0 <= i < value.len() ==> ' ' <= #[trigger] value[i] <= '~',
    ensures
        is_header_value(value),
{
    assert(is_ascii_chars(value));
    is_ascii_chars_encode_utf8(value);
    assert forall|i: int| 0 <= i < encode_utf8(value).len() implies is_value_byte(
        #[trigger] encode_utf8(value)[i],
    ) by {
        assert(' ' <= value[i] <= '~');
    }
}

/// A header has a text exactly if its first value is made of tabs and of ASCII
/// characters from the space to the tilde, and the text is those characters.
pub proof fn law_what_the_text_of_a_header_is(
    values: Map<Seq<char>, Seq<Seq<u8>>>,
    name: Seq<char>,
    text: Seq<char>,
)
    requires
        values.contains_key(name),
        values[name].len() > 0,
    ensures
        header_text(values, name) == Some(text) <==> text.len() == values[name][0].len() && (
        forall|i: int|
            0 <= i < text.len() ==> (#[trigger] text[i]) as u32 == values[name][0][i] as u32 && (
            text[i] == '\t' || ' ' <= text[i] <= '~')),
{
    let bytes = values[name][0];
    if header_text(values, name) == Some(text) {
        assert forall|i: int| 0 <= i < text.len() implies (#[trigger] text[i]) as u32
            == bytes[i] as u32 && (text[i] == '\t' || ' ' <= text[i] <= '~') by {
            assert(is_visible_byte(bytes[i]));
        }
    }
    if text.len() == bytes.len() && forall|i: int|
        0 <= i < text.len() ==> (#[trigger] text[i]) as u32 == bytes[i] as u32 && (text[i] == '\t'
            || ' ' <= text[i] <= '~') {
        assert forall|i: int| 0 <= i < bytes.len() implies is_visible_byte(#[trigger] bytes[i]) by {
            assert(text[i] as u32 == bytes[i] as u32);
        }
        assert(bytes.map_values(|b: u8| b as char) =~= text);
    }
}

/// A header that is not there has no text.
pub proof fn law_missing_header_has_no_text(values: Map<Seq<char>, Seq<Seq<u8>>>, name: Seq<char>)
    requires
        !values.contains_key(name),
    ensures
        header_text(values, name) is None,
{
}

/// What cannot stand in a header value are the control characters, the tab
/// excepted.
pub proof fn law_what_a_header_value_is(value: Seq<char>, i: int)
    requires
        0 <= i < encode_utf8(value).len(),
        encode_utf8(value)[i] < 32 && encode_utf8(value)[i] != 9 || encode_utf8(value)[i] == 127,
    ensures
        !is_header_value(value),
{
    assert(!is_value_byte(encode_utf8(value)[i]));
}

} // verus!
