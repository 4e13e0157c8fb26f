//! JSON objects of texts.

use crate::random;
use serde_json::Value;
use vstd::prelude::*;

verus! {

/// How a character is written inside a JSON string.
pub open spec fn json_char(c: char) -> Seq<char> {
    if c == '"' || c == '\\' {
        seq!['\\', c]
    } else if c == '\u{8}' {
        seq!['\\', 'b']
    } else if c == '\t' {
        seq!['\\', 't']
    } else if c == '\n' {
        seq!['\\', 'n']
    } else if c == '\u{c}' {
        seq!['\\', 'f']
    } else if c == '\r' {
        seq!['\\', 'r']
    } else if (c as u32) < 32 {
        seq![
            '\\',
            'u',
            '0',
            '0',
            random::hex_digit((c as u8) / 16),
            random::hex_digit((c as u8) % 16),
        ]
    } else {
        seq![c]
    }
}

/// The characters of a text as they are written inside a JSON string.
pub open spec fn json_chars(text: Seq<char>) -> Seq<char>
    decreases text.len(),
{
    if text.len() == 0 {
        Seq::empty()
    } else {
        json_chars(text.drop_last()) + json_char(text.last())
    }
}

/// A text as a JSON string.
pub open spec fn json_string(text: Seq<char>) -> Seq<char> {
    seq!['"'] + json_chars(text) + seq!['"']
}

/// The members of a JSON object, with commas between them.
pub open spec fn json_members(fields: Seq<(Seq<char>, Seq<char>)>) -> Seq<char>
    decreases fields.len(),
{
    if fields.len() == 0 {
        Seq::empty()
    } else {
        let member = json_string(fields.last().0) + seq![':'] + json_string(fields.last().1);
        if fields.len() == 1 {
            member
        } else {
            json_members(fields.drop_last()) + seq![','] + member
        }
    }
}

/// A JSON object whose values are texts.
pub open spec fn json_object(fields: Seq<(Seq<char>, Seq<char>)>) -> Seq<char> {
    seq!['{'] + json_members(fields) + seq!['}']
}

/// Whether the names of the fields go up in their first characters.
pub open spec fn names_ascend(fields: Seq<(Seq<char>, Seq<char>)>) -> bool {
    &&& forall|i: int| 0 <= i < fields.len() ==> (#[trigger] fields[i].0).len() > 0
    &&& forall|i: int, j: int|
        0 <= i < j < fields.len() ==> (#[trigger] fields[i].0)[0] < (#[trigger] fields[j].0)[0]
}

/// The characters of some fields.
pub open spec fn view_fields(fields: Seq<(String, String)>) -> Seq<(Seq<char>, Seq<char>)> {
    fields.map_values(|field: (String, String)| (field.0@, field.1@))
}

/// Writes out a `Value::Object` of the `serde_json` crate with the given
/// fields, whose values are `Value::String`s: compact JSON, the fields in the
/// order of their names.
#[verifier::external_body]
pub(crate) fn json_text(fields: Vec<(String, String)>) -> (json: String)
    requires
        names_ascend(view_fields(fields@)),
    ensures
        json@ == json_object(view_fields(fields@)),
{
    let members = fields.into_iter().map(|(name, value)| (name, Value::String(value))).collect();
    Value::Object(members).to_string()
}

/// Whether a character stands for itself inside a JSON string.
pub open spec fn is_plain(c: char) -> bool {
    c as u32 >= 32 && c != '"' && c != '\\'
}

/// A text of characters that stand for themselves is written as it is.
pub proof fn lemma_plain_text(text: Seq<char>)
    requires
        forall|i: int| 0 <= i < text.len() ==> is_plain(#[trigger] text[i]),
    ensures
        json_chars(text) == text,
    decreases text.len(),
{
    if text.len() > 0 {
        let shorter = text.drop_last();
        assert forall|i: int| 0 <= i < shorter.len() implies is_plain(#[trigger] shorter[i]) by {
            assert(shorter[i] == text[i]);
        }
        lemma_plain_text(shorter);
        assert(is_plain(text[text.len() - 1]));
        assert(shorter + seq![text.last()] =~= text);
    }
}

} // verus!
