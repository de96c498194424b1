//! The identifier of a channel: the 16 bytes of a UUID, and its text forms.

use vstd::prelude::*;
use vstd::string::*;
use crate::hex::{hex_bytes, hex_text, is_hex, lemma_hex_round_trip};

verus! {

/// The identifier with hyphens after its 8th, 12th, 16th and 20th
/// hexadecimal digit: 36 characters, lower case.
pub open spec fn uuid_text(id: Seq<u8>) -> Seq<char> {
    let digits = hex_text(id);
    digits.subrange(0, 8) + seq!['-'] + digits.subrange(8, 12) + seq!['-'] + digits.subrange(
        12,
        16,
    ) + seq!['-'] + digits.subrange(16, 20) + seq!['-'] + digits.subrange(20, 32)
}

/// The 32 places of a 36-character text that hold digits in the hyphenated
/// form.
pub open spec fn hyphenated_digits(text: Seq<char>) -> Seq<char> {
    text.subrange(0, 8) + text.subrange(9, 13) + text.subrange(14, 18) + text.subrange(19, 23)
        + text.subrange(24, 36)
}

/// The text has the hyphenated form: 36 characters, hyphens at their four
/// places, hexadecimal digits of either case elsewhere.
pub open spec fn is_hyphenated(text: Seq<char>) -> bool {
    &&& text.len() == 36
    &&& text[8] == '-'
    &&& text[13] == '-'
    &&& text[18] == '-'
    &&& text[23] == '-'
    &&& is_hex(hyphenated_digits(text))
}

/// A letter of either case stands for its lower-case form, any other
/// character for itself.
pub open spec fn ascii_lower(c: char) -> char {
    if 'A' <= c <= 'Z' {
        ((c as u32) + 32) as char
    } else {
        c
    }
}

/// The text begins with `urn:uuid:` in letters of either case.
pub open spec fn has_urn_prefix(text: Seq<char>) -> bool {
    &&& text.len() >= 9
    &&& text.subrange(0, 9).map_values(|c: char| ascii_lower(c)) == seq![
        'u',
        'r',
        'n',
        ':',
        'u',
        'u',
        'i',
        'd',
        ':',
    ]
}

/// The identifier that a text writes, in any of the four accepted forms: 32
/// digits, the hyphenated form, that form in braces, or that form after
/// `urn:uuid:`.
pub open spec fn uuid_from_text(text: Seq<char>) -> Option<Seq<u8>> {
    if text.len() == 32 && is_hex(text) {
        Some(hex_bytes(text))
    } else if is_hyphenated(text) {
        Some(hex_bytes(hyphenated_digits(text)))
    } else if text.len() == 38 && text[0] == '{' && text[37] == '}' && is_hyphenated(
        text.subrange(1, 37),
    ) {
        Some(hex_bytes(hyphenated_digits(text.subrange(1, 37))))
    } else if text.len() == 45 && has_urn_prefix(text) && is_hyphenated(text.subrange(9, 45)) {
        Some(hex_bytes(hyphenated_digits(text.subrange(9, 45))))
    } else {
        None
    }
}

/// Calls `Uuid::new_v4` and hands out the bytes of the identifier it made.
/// They come from the system's random source; all that is fixed is the
/// version, 4, in the high half of byte 6, and the variant in the two high
/// bits of byte 8.
#[verifier::external_body]
pub(crate) fn random_id() -> (id: [u8; 16])
    ensures
        id@[6] / 16 == 4,
        id@[8] / 64 == 2,
{
    uuid::Uuid::new_v4().into_bytes()
}

/// Calls `to_string` on the `Uuid` made of these bytes: the hyphenated
/// lower-case form.
#[verifier::external_body]
pub(crate) fn id_to_string(id: &[u8; 16]) -> (text: String)
    ensures
        text@ == uuid_text(id@),
{
    uuid::Uuid::from_bytes(*id).to_string()
}

/// Calls `Uuid::parse_str` and hands out the bytes of the identifier read.
/// That function goes by the length of the text: 32 characters are read as
/// digits alone, 36 as the hyphenated form, 38 as that form in braces, 45
/// as that form after `urn:uuid:` in letters of either case; digits are of
/// either case; any other text is refused.
#[verifier::external_body]
pub(crate) fn id_from_str(text: &str) -> (id: Option<[u8; 16]>)
    ensures
        match id {
            Some(bytes) => uuid_from_text(text@) == Some(bytes@),
            None => uuid_from_text(text@) is None,
        },
{
    match uuid::Uuid::parse_str(text) {
        Ok(id) => Some(id.into_bytes()),
        Err(_) => None,
    }
}

/// An identifier's text is in the hyphenated form and writes that
/// identifier.
pub proof fn lemma_uuid_text_round_trip(id: Seq<u8>)
    requires
        id.len() == 16,
    ensures
        uuid_text(id).len() == 36,
        is_hyphenated(uuid_text(id)),
        uuid_from_text(uuid_text(id)) == Some(id),
{
    let text = uuid_text(id);
    lemma_hex_round_trip(id);
    assert(hyphenated_digits(text) =~= hex_text(id));
}

} // verus!
