//! Random bytes and their hexadecimal text.

use rand::Rng;
use vstd::prelude::*;

verus! {

/// Fills a buffer of `len` bytes through `rand::thread_rng` and `Rng::fill`.
/// The bytes are random: only their number is claimed.
#[verifier::external_body]
pub(crate) fn random_bytes(len: usize) -> (bytes: Vec<u8>)
    ensures
        bytes@.len() == len,
{
    let mut bytes = vec![0u8; len];
    rand::thread_rng().fill(&mut bytes[..]);
    bytes
}

/// The lower-case hexadecimal digit for a number below sixteen.
pub open spec fn hex_digit(n: u8) -> char {
    if n < 10 {
        (48 + n) as char
    } else {
        (87 + n) as char
    }
}

/// Two lower-case hexadecimal digits for each byte, the high half first.
pub open spec fn hex_text(bytes: Seq<u8>) -> Seq<char> {
    Seq::new(
        2 * bytes.len(),
        |i: int|
            if i % 2 == 0 {
                hex_digit(bytes[i / 2] / 16)
            } else {
                hex_digit(bytes[i / 2] % 16)
            },
    )
}

/// Calls `hex::encode`: two lower-case hexadecimal digits for each byte, the
/// high half first.
#[verifier::external_body]
fn hex_encode(bytes: &[u8]) -> (text: String)
    ensures
        text@ == hex_text(bytes@),
{
    hex::encode(bytes)
}

/// Whether a character is a lower-case hexadecimal digit.
pub open spec fn is_hex_digit(c: char) -> bool {
    '0' <= c <= '9' || 'a' <= c <= 'f'
}

/// Whether a text is made of `len` lower-case hexadecimal digits.
pub open spec fn is_hex(text: Seq<char>, len: nat) -> bool {
    &&& text.len() == len
    &&& forall|i: int| 0 <= i < text.len() ==> is_hex_digit(#[trigger] text[i])
}

/// The hexadecimal text of some bytes is made of hexadecimal digits.
pub proof fn lemma_hex_text(bytes: Seq<u8>)
    ensures
        is_hex(hex_text(bytes), 2 * bytes.len()),
{
    assert forall|i: int| 0 <= i < hex_text(bytes).len() implies is_hex_digit(
        #[trigger] hex_text(bytes)[i],
    ) by {
        let b = bytes[i / 2];
        assert(b / 16 < 16 && b % 16 < 16);
    }
}

/// The hexadecimal text of some bytes.
pub fn to_hex(bytes: &[u8]) -> (text: String)
    ensures
        text@ == hex_text(bytes@),
        is_hex(text@, 2 * bytes@.len()),
{
    proof {
        lemma_hex_text(bytes@);
    }
    hex_encode(bytes)
}

/// Each byte is written as the digits of its two halves, the high half first.
pub proof fn law_hex_digits(bytes: Seq<u8>, i: int)
    requires
        0 <= i < bytes.len(),
    ensures
        hex_text(bytes).len() == 2 * bytes.len(),
        hex_text(bytes)[2 * i] == "0123456789abcdef"@[bytes[i] as int / 16],
        hex_text(bytes)[2 * i + 1] == "0123456789abcdef"@[bytes[i] as int % 16],
{
    lemma_hex_digit(bytes[i] / 16);
    lemma_hex_digit(bytes[i] % 16);
    assert((2 * i) / 2 == i && (2 * i) % 2 == 0);
    assert((2 * i + 1) / 2 == i && (2 * i + 1) % 2 == 1);
}

/// The digits in the order of their values.
proof fn lemma_hex_digit(n: u8)
    requires
        n < 16,
    ensures
        hex_digit(n) == "0123456789abcdef"@[n as int],
{
    reveal_strlit("0123456789abcdef");
    assert(n == 0 || n == 1 || n == 2 || n == 3 || n == 4 || n == 5 || n == 6 || n == 7 || n == 8
        || n == 9 || n == 10 || n == 11 || n == 12 || n == 13 || n == 14 || n == 15);
}

/// Different bytes have different hexadecimal texts.
pub proof fn law_hex_tells_bytes_apart(bytes: Seq<u8>, other: Seq<u8>)
    requires
        hex_text(bytes) == hex_text(other),
    ensures
        bytes == other,
{
    assert(hex_text(bytes).len() == 2 * bytes.len());
    assert(hex_text(other).len() == 2 * other.len());
    assert forall|i: int| 0 <= i < bytes.len() implies #[trigger] bytes[i] == other[i] by {
        law_hex_digits(bytes, i);
        law_hex_digits(other, i);
        reveal_strlit("0123456789abcdef");
        let high = bytes[i] / 16;
        let low = bytes[i] % 16;
        let other_high = other[i] / 16;
        let other_low = other[i] % 16;
        lemma_hex_digit(high);
        lemma_hex_digit(low);
        lemma_hex_digit(other_high);
        lemma_hex_digit(other_low);
        assert(high == other_high);
        assert(low == other_low);
        assert(bytes[i] == 16 * high + low);
        assert(other[i] == 16 * other_high + other_low);
    }
    assert(bytes =~= other);
}

/// Only the sixteen lower-case digits are hexadecimal digits.
pub proof fn law_what_is_a_hex_digit(c: char)
    ensures
        is_hex_digit(c) <==> "0123456789abcdef"@.contains(c),
{
    reveal_strlit("0123456789abcdef");
    let digits = "0123456789abcdef"@;
    if is_hex_digit(c) {
        let n: int = if c <= '9' {
            c as int - 48
        } else {
            c as int - 87
        };
        assert(0 <= n < 16);
        lemma_hex_digit(n as u8);
        assert(digits[n] == c);
    }
    if digits.contains(c) {
        let n = digits.index_of(c);
        assert(digits[n] == c);
        lemma_hex_digit(n as u8);
    }
}

} // verus!
