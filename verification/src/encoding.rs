//! Text encodings of byte strings: standard base64 for the container fields
//! and lowercase hexadecimal for digests.

use vstd::prelude::*;

verus! {

/// The standard base64 text of some bytes: the alphabet of RFC 4648, padded
/// with `=` to a multiple of four characters.
pub uninterp spec fn base64_text(bytes: Seq<u8>) -> Seq<char>;

/// The bytes that the strict standard decoder reads from a text, or `None`
/// where it rejects the text.
pub uninterp spec fn base64_bytes(text: Seq<char>) -> Option<Seq<u8>>;

/// The number of characters in the padded base64 text of `len` bytes.
pub open spec fn base64_len(len: nat) -> nat {
    (len + 2) / 3 * 4
}

/// The base64 text of `len` bytes has a length that fits the machine word.
pub open spec fn base64_fits(len: nat) -> bool {
    base64_len(len) <= usize::MAX
}

/// The error type of the `base64` decoder, carried as an opaque value.
#[verifier::external_type_specification]
#[verifier::external_body]
pub struct ExDecodeError(base64::DecodeError);

/// Calls `Engine::encode` on `general_purpose::STANDARD`. The contract names
/// the text, gives its length as the crate computes it, and says that the
/// strict decoder reads the same bytes back from it. The crate panics where
/// the length of the text overflows, which `requires` leaves out.
#[verifier::external_body]
pub(crate) fn base64_encode(bytes: &[u8]) -> (text: String)
    requires
        base64_fits(bytes@.len()),
    ensures
        text@ == base64_text(bytes@),
        text@.len() == base64_len(bytes@.len()),
        base64_bytes(text@) == Some(bytes@),
{
    base64::Engine::encode(&base64::engine::general_purpose::STANDARD, bytes)
}

/// Calls `Engine::decode` on `general_purpose::STANDARD`, which accepts
/// canonical padded text only; the contract names what it reads.
#[verifier::external_body]
pub(crate) fn base64_decode(text: &str) -> (r: Result<Vec<u8>, base64::DecodeError>)
    ensures
        match r {
            Ok(bytes) => base64_bytes(text@) == Some(bytes@),
            Err(_) => base64_bytes(text@) is None,
        },
{
    base64::Engine::decode(&base64::engine::general_purpose::STANDARD, text)
}

/// Tells whether `len` bytes can be encoded without overflow of the length.
pub fn can_encode(len: usize) -> (r: bool)
    ensures
        r == base64_fits(len as nat),
{
    let groups: usize = if len % 3 == 0 {
        len / 3
    } else {
        len / 3 + 1
    };
    groups <= usize::MAX / 4
}

/// The lowercase hexadecimal digit of a value below sixteen.
pub open spec fn hex_digit(value: int) -> char {
    if value < 10 {
        ('0' as int + value) as char
    } else {
        ('a' as int + value - 10) as char
    }
}

/// Two lowercase hexadecimal digits for each byte, the high half first.
pub open spec fn hex_text(bytes: Seq<u8>) -> Seq<char> {
    Seq::new(
        2 * bytes.len(),
        |i: int|
            hex_digit(
                if i % 2 == 0 {
                    bytes[i / 2] as int / 16
                } else {
                    bytes[i / 2] as int % 16
                },
            ),
    )
}

/// Calls `hex::encode`, which writes each byte as two lowercase hexadecimal
/// digits.
#[verifier::external_body]
pub(crate) fn hex_encode(bytes: &[u8]) -> (text: String)
    ensures
        text@ == hex_text(bytes@),
{
    hex::encode(bytes)
}

/// Different values below sixteen have different digits.
pub proof fn lemma_hex_digit_injective(a: int, b: int)
    requires
        0 <= a < 16,
        0 <= b < 16,
        hex_digit(a) == hex_digit(b),
    ensures
        a == b,
{
    assert(hex_digit(a) as int == if a < 10 { 48 + a } else { 87 + a });
    assert(hex_digit(b) as int == if b < 10 { 48 + b } else { 87 + b });
}

/// Different byte strings have different hexadecimal texts.
pub proof fn lemma_hex_text_injective(a: Seq<u8>, b: Seq<u8>)
    ensures
        hex_text(a) == hex_text(b) ==> a == b,
{
    if hex_text(a) == hex_text(b) {
        assert(hex_text(a).len() == 2 * a.len());
        assert(hex_text(b).len() == 2 * b.len());
        assert forall|k: int| 0 <= k < a.len() implies a[k] == b[k] by {
            assert(hex_text(a)[2 * k] == hex_text(b)[2 * k]);
            assert(hex_text(a)[2 * k + 1] == hex_text(b)[2 * k + 1]);
            assert(hex_text(a)[2 * k] == hex_digit(a[k] as int / 16));
            assert(hex_text(b)[2 * k] == hex_digit(b[k] as int / 16));
            assert(hex_text(a)[2 * k + 1] == hex_digit(a[k] as int % 16));
            assert(hex_text(b)[2 * k + 1] == hex_digit(b[k] as int % 16));
            lemma_hex_digit_injective(a[k] as int / 16, b[k] as int / 16);
            lemma_hex_digit_injective(a[k] as int % 16, b[k] as int % 16);
        }
        assert(a =~= b);
    }
}

} // verus!
