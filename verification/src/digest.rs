//! SHA-256 digests in their lowercase hexadecimal form.
use vstd::prelude::*;

use crate::error::{refusal, refuse, CoordinatorError, ErrorCategory, Refusal};
use crate::text::chars_of;
use sha2::Digest;
use vstd::utf8::*;

verus! {

/// A lowercase hexadecimal digit.
pub open spec fn hex_digit(n: int) -> char {
    if n < 10 {
        ('0' as u32 + n) as char
    } else {
        ('a' as u32 + (n - 10)) as char
    }
}

/// Digits with different values look different.
pub proof fn hex_digits_differ(a: int, b: int)
    requires
        0 <= a < 16,
        0 <= b < 16,
        hex_digit(a) == hex_digit(b),
    ensures
        a == b,
{
}

/// The lowercase hexadecimal form of bytes: two digits for each, the high one first.
pub open spec fn hex_form(bytes: Seq<u8>) -> Seq<char> {
    Seq::new(
        2 * bytes.len(),
        |i: int|
            if i % 2 == 0 {
                hex_digit(bytes[i / 2] as int / 16)
            } else {
                hex_digit(bytes[i / 2] as int % 16)
            },
    )
}

/// The SHA-256 hash that `sha2::Sha256::digest` computes.
pub uninterp spec fn sha256(bytes: Seq<u8>) -> Seq<u8>;

/// `hex::encode`: two lowercase hexadecimal digits for each byte, in order.
#[verifier::external_body]
fn encode_hex(bytes: &[u8]) -> (r: String)
    ensures
        r@ == hex_form(bytes@),
{
    hex::encode(bytes)
}

/// `sha2::Sha256::digest`: 32 bytes that depend on the input alone.
#[verifier::external_body]
fn hash_bytes(bytes: &[u8]) -> (r: Vec<u8>)
    ensures
        r@ == sha256(bytes@),
        r@.len() == 32,
{
    sha2::Sha256::digest(bytes).to_vec()
}

/// The digest of bytes in its textual form.
pub open spec fn digest_form(bytes: Seq<u8>) -> Seq<char> {
    hex_form(sha256(bytes))
}

/// Writes bytes as lowercase hexadecimal digits.
pub fn hex_text(bytes: &[u8]) -> (r: String)
    ensures
        r@ == hex_form(bytes@),
{
    encode_hex(bytes)
}

/// The hexadecimal form of 32 bytes has the form of a digest.
pub proof fn hex_forms_are_digest_shaped(bytes: Seq<u8>)
    requires
        bytes.len() == 32,
    ensures
        digest_shaped(hex_form(bytes)),
{
    assert forall|i: int| 0 <= i < 64 implies lower_hex(#[trigger] hex_form(bytes)[i]) by {
        let high = bytes[i / 2] as int / 16;
        let low = bytes[i / 2] as int % 16;
        assert(0 <= high < 16 && 0 <= low < 16);
    }
}

/// The digest of bytes.
pub fn digest_bytes(bytes: &[u8]) -> (r: String)
    ensures
        r@ == digest_form(bytes@),
        digest_shaped(r@),
{
    let hash = hash_bytes(bytes);
    proof {
        hex_forms_are_digest_shaped(hash@);
    }
    encode_hex(hash.as_slice())
}

/// The digest of a text's UTF-8 encoding.
pub fn digest_text(text: &str) -> (r: String)
    ensures
        r@ == digest_form(encode_utf8(text@)),
        digest_shaped(r@),
{
    digest_bytes(text.as_bytes())
}

/// A digit of a lowercase hexadecimal number.
pub open spec fn lower_hex(c: char) -> bool {
    '0' <= c <= '9' || 'a' <= c <= 'f'
}

/// The form of a lowercase SHA-256 digest.
pub open spec fn digest_shaped(s: Seq<char>) -> bool {
    s.len() == 64 && forall|i: int| 0 <= i < 64 ==> lower_hex(#[trigger] s[i])
}

/// The refusal of a text that is no digest.
pub open spec fn not_a_digest() -> Refusal {
    refusal(ErrorCategory::InvalidInput, "profile digest must be lowercase SHA-256"@)
}

/// Whether a text has the form of a digest.
pub fn is_digest(value: &str) -> (r: bool)
    ensures
        r == digest_shaped(value@),
{
    let chars = chars_of(value);
    if chars.len() != 64 {
        return false;
    }
    let mut i: usize = 0;
    while i < 64
        invariant
            i <= 64,
            chars.len() == 64,
            chars@ == value@,
            forall|j: int| 0 <= j < i ==> lower_hex(#[trigger] value@[j]),
        decreases 64 - i,
    {
        let c = chars[i];
        if !(('0' <= c && c <= '9') || ('a' <= c && c <= 'f')) {
            assert(!lower_hex(value@[i as int]));
            return false;
        }
        i += 1;
    }
    true
}

/// Requires the form of a digest.
pub fn validate_digest(value: &str) -> (r: Result<(), CoordinatorError>)
    ensures
        match r {
            Ok(_) => digest_shaped(value@),
            Err(e) => !digest_shaped(value@) && e@ == not_a_digest(),
        },
{
    if is_digest(value) {
        Ok(())
    } else {
        Err(refuse(ErrorCategory::InvalidInput, "profile digest must be lowercase SHA-256"))
    }
}

} // verus!
