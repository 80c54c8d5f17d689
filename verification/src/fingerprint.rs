//! The cache key hasher: a 128-bit FNV-1a fingerprint of a string's UTF-8
//! bytes, rendered as 32 lowercase hexadecimal digits.

use vstd::prelude::*;

verus! {

/// The FNV-1a offset basis for 128-bit hashes.
pub const FNV_OFFSET_BASIS: u128 = 0x6c62272e07bb014262b821756295c58d;

/// The FNV prime for 128-bit hashes.
pub const FNV_PRIME: u128 = 0x0000000001000000000000000000013b;

/// The number of hexadecimal digits in a fingerprint.
pub const FINGERPRINT_LEN: usize = 32;

/// One round of FNV-1a: xor `byte` into the running hash `h`, then multiply by
/// the prime modulo 2^128.
pub open spec fn fnv1a_round(h: u128, byte: u8) -> u128 {
    (h ^ (byte as u128)).wrapping_mul(FNV_PRIME)
}

/// The FNV-1a hash of `bytes`, folded from the left.
pub open spec fn fnv1a(bytes: Seq<u8>) -> u128
    decreases bytes.len(),
{
    if bytes.len() == 0 {
        FNV_OFFSET_BASIS
    } else {
        fnv1a_round(fnv1a(bytes.drop_last()), bytes.last())
    }
}

/// Computes the FNV-1a hash of `bytes`.
pub fn hash_bytes(bytes: &[u8]) -> (h: u128)
    ensures
        h == fnv1a(bytes@),
{
    let mut h: u128 = FNV_OFFSET_BASIS;
    let mut i: usize = 0;
    while i < bytes.len()
        invariant
            i <= bytes.len(),
            h == fnv1a(bytes@.take(i as int)),
        decreases bytes.len() - i,
    {
        proof {
            assert(bytes@.take(i + 1).drop_last() =~= bytes@.take(i as int));
        }
        h = (h ^ (bytes[i] as u128)).wrapping_mul(FNV_PRIME);
        i += 1;
    }
    proof {
        assert(bytes@.take(i as int) =~= bytes@);
    }
    h
}

/// The hexadecimal digits, by value.
pub const HEX_DIGITS: &'static str = "0123456789abcdef";

/// The four bits of `h` that start `shift` bits above its lowest bit.
pub open spec fn nibble(h: u128, shift: u32) -> u128 {
    (h >> shift) & 0xf
}

/// The digit at index `i` of the rendering of `h`, the highest four bits first.
pub open spec fn hex_digit_at(h: u128, i: int) -> char {
    HEX_DIGITS@[nibble(h, (4 * (FINGERPRINT_LEN - 1 - i)) as u32) as int]
}

/// `h` as 32 lowercase hexadecimal digits, the highest first.
pub open spec fn hex_text(h: u128) -> Seq<char> {
    Seq::new(FINGERPRINT_LEN as nat, |i: int| hex_digit_at(h, i))
}

/// The fingerprint of a string: the hash of its UTF-8 bytes in hexadecimal.
pub open spec fn fingerprint_of(text: Seq<char>) -> Seq<char> {
    hex_text(fnv1a(vstd::utf8::encode_utf8(text)))
}

/// Whether `c` is a lowercase hexadecimal digit.
pub open spec fn is_hex_digit(c: char) -> bool {
    ('0' <= c <= '9') || ('a' <= c <= 'f')
}

/// Whether `text` has the shape of a fingerprint: 32 lowercase hexadecimal
/// digits.
pub open spec fn is_fingerprint(text: Seq<char>) -> bool {
    &&& text.len() == FINGERPRINT_LEN
    &&& forall|i: int| 0 <= i < text.len() ==> is_hex_digit(#[trigger] text[i])
}

/// The rendering of every number has the shape of a fingerprint.
pub proof fn lemma_hex_text_is_fingerprint(h: u128)
    ensures
        is_fingerprint(hex_text(h)),
{
    reveal_strlit("0123456789abcdef");
    assert forall|i: int| 0 <= i < hex_text(h).len() implies is_hex_digit(
        #[trigger] hex_text(h)[i],
    ) by {
        let shift = (4 * (FINGERPRINT_LEN - 1 - i)) as u32;
        let value = nibble(h, shift);
        assert(value < 16) by (bit_vector)
            requires
                value == (h >> shift) & 0xf,
        ;
    }
}

/// Renders `h` as 32 lowercase hexadecimal digits, the highest first.
pub fn to_hex(h: u128) -> (text: String)
    ensures
        text@ == hex_text(h),
        is_fingerprint(text@),
{
    let mut text = String::new();
    let mut i: usize = 0;
    proof {
        reveal_strlit("0123456789abcdef");
    }
    while i < FINGERPRINT_LEN
        invariant
            i <= FINGERPRINT_LEN,
            text@.len() == i,
            forall|j: int| 0 <= j < i ==> text@[j] == hex_digit_at(h, j),
            HEX_DIGITS@.len() == 16,
            HEX_DIGITS.is_ascii(),
        decreases FINGERPRINT_LEN - i,
    {
        let shift: u32 = 4 * (FINGERPRINT_LEN - 1 - i) as u32;
        let value = (h >> shift) & 0xf;
        assert(value < 16) by (bit_vector)
            requires
                value == (h >> shift) & 0xf,
        ;
        let digit = HEX_DIGITS.substring_ascii(value as usize, value as usize + 1);
        text.append(digit);
        i += 1;
    }
    proof {
        lemma_hex_text_is_fingerprint(h);
    }
    text
}

/// Computes the fingerprint of `text`.
pub fn fingerprint(text: &str) -> (key: String)
    ensures
        key@ == fingerprint_of(text@),
        is_fingerprint(key@),
{
    to_hex(hash_bytes(text.as_bytes()))
}

} // verus!
