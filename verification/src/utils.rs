//! Text normalisation and the stable hash from which topic keys are made.

use crate::micro::{div_round, round_div, ONE};
use crate::text::{chars_of, string_of, strip_slice, trim_of};
use vstd::prelude::*;

verus! {

/// The lowercase form of a text, as Unicode defines it.
pub uninterp spec fn lowercase_of(s: Seq<char>) -> Seq<char>;

/// `str::to_lowercase`: the lowercase equivalent of the string slice, as a
/// new string. Which characters change, and into what, is Unicode's matter
/// and is not stated here: the result only has a name.
#[verifier::external_body]
fn lowercase(s: &str) -> (r: String)
    ensures
        r@ == lowercase_of(s@),
{
    s.to_lowercase()
}

/// The text without white space at its ends, in lowercase.
pub fn normalize_text(text: &str) -> (r: String)
    ensures
        r@ == lowercase_of(trim_of(text@)),
{
    let chars = chars_of(text);
    let trimmed = string_of(strip_slice(chars.as_slice(), false));
    lowercase(trimmed.as_str())
}

/// Start value of the hash.
pub const HASH_BASIS: u64 = 0xcbf2_29d1_821f_1cfd;

/// Multiplier of the hash.
pub const HASH_PRIME: u64 = 0x0000_0100_0000_01b3;

/// The hash after one more byte: exclusive-or, then a wrapping multiplication.
pub open spec fn mix(h: u64, b: u8) -> u64 {
    (h ^ (b as u64)).wrapping_mul(HASH_PRIME)
}

/// The hash of a run of bytes, taken first to last.
pub open spec fn hash_bytes(bytes: Seq<u8>) -> u64
    decreases bytes.len(),
{
    if bytes.len() == 0 {
        HASH_BASIS
    } else {
        mix(hash_bytes(bytes.drop_last()), bytes.last())
    }
}

/// Sixteen bits of the hash, from bit 11 up.
pub open spec fn low_half(h: u64) -> u64 {
    (h >> 11) & 0xFFFF
}

/// Sixteen bits of the hash, from bit 27 up.
pub open spec fn high_half(h: u64) -> u64 {
    (h >> 27) & 0xFFFF
}

/// The hash of a text: the hash of its bytes in UTF-8.
pub open spec fn hash_text(text: Seq<char>) -> u64 {
    hash_bytes(vstd::utf8::encode_utf8(text))
}

/// The hash of a string slice.
pub fn hash_of(s: &str) -> (h: u64)
    ensures
        h == hash_text(s@),
{
    let bytes = s.as_bytes();
    let mut h: u64 = HASH_BASIS;
    let mut i: usize = 0;
    while i < bytes.len()
        invariant
            i <= bytes.len(),
            h == hash_bytes(bytes@.take(i as int)),
        decreases bytes.len() - i,
    {
        proof {
            assert(bytes@.take(i + 1).drop_last() =~= bytes@.take(i as int));
        }
        h = (h ^ (bytes[i] as u64)).wrapping_mul(HASH_PRIME);
        i += 1;
    }
    assert(bytes@.take(i as int) =~= bytes@);
    h
}

/// The two sixteen-bit halves that are taken from a hash.
pub fn halves(h: u64) -> (r: (u64, u64))
    ensures
        r.0 == low_half(h),
        r.1 == high_half(h),
        r.0 <= 0xFFFF,
        r.1 <= 0xFFFF,
{
    let a: u64 = (h >> 11) & 0xFFFF;
    let b: u64 = (h >> 27) & 0xFFFF;
    assert((h >> 11) & 0xFFFF <= 0xFFFF) by (bit_vector);
    assert((h >> 27) & 0xFFFF <= 0xFFFF) by (bit_vector);
    (a, b)
}

/// A sixteen-bit value as a fraction of the unit range, in millionths.
pub open spec fn unit_fraction(n: int) -> int {
    round_div(n * ONE, 65535)
}

/// A stable pair of pseudo-random fractions of the unit range for a text.
pub fn hash01(s: &str) -> (r: (i64, i64))
    ensures
        r.0 == unit_fraction(low_half(hash_text(s@)) as int),
        r.1 == unit_fraction(high_half(hash_text(s@)) as int),
        0 <= r.0 <= ONE,
        0 <= r.1 <= ONE,
{
    let (a, b) = halves(hash_of(s));
    let x: i128 = div_round(a as i128 * 1_000_000, 65535);
    let y: i128 = div_round(b as i128 * 1_000_000, 65535);
    (x as i64, y as i64)
}

} // verus!
