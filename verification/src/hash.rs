//! The username-hash utility: the SHA-1 digest of a name read as a
//! two's-complement big-endian integer and written in lowercase base 16,
//! with a leading minus sign when that integer is negative. The digest
//! itself comes from an outside implementation; what is made of its bytes
//! is specified exactly.

use vstd::prelude::*;
use vstd::arithmetic::power2::pow2;
use sha1::Digest;

verus! {

/// The SHA-1 digest of the UTF-8 bytes of a string: named, not written out —
/// it depends on the characters alone.
pub uninterp spec fn sha1_of(s: Seq<char>) -> Seq<u8>;

/// The unsigned big-endian reading of a byte string.
pub open spec fn be_unsigned(b: Seq<u8>) -> nat
    decreases b.len(),
{
    if b.len() == 0 {
        0
    } else {
        be_unsigned(b.drop_last()) * 256 + b.last() as nat
    }
}

/// The two's-complement big-endian reading: the unsigned reading, less
/// `2^(8n)` when the leading bit is set.
pub open spec fn be_signed(b: Seq<u8>) -> int {
    if b.len() == 0 {
        0
    } else if b[0] >= 128 {
        be_unsigned(b) - pow2(8 * b.len())
    } else {
        be_unsigned(b) as int
    }
}

/// The lowercase base-16 digit for a value below 16.
pub open spec fn hex_digit(d: nat) -> char {
    if d == 0 {
        '0'
    } else if d == 1 {
        '1'
    } else if d == 2 {
        '2'
    } else if d == 3 {
        '3'
    } else if d == 4 {
        '4'
    } else if d == 5 {
        '5'
    } else if d == 6 {
        '6'
    } else if d == 7 {
        '7'
    } else if d == 8 {
        '8'
    } else if d == 9 {
        '9'
    } else if d == 10 {
        'a'
    } else if d == 11 {
        'b'
    } else if d == 12 {
        'c'
    } else if d == 13 {
        'd'
    } else if d == 14 {
        'e'
    } else {
        'f'
    }
}

/// The base-16 digits of `n`, most significant first, without leading
/// zeros; `0` is the single digit `0`.
pub open spec fn hex_digits(n: nat) -> Seq<char>
    decreases n,
{
    if n < 16 {
        seq![hex_digit(n)]
    } else {
        hex_digits(n / 16).push(hex_digit(n % 16))
    }
}

/// The base-16 rendering of the two's-complement big-endian reading of a
/// byte string: the digits of its magnitude, behind a minus sign when it is
/// negative.
pub open spec fn signed_radix16(b: Seq<u8>) -> Seq<char> {
    let v = be_signed(b);
    if v < 0 {
        seq!['-'] + hex_digits((-v) as nat)
    } else {
        hex_digits(v as nat)
    }
}

/// Relies on `sha1::Sha1::digest`: a 20-byte digest that depends on the
/// input bytes alone.
#[verifier::external_body]
fn sha1_digest(name: &str) -> (r: Vec<u8>)
    ensures
        r@ == sha1_of(name@),
        r@.len() == 20,
{
    sha1::Sha1::digest(name).to_vec()
}

/// Relies on `num_bigint::BigInt::from_signed_bytes_be` (the
/// two's-complement big-endian reading of the bytes) and
/// `num_bigint::BigInt::to_str_radix` with radix 16 (lowercase digits
/// without leading zeros, behind `-` for a negative value).
#[verifier::external_body]
fn signed_hex(bytes: &Vec<u8>) -> (r: String)
    ensures
        r@ == signed_radix16(bytes@),
{
    num_bigint::BigInt::from_signed_bytes_be(bytes).to_str_radix(16)
}

/// The username hash: the SHA-1 digest of the name, read as a
/// two's-complement big-endian integer and rendered in lowercase base 16.
pub fn calc_hash(name: &str) -> (r: String)
    ensures
        r@ == signed_radix16(sha1_of(name@)),
        sha1_of(name@).len() == 20,
{
    let digest = sha1_digest(name);
    signed_hex(&digest)
}

} // verus!
