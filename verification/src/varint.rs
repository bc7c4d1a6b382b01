//! The variable-length integer encoding used for every length and identifier
//! field of the protocol: seven value bits per byte, least significant group
//! first, with the high bit of a byte marking that another byte follows.
//! A 32-bit value occupies at most five bytes.

use vstd::prelude::*;

verus! {

/// Failures of a VarInt decode: the buffer ended before a terminating byte,
/// or no terminating byte occurred within the five-byte ceiling.
#[derive(Clone, Copy, Debug, PartialEq, Eq, Structural)]
pub enum VarIntError {
    TruncatedInput,
    Overflow,
}

/// The canonical encoding of a value: base-128 digits, least significant
/// first, every byte but the last carrying the continuation bit.
pub open spec fn varint_encode(v: nat) -> Seq<u8>
    decreases v,
{
    if v < 128 {
        seq![v as u8]
    } else {
        seq![((v % 128) + 128) as u8] + varint_encode(v / 128)
    }
}

/// A terminating byte (one without the continuation bit) occurs somewhere
/// in `s`, so a decode starting at `s[0]` eventually stops.
pub open spec fn varint_complete(s: Seq<u8>) -> bool
    decreases s.len(),
{
    if s.len() == 0 {
        false
    } else if s[0] < 128 {
        true
    } else {
        varint_complete(s.skip(1))
    }
}

/// Number of bytes up to and including the first terminating byte.
/// Meaningful only when `varint_complete(s)` holds; always at least 1.
pub open spec fn varint_size(s: Seq<u8>) -> nat
    decreases s.len(),
{
    if s.len() == 0 {
        1
    } else if s[0] < 128 {
        1
    } else {
        1 + varint_size(s.skip(1))
    }
}

/// The unbounded value read from the front of `s`: seven bits per byte up to
/// the first terminating byte.
pub open spec fn varint_value(s: Seq<u8>) -> nat
    decreases s.len(),
{
    if s.len() == 0 {
        0
    } else if s[0] < 128 {
        s[0] as nat
    } else {
        ((s[0] - 128) as nat) + 128 * varint_value(s.skip(1))
    }
}

/// A decode at the front of `s` succeeds: it terminates within the
/// five-byte ceiling for 32-bit values.
pub open spec fn varint_ready(s: Seq<u8>) -> bool {
    varint_complete(s) && varint_size(s) <= 5
}

/// Encodes `value`; total for every `u32`.
pub fn encode(value: u32) -> (r: Vec<u8>)
    ensures
        r@ == varint_encode(value as nat),
        1 <= r@.len() <= 5,
{
    proof {
        lemma_varint_encode_len(value as nat);
    }
    let mut out: Vec<u8> = Vec::new();
    let mut val: u32 = value;
    while val >= 128
        invariant
            varint_encode(value as nat) == out@ + varint_encode(val as nat),
        decreases val,
    {
        out.push((val % 128 + 128) as u8);
        val = val / 128;
    }
    out.push(val as u8);
    proof {
        assert(varint_encode(value as nat) =~= out@);
    }
    out
}

/// Decodes a VarInt starting at `buf[offset]`.
///
/// Succeeds exactly when a terminating byte occurs within the first five
/// bytes available at the offset; returns the decoded value (the low 32 bits
/// of the unbounded reading) and the number of bytes consumed. Fails with
/// `TruncatedInput` when the buffer ends first, and with `Overflow` when
/// five continuation bytes are present.
pub fn decode(buf: &[u8], offset: usize) -> (r: Result<(u32, usize), VarIntError>)
    requires
        offset <= buf@.len(),
    ensures
        ({
            let s = buf@.skip(offset as int);
            match r {
                Ok(p) => {
                    &&& varint_ready(s)
                    &&& p.1 == varint_size(s)
                    &&& 1 <= p.1 <= 5
                    &&& offset + p.1 <= buf@.len()
                    &&& p.0 == varint_value(s) % 0x1_0000_0000
                },
                Err(VarIntError::TruncatedInput) => !varint_complete(s) && s.len() < 5,
                Err(VarIntError::Overflow) => !varint_ready(s) && s.len() >= 5,
            }
        }),
{
    let ghost s: Seq<u8> = buf@.skip(offset as int);
    let ghost s1 = s.skip(1);
    let ghost s2 = s.skip(2);
    let ghost s3 = s.skip(3);
    let ghost s4 = s.skip(4);
    let ghost s5 = s.skip(5);
    proof {
        assert(s.len() == buf@.len() - offset);
    }
    let n = buf.len();
    if offset >= n {
        proof {
            assert(!varint_complete(s));
        }
        return Err(VarIntError::TruncatedInput);
    }
    let b0 = buf[offset];
    proof {
        assert(s[0] == b0);
    }
    if b0 < 128 {
        proof {
            assert(varint_complete(s) && varint_size(s) == 1);
            assert(varint_value(s) == b0 as nat);
        }
        return Ok((b0 as u32, 1));
    }
    if n - offset < 2 {
        proof {
            assert(s1.len() == 0);
            assert(!varint_complete(s1));
            assert(!varint_complete(s));
        }
        return Err(VarIntError::TruncatedInput);
    }
    let b1 = buf[offset + 1];
    proof {
        assert(s1[0] == s[1] && s[1] == b1);
    }
    if b1 < 128 {
        let v: u32 = (b0 - 128) as u32 + (b1 as u32) * 128;
        proof {
            assert(varint_complete(s1) && varint_size(s1) == 1 && varint_value(s1) == b1 as nat);
            assert(varint_complete(s) && varint_size(s) == 2);
            assert(varint_value(s) == ((b0 - 128) as nat) + 128 * (b1 as nat));
            assert(varint_value(s) < 0x1_0000_0000);
        }
        return Ok((v, 2));
    }
    if n - offset < 3 {
        proof {
            assert(s1.skip(1) =~= s2);
            assert(s2.len() == 0);
            assert(!varint_complete(s2));
            assert(!varint_complete(s1));
            assert(!varint_complete(s));
        }
        return Err(VarIntError::TruncatedInput);
    }
    let b2 = buf[offset + 2];
    proof {
        assert(s2[0] == s[2] && s[2] == b2);
    }
    if b2 < 128 {
        let v: u32 = (b0 - 128) as u32 + ((b1 - 128) as u32) * 128 + (b2 as u32) * 16384;
        proof {
            assert(s1.skip(1) =~= s2);
            assert(varint_complete(s2) && varint_size(s2) == 1 && varint_value(s2) == b2 as nat);
            assert(varint_complete(s1) && varint_size(s1) == 2);
            assert(varint_complete(s) && varint_size(s) == 3);
            assert(varint_value(s1) == ((b1 - 128) as nat) + 128 * (b2 as nat));
            assert(varint_value(s) == ((b0 - 128) as nat) + 128 * varint_value(s1));
            assert(varint_value(s) < 0x1_0000_0000);
        }
        return Ok((v, 3));
    }
    if n - offset < 4 {
        proof {
            assert(s1.skip(1) =~= s2);
            assert(s2.skip(1) =~= s3);
            assert(s3.len() == 0);
            assert(!varint_complete(s3));
            assert(!varint_complete(s2));
            assert(!varint_complete(s1));
            assert(!varint_complete(s));
        }
        return Err(VarIntError::TruncatedInput);
    }
    let b3 = buf[offset + 3];
    proof {
        assert(s3[0] == s[3] && s[3] == b3);
    }
    if b3 < 128 {
        let v: u32 = (b0 - 128) as u32 + ((b1 - 128) as u32) * 128 + ((b2 - 128) as u32) * 16384
            + (b3 as u32) * 2097152;
        proof {
            assert(s1.skip(1) =~= s2);
            assert(s2.skip(1) =~= s3);
            assert(varint_complete(s3) && varint_size(s3) == 1 && varint_value(s3) == b3 as nat);
            assert(varint_complete(s2) && varint_size(s2) == 2);
            assert(varint_complete(s1) && varint_size(s1) == 3);
            assert(varint_complete(s) && varint_size(s) == 4);
            assert(varint_value(s2) == ((b2 - 128) as nat) + 128 * (b3 as nat));
            assert(varint_value(s1) == ((b1 - 128) as nat) + 128 * varint_value(s2));
            assert(varint_value(s) == ((b0 - 128) as nat) + 128 * varint_value(s1));
            assert(varint_value(s) < 0x1_0000_0000);
        }
        return Ok((v, 4));
    }
    if n - offset < 5 {
        proof {
            assert(s1.skip(1) =~= s2);
            assert(s2.skip(1) =~= s3);
            assert(s3.skip(1) =~= s4);
            assert(s4.len() == 0);
            assert(!varint_complete(s4));
            assert(!varint_complete(s3));
            assert(!varint_complete(s2));
            assert(!varint_complete(s1));
            assert(!varint_complete(s));
        }
        return Err(VarIntError::TruncatedInput);
    }
    let b4 = buf[offset + 4];
    proof {
        assert(s4[0] == s[4] && s[4] == b4);
    }
    if b4 < 128 {
        let total: u64 = (b0 - 128) as u64 + ((b1 - 128) as u64) * 128 + ((b2 - 128) as u64)
            * 16384 + ((b3 - 128) as u64) * 2097152 + (b4 as u64) * 268435456;
        let v: u32 = (total % 0x1_0000_0000) as u32;
        proof {
            assert(s1.skip(1) =~= s2);
            assert(s2.skip(1) =~= s3);
            assert(s3.skip(1) =~= s4);
            assert(varint_complete(s4) && varint_size(s4) == 1 && varint_value(s4) == b4 as nat);
            assert(varint_complete(s3) && varint_size(s3) == 2);
            assert(varint_complete(s2) && varint_size(s2) == 3);
            assert(varint_complete(s1) && varint_size(s1) == 4);
            assert(varint_complete(s) && varint_size(s) == 5);
            assert(varint_value(s3) == ((b3 - 128) as nat) + 128 * (b4 as nat));
            assert(varint_value(s2) == ((b2 - 128) as nat) + 128 * varint_value(s3));
            assert(varint_value(s1) == ((b1 - 128) as nat) + 128 * varint_value(s2));
            assert(varint_value(s) == ((b0 - 128) as nat) + 128 * varint_value(s1));
            assert(varint_value(s) == total as nat);
        }
        return Ok((v, 5));
    }
    proof {
        assert(s1.skip(1) =~= s2);
        assert(s2.skip(1) =~= s3);
        assert(s3.skip(1) =~= s4);
        assert(s4.skip(1) =~= s5);
        assert(varint_size(s5) >= 1);
        assert(varint_size(s4) == 1 + varint_size(s5));
        assert(varint_size(s3) == 1 + varint_size(s4));
        assert(varint_size(s2) == 1 + varint_size(s3));
        assert(varint_size(s1) == 1 + varint_size(s2));
        assert(varint_size(s) == 1 + varint_size(s1));
        assert(varint_size(s) > 5);
    }
    Err(VarIntError::Overflow)
}

/// The canonical encoding is one byte per base-128 digit: never empty, and
/// at most five bytes for values below `2^32`.
pub proof fn lemma_varint_encode_len(v: nat)
    ensures
        1 <= varint_encode(v).len(),
        v < 128 ==> varint_encode(v).len() == 1,
        v < 0x4000 ==> varint_encode(v).len() <= 2,
        v < 0x20_0000 ==> varint_encode(v).len() <= 3,
        v < 0x1000_0000 ==> varint_encode(v).len() <= 4,
        v < 0x1_0000_0000 ==> varint_encode(v).len() <= 5,
    decreases v,
{
    if v >= 128 {
        lemma_varint_encode_len(v / 128);
    }
}

/// Decoding at the front of a stream that begins with the canonical encoding
/// of `v` terminates within the encoding and yields `v`, whatever follows.
pub proof fn lemma_varint_decode_prefix(v: nat, tail: Seq<u8>)
    ensures
        varint_complete(varint_encode(v) + tail),
        varint_size(varint_encode(v) + tail) == varint_encode(v).len(),
        varint_value(varint_encode(v) + tail) == v,
    decreases v,
{
    let s = varint_encode(v) + tail;
    if v < 128 {
        assert(s[0] == v as u8);
    } else {
        let b: u8 = ((v % 128) + 128) as u8;
        assert(s[0] == b);
        assert(b >= 128);
        lemma_varint_decode_prefix(v / 128, tail);
        assert(s.skip(1) =~= varint_encode(v / 128) + tail);
        assert((v % 128) + 128 * (v / 128) == v) by {
            vstd::arithmetic::div_mod::lemma_fundamental_div_mod(v as int, 128);
        };
    }
}

/// A decode that terminates is unaffected by extending the stream.
pub proof fn lemma_varint_extend(s: Seq<u8>, t: Seq<u8>)
    requires
        varint_complete(s),
    ensures
        varint_complete(s + t),
        varint_size(s + t) == varint_size(s),
        varint_value(s + t) == varint_value(s),
    decreases s.len(),
{
    assert((s + t)[0] == s[0]);
    if s[0] >= 128 {
        lemma_varint_extend(s.skip(1), t);
        assert((s + t).skip(1) =~= s.skip(1) + t);
    }
}

/// VarInt round trip: decoding the canonical encoding of any 32-bit value
/// yields that value, consuming exactly the encoded bytes.
pub proof fn lemma_varint_round_trip(v: nat)
    requires
        v < 0x1_0000_0000,
    ensures
        varint_ready(varint_encode(v)),
        varint_size(varint_encode(v)) == varint_encode(v).len(),
        varint_value(varint_encode(v)) == v,
{
    lemma_varint_decode_prefix(v, Seq::empty());
    lemma_varint_encode_len(v);
    assert(varint_encode(v) + Seq::<u8>::empty() =~= varint_encode(v));
}

} // verus!
