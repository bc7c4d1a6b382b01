//! Stream-to-message reconstruction. The transport delivers arbitrary byte
//! chunks with no message boundaries; the `Reassembler` accumulates them and
//! slices out complete length-prefixed frames, carrying any partial frame
//! forward to the next chunk. A declared length above the configured ceiling
//! poisons the instance: raw bytes may still be relayed by the caller, but
//! no further decoding is attempted on that stream.

use vstd::prelude::*;
use crate::varint::{
    decode, lemma_varint_decode_prefix, lemma_varint_encode_len, lemma_varint_extend,
    varint_complete, varint_encode, varint_ready, varint_size, varint_value, VarIntError,
};

verus! {

/// One length-delimited protocol message extracted from the byte stream.
/// `declared_length` counts the identifier's wire bytes plus the payload.
#[derive(Debug)]
pub struct Frame {
    pub declared_length: u32,
    pub identifier: u32,
    pub payload: Vec<u8>,
}

/// Failures of `Reassembler::feed`: a declared frame length above the
/// ceiling, or any call after the instance was poisoned by one.
#[derive(Clone, Copy, Debug, PartialEq, Eq, Structural)]
pub enum FrameError {
    FrameTooLarge,
    Poisoned,
}

/// Largest declared frame length accepted by default: `2^21` bytes, a guard
/// against unbounded buffering on behalf of a malformed peer.
pub const MAX_FRAME_LEN: u32 = 0x20_0000;

impl Frame {
    /// The mathematical content of a frame: declared length, identifier,
    /// payload bytes.
    pub open spec fn model(self) -> (nat, nat, Seq<u8>) {
        (self.declared_length as nat, self.identifier as nat, self.payload@)
    }
}

/// The models of a sequence of frames.
pub open spec fn frame_models(frames: Seq<Frame>) -> Seq<(nat, nat, Seq<u8>)> {
    frames.map_values(|f: Frame| f.model())
}

proof fn lemma_frame_models_push(frames: Seq<Frame>, f: Frame)
    ensures
        frame_models(frames.push(f)) == frame_models(frames).push(f.model()),
{
    assert(frame_models(frames.push(f)) =~= frame_models(frames).push(f.model()));
}

/// The body of one frame read as identifier plus payload. `None` when the
/// identifier's VarInt does not terminate inside the body; such a frame is
/// consumed but yields no observation.
pub open spec fn parse_body(declared: nat, body: Seq<u8>) -> Option<(nat, nat, Seq<u8>)> {
    if varint_ready(body) {
        Some(
            (declared, varint_value(body) % 0x1_0000_0000, body.skip(varint_size(body) as int)),
        )
    } else {
        None
    }
}

/// Greedy parse of a byte stream into frames: the emitted frame models, the
/// retained remainder (a partial frame at most), and whether the stream is
/// poisoned. A length prefix whose VarInt overflows the five-byte ceiling
/// declares a length beyond any guard and also poisons.
pub open spec fn parse_frames(s: Seq<u8>, max: nat) -> (Seq<(nat, nat, Seq<u8>)>, Seq<u8>, bool)
    decreases s.len(),
{
    if !varint_ready(s) {
        if s.len() >= 5 {
            (Seq::empty(), s, true)
        } else {
            (Seq::empty(), s, false)
        }
    } else {
        let n = varint_size(s) as int;
        let len = (varint_value(s) % 0x1_0000_0000) as int;
        if len > max {
            (Seq::empty(), s, true)
        } else if s.len() < n + len {
            (Seq::empty(), s, false)
        } else {
            let body = s.subrange(n, n + len);
            let rest = parse_frames(s.skip(n + len), max);
            let head: Seq<(nat, nat, Seq<u8>)> = match parse_body(len as nat, body) {
                Some(f) => seq![f],
                None => Seq::empty(),
            };
            (head + rest.0, rest.1, rest.2)
        }
    }
}

/// The canonical wire encoding of one frame: a VarInt length prefix followed
/// by the VarInt identifier and the payload; the declared length counts the
/// identifier's bytes plus the payload.
pub open spec fn encode_frame(identifier: nat, payload: Seq<u8>) -> Seq<u8> {
    let body = varint_encode(identifier) + payload;
    varint_encode(body.len()) + body
}

/// A frame model whose declared length is exactly its canonical wire body
/// and lies within the ceiling, with a 32-bit identifier.
pub open spec fn frame_canonical(f: (nat, nat, Seq<u8>), max: nat) -> bool {
    &&& f.1 < 0x1_0000_0000
    &&& f.0 == varint_encode(f.1).len() + f.2.len()
    &&& f.0 <= max
}

/// The concatenation of the canonical encodings of a sequence of frames.
pub open spec fn encode_frames(fs: Seq<(nat, nat, Seq<u8>)>) -> Seq<u8>
    decreases fs.len(),
{
    if fs.len() == 0 {
        Seq::empty()
    } else {
        encode_frame(fs[0].1, fs[0].2) + encode_frames(fs.skip(1))
    }
}

/// Reassembler completeness: a stream that is exactly the concatenation of
/// canonically encoded frames, each within the ceiling, parses back to
/// exactly those frames, in order, with nothing retained and no poisoning.
/// Together with `lemma_parse_frames_split` this holds however the stream
/// is cut into chunks, including byte by byte.
pub proof fn lemma_reassembler_complete(fs: Seq<(nat, nat, Seq<u8>)>, max: nat)
    requires
        max < 0x1_0000_0000,
        forall|i: int| 0 <= i < fs.len() ==> frame_canonical(#[trigger] fs[i], max),
    ensures
        parse_frames(encode_frames(fs), max).0 == fs,
        parse_frames(encode_frames(fs), max).1 == Seq::<u8>::empty(),
        !parse_frames(encode_frames(fs), max).2,
    decreases fs.len(),
{
    let s = encode_frames(fs);
    if fs.len() == 0 {
        assert(s.len() == 0);
        assert(!varint_complete(s));
        assert(parse_frames(s, max).0 =~= Seq::<(nat, nat, Seq<u8>)>::empty());
    } else {
        let f = fs[0];
        let len = f.0;
        let id = f.1;
        let payload = f.2;
        let body = varint_encode(id) + payload;
        let rest = encode_frames(fs.skip(1));
        let n = varint_encode(len).len() as int;
        assert(s == encode_frame(id, payload) + rest);
        assert(varint_encode(len) + (body + rest) =~= s);
        lemma_varint_decode_prefix(len, body + rest);
        lemma_varint_encode_len(len);
        assert(varint_ready(s));
        assert(varint_size(s) == n);
        assert(varint_value(s) == len);
        assert(varint_value(s) % 0x1_0000_0000 == len);
        assert(body.len() == len);
        assert(s.len() == n + len + rest.len());
        assert(s.subrange(n, n + len as int) =~= body);
        lemma_varint_decode_prefix(id, payload);
        lemma_varint_encode_len(id);
        assert(varint_ready(body));
        assert(varint_value(body) % 0x1_0000_0000 == id);
        assert(body.skip(varint_size(body) as int) =~= payload);
        assert(f =~= (len, id, payload));
        assert(parse_body(len, body) == Some(f));
        assert(s.skip(n + len as int) =~= rest);
        lemma_reassembler_complete(fs.skip(1), max);
        assert(parse_frames(s, max).0 == seq![f] + parse_frames(rest, max).0);
        assert(seq![f] + fs.skip(1) =~= fs);
    }
}

/// The frame invariant, for every frame a parse ever emits: the payload is
/// the declared body less the identifier's wire bytes (between one and five
/// of them), the declared length is within the ceiling, and the identifier
/// is a 32-bit value.
pub proof fn lemma_emitted_frame_invariant(s: Seq<u8>, max: nat)
    ensures
        forall|i: int|
            0 <= i < parse_frames(s, max).0.len() ==> {
                let f = #[trigger] parse_frames(s, max).0[i];
                &&& f.2.len() + 1 <= f.0 <= f.2.len() + 5
                &&& f.0 <= max
                &&& f.1 < 0x1_0000_0000
            },
    decreases s.len(),
{
    if varint_ready(s) {
        let n = varint_size(s) as int;
        let len = (varint_value(s) % 0x1_0000_0000) as int;
        if len <= max && s.len() >= n + len {
            let body = s.subrange(n, n + len);
            let rest = parse_frames(s.skip(n + len), max).0;
            let all = parse_frames(s, max).0;
            lemma_emitted_frame_invariant(s.skip(n + len), max);
            match parse_body(len as nat, body) {
                Some(f) => {
                    let idn = varint_size(body) as int;
                    assert(varint_size(body) >= 1);
                    assert(idn <= body.len()) by {
                        lemma_varint_size_le_len(body);
                    }
                    assert(f.2.len() == len - idn);
                    assert(all == seq![f] + rest);
                    assert forall|i: int| 0 <= i < all.len() implies {
                        let g = #[trigger] all[i];
                        &&& g.2.len() + 1 <= g.0 <= g.2.len() + 5
                        &&& g.0 <= max
                        &&& g.1 < 0x1_0000_0000
                    } by {
                        if i == 0 {
                            assert(all[0] == f);
                        } else {
                            assert(all[i] == rest[i - 1]);
                        }
                    }
                },
                None => {
                    assert(all =~= rest);
                },
            }
        }
    }
}

/// Where a decode terminates, it has consumed no more bytes than exist.
proof fn lemma_varint_size_le_len(s: Seq<u8>)
    requires
        varint_complete(s),
    ensures
        varint_size(s) <= s.len(),
    decreases s.len(),
{
    if s[0] >= 128 {
        lemma_varint_size_le_len(s.skip(1));
    }
}

/// Chunk-split invariance: feeding `s` and then `t` (carrying the remainder
/// of `s` forward, as `Reassembler::feed` does) emits the same frames, and
/// leaves the same remainder and poison state, as feeding `s + t` at once.
pub proof fn lemma_parse_frames_split(s: Seq<u8>, t: Seq<u8>, max: nat)
    requires
        !parse_frames(s, max).2,
    ensures
        parse_frames(s + t, max).0 == parse_frames(s, max).0 + parse_frames(
            parse_frames(s, max).1 + t,
            max,
        ).0,
        parse_frames(s + t, max).1 == parse_frames(parse_frames(s, max).1 + t, max).1,
        parse_frames(s + t, max).2 == parse_frames(parse_frames(s, max).1 + t, max).2,
    decreases s.len(),
{
    if !varint_ready(s) {
        assert(s.len() < 5);
        assert(parse_frames(s, max).1 == s);
        assert(parse_frames(s, max).0 + parse_frames(s + t, max).0 =~= parse_frames(
            s + t,
            max,
        ).0);
    } else {
        let n = varint_size(s) as int;
        let len = (varint_value(s) % 0x1_0000_0000) as int;
        if len > max {
            assert(parse_frames(s, max).2);
        } else if s.len() < n + len {
            assert(parse_frames(s, max).1 == s);
            assert(parse_frames(s, max).0 + parse_frames(s + t, max).0 =~= parse_frames(
                s + t,
                max,
            ).0);
        } else {
            lemma_varint_extend(s, t);
            assert((s + t).len() >= n + len);
            assert((s + t).subrange(n, n + len) =~= s.subrange(n, n + len));
            assert((s + t).skip(n + len) =~= s.skip(n + len) + t);
            lemma_parse_frames_split(s.skip(n + len), t, max);
            let head: Seq<(nat, nat, Seq<u8>)> = match parse_body(
                len as nat,
                s.subrange(n, n + len),
            ) {
                Some(f) => seq![f],
                None => Seq::empty(),
            };
            assert(parse_frames(s + t, max).0 == head + parse_frames(s.skip(n + len) + t, max).0);
            assert(parse_frames(s, max).0 == head + parse_frames(s.skip(n + len), max).0);
            assert(parse_frames(s, max).1 == parse_frames(s.skip(n + len), max).1);
            assert((head + parse_frames(s.skip(n + len), max).0) + parse_frames(
                parse_frames(s, max).1 + t,
                max,
            ).0 =~= head + (parse_frames(s.skip(n + len), max).0 + parse_frames(
                parse_frames(s.skip(n + len), max).1 + t,
                max,
            ).0));
        }
    }
}

/// Per-direction reassembly state: the byte accumulator, the poison flag,
/// and the frame-length ceiling the instance was configured with.
pub struct Reassembler {
    buf: Vec<u8>,
    poisoned: bool,
    max_frame_len: u32,
}

impl Reassembler {
    /// Bytes retained from previous chunks: at most one partial frame.
    pub closed spec fn buffered(&self) -> Seq<u8> {
        self.buf@
    }

    /// Whether an oversized or malformed length has stopped all decoding.
    pub closed spec fn is_poisoned(&self) -> bool {
        self.poisoned
    }

    /// The configured frame-length ceiling.
    pub closed spec fn limit(&self) -> nat {
        self.max_frame_len as nat
    }

    /// A fresh reassembler with the default ceiling.
    pub fn new() -> (r: Reassembler)
        ensures
            r.buffered() == Seq::<u8>::empty(),
            !r.is_poisoned(),
            r.limit() == MAX_FRAME_LEN as nat,
    {
        Reassembler { buf: Vec::new(), poisoned: false, max_frame_len: MAX_FRAME_LEN }
    }

    /// A fresh reassembler with a caller-chosen ceiling.
    pub fn with_limit(max_frame_len: u32) -> (r: Reassembler)
        ensures
            r.buffered() == Seq::<u8>::empty(),
            !r.is_poisoned(),
            r.limit() == max_frame_len as nat,
    {
        Reassembler { buf: Vec::new(), poisoned: false, max_frame_len }
    }

    /// Appends `chunk` to the accumulator and emits every frame that is now
    /// complete, in stream order, retaining any partial frame. Exactly the
    /// greedy parse of the accumulated stream: a chunk may complete zero,
    /// one, or many frames. Poisons on an oversized declared length and
    /// stays poisoned for good.
    #[verifier::loop_isolation(false)]
    #[verifier::rlimit(100)]
    pub fn feed(&mut self, chunk: &[u8]) -> (r: Result<Vec<Frame>, FrameError>)
        ensures
            final(self).limit() == old(self).limit(),
            old(self).is_poisoned() ==> {
                &&& r == Result::<Vec<Frame>, FrameError>::Err(FrameError::Poisoned)
                &&& *final(self) == *old(self)
            },
            !old(self).is_poisoned() ==> {
                let parsed = parse_frames(old(self).buffered() + chunk@, old(self).limit());
                if parsed.2 {
                    &&& r == Result::<Vec<Frame>, FrameError>::Err(FrameError::FrameTooLarge)
                    &&& final(self).is_poisoned()
                } else {
                    &&& r is Ok
                    &&& frame_models(r.unwrap()@) == parsed.0
                    &&& final(self).buffered() == parsed.1
                    &&& !final(self).is_poisoned()
                }
            },
    {
        if self.poisoned {
            return Err(FrameError::Poisoned);
        }
        let ghost input: Seq<u8> = self.buf@ + chunk@;
        let ghost max: nat = self.max_frame_len as nat;
        let ghost base: Seq<u8> = self.buf@;
        let mut ci: usize = 0;
        while ci < chunk.len()
            invariant
                ci <= chunk@.len(),
                self.buf@ == base + chunk@.subrange(0, ci as int),
                !self.poisoned,
                self.max_frame_len as nat == max,
            decreases chunk@.len() - ci,
        {
            let b = chunk[ci];
            self.buf.push(b);
            ci = ci + 1;
        }
        proof {
            assert(self.buf@ =~= input);
        }
        let mut frames: Vec<Frame> = Vec::new();
        let mut pos: usize = 0;
        proof {
            assert(input.skip(0) =~= input);
            assert(frame_models(frames@) =~= Seq::<(nat, nat, Seq<u8>)>::empty());
            assert(frame_models(frames@) + parse_frames(input, max).0 =~= parse_frames(
                input,
                max,
            ).0);
        }
        let mut done: bool = false;
        while !done
            invariant
                pos <= self.buf@.len(),
                self.buf@ == input,
                !self.poisoned,
                self.max_frame_len as nat == max,
                parse_frames(input, max).0 == frame_models(frames@) + parse_frames(
                    input.skip(pos as int),
                    max,
                ).0,
                parse_frames(input, max).1 == parse_frames(input.skip(pos as int), max).1,
                parse_frames(input, max).2 == parse_frames(input.skip(pos as int), max).2,
                done ==> parse_frames(input, max).0 == frame_models(frames@),
                done ==> parse_frames(input, max).1 == input.skip(pos as int),
                done ==> !parse_frames(input, max).2,
            decreases self.buf@.len() - pos, (if done { 0int } else { 1int }),
        {
            let ghost s: Seq<u8> = input.skip(pos as int);
            match decode(self.buf.as_slice(), pos) {
                Err(VarIntError::TruncatedInput) => {
                    done = true;
                },
                Err(VarIntError::Overflow) => {
                    self.poisoned = true;
                    self.buf = Vec::new();
                    return Err(FrameError::FrameTooLarge);
                },
                Ok((len, n)) => {
                    if len > self.max_frame_len {
                        self.poisoned = true;
                        self.buf = Vec::new();
                        return Err(FrameError::FrameTooLarge);
                    }
                    let len_us = len as usize;
                    if self.buf.len() - (pos + n) < len_us {
                        proof {
                            assert(s.len() < varint_size(s) + (varint_value(s)
                                % 0x1_0000_0000));
                        }
                        done = true;
                    } else {
                    let body_start = pos + n;
                    let mut body: Vec<u8> = Vec::new();
                    let mut j: usize = 0;
                    while j < len_us
                        invariant
                            j <= len_us,
                            body_start + len_us <= self.buf@.len(),
                            body@ =~= self.buf@.subrange(
                                body_start as int,
                                body_start + j as int,
                            ),
                        decreases len_us - j,
                    {
                        let b = self.buf[body_start + j];
                        body.push(b);
                        j = j + 1;
                    }
                    proof {
                        assert(body@ =~= s.subrange(n as int, n + len_us));
                    }
                    let ghost bodys: Seq<u8> = s.subrange(n as int, n + len_us);
                    let ghost step: int = n + len_us as int;
                    proof {
                        assert(body@ == bodys);
                        assert(parse_frames(s, max).0 == (match parse_body(len as nat, bodys) {
                            Some(f) => seq![f],
                            None => Seq::<(nat, nat, Seq<u8>)>::empty(),
                        }) + parse_frames(s.skip(step), max).0);
                        assert(parse_frames(s, max).1 == parse_frames(s.skip(step), max).1);
                        assert(parse_frames(s, max).2 == parse_frames(s.skip(step), max).2);
                    }
                    let ghost frames_before = frames@;
                    match decode(body.as_slice(), 0) {
                        Ok((id, idn)) => {
                            let mut payload: Vec<u8> = Vec::new();
                            let mut k: usize = idn;
                            while k < body.len()
                                invariant
                                    idn <= k <= body@.len(),
                                    payload@ =~= body@.subrange(idn as int, k as int),
                                decreases body@.len() - k,
                            {
                                let b = body[k];
                                payload.push(b);
                                k = k + 1;
                            }
                            proof {
                                assert(body@.skip(0) =~= body@);
                                assert(payload@ =~= body@.skip(varint_size(body@) as int));
                            }
                            let frame = Frame { declared_length: len, identifier: id, payload };
                            proof {
                                assert(parse_body(len as nat, bodys) == Some(frame.model()));
                            }
                            frames.push(frame);
                            proof {
                                lemma_frame_models_push(frames_before, frame);
                                assert(frame_models(frames@) =~= frame_models(frames_before)
                                    + seq![frame.model()]);
                            }
                        },
                        Err(_) => {
                            proof {
                                assert(body@.skip(0) =~= body@);
                                assert(!varint_ready(bodys));
                                assert(parse_body(len as nat, bodys) is None);
                            }
                        },
                    }
                    proof {
                        assert(input.skip(pos + step) =~= s.skip(step));
                        assert(frame_models(frames@) + parse_frames(s.skip(step), max).0
                            =~= frame_models(frames_before) + parse_frames(s, max).0);
                        assert(frame_models(frames@) + parse_frames(s.skip(step), max).0
                            =~= parse_frames(input, max).0);
                    }
                    pos = pos + n + len_us;
                    }
                },
            }
        }
        let mut rest: Vec<u8> = Vec::new();
        let mut m: usize = pos;
        while m < self.buf.len()
            invariant
                pos <= m <= self.buf@.len(),
                self.buf@ == input,
                rest@ =~= input.subrange(pos as int, m as int),
            decreases self.buf@.len() - m,
        {
            let b = self.buf[m];
            rest.push(b);
            m = m + 1;
        }
        proof {
            assert(rest@ =~= input.skip(pos as int));
        }
        self.buf = rest;
        Ok(frames)
    }
}

} // verus!
