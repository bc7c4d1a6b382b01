//! Decoded view of one frame and the protocol-phase state machine. A packet
//! record carries a frame together with the phase and direction it was seen
//! under and, when the registry knows the identifier, a human-readable name.
//! The phase machine gates which negotiation-phase transitions are legal.

use vstd::prelude::*;
use crate::frame::Frame;
use crate::varint::{decode, varint_ready, varint_size, varint_value, VarIntError};

verus! {

/// Which way a byte stream flows: from the server to the client, or from
/// the client to the server.
#[derive(Clone, Copy, Debug, PartialEq, Eq, Structural)]
pub enum PacketDirection {
    Clientbound,
    Serverbound,
}

/// A stage of protocol negotiation, gating which packet semantics apply.
#[derive(Clone, Copy, Debug, PartialEq, Eq, Structural)]
pub enum ProtocolMode {
    Handshake,
    Status,
    Login,
    Play,
}

/// The one illegal-transition failure of the phase machine, carrying the
/// phase it was in and the phase that was requested.
#[derive(Clone, Copy, Debug, PartialEq, Eq, Structural)]
pub enum PhaseError {
    IllegalPhaseTransition { from: ProtocolMode, to: ProtocolMode },
}

/// The exhaustive set of legal phase transitions: a handshake may move to
/// status or login, and login may repeat itself during multi-step
/// sub-negotiation. Everything else is refused.
pub open spec fn mode_switch_allowed(from: ProtocolMode, to: ProtocolMode) -> bool {
    ||| (from is Handshake && to is Status)
    ||| (from is Handshake && to is Login)
    ||| (from is Login && to is Login)
}

/// Per-direction phase state: the current negotiation phase and the
/// direction this parser observes.
#[derive(Clone, Copy, Debug, PartialEq, Eq, Structural)]
pub struct PacketParser {
    pub protocol_mode: ProtocolMode,
    pub packet_direction: PacketDirection,
}

impl Default for PacketParser {
    /// A fresh parser: handshake phase, observing the serverbound stream.
    fn default() -> (r: Self)
        ensures
            r.protocol_mode is Handshake,
            r.packet_direction is Serverbound,
    {
        PacketParser {
            protocol_mode: ProtocolMode::Handshake,
            packet_direction: PacketDirection::Serverbound,
        }
    }
}

impl PacketParser {
    /// Pure validation of a requested transition: succeeds exactly on the
    /// legal transitions, and names both phases on refusal. No side effect.
    pub fn check_protocol_mode_switch(&self, mode: &ProtocolMode) -> (r: Result<(), PhaseError>)
        ensures
            r is Ok <==> mode_switch_allowed(self.protocol_mode, *mode),
            r is Err ==> r == Result::<(), PhaseError>::Err(
                PhaseError::IllegalPhaseTransition { from: self.protocol_mode, to: *mode },
            ),
    {
        match (&self.protocol_mode, mode) {
            (ProtocolMode::Handshake, ProtocolMode::Status) => Ok(()),
            (ProtocolMode::Handshake, ProtocolMode::Login) => Ok(()),
            (ProtocolMode::Login, ProtocolMode::Login) => Ok(()),
            _ => Err(
                PhaseError::IllegalPhaseTransition { from: self.protocol_mode, to: *mode },
            ),
        }
    }

    /// Validates and then commits a transition atomically: on a legal
    /// request the phase becomes the target, on an illegal one the state is
    /// left exactly as it was. The direction never changes.
    pub fn switch_protocol_mode(&mut self, mode: &ProtocolMode) -> (r: Result<(), PhaseError>)
        ensures
            r is Ok <==> mode_switch_allowed(old(self).protocol_mode, *mode),
            r is Ok ==> final(self).protocol_mode == *mode,
            r is Err ==> {
                &&& r == Result::<(), PhaseError>::Err(
                    PhaseError::IllegalPhaseTransition {
                        from: old(self).protocol_mode,
                        to: *mode,
                    },
                )
                &&& *final(self) == *old(self)
            },
            final(self).packet_direction == old(self).packet_direction,
    {
        let checked = self.check_protocol_mode_switch(mode);
        match checked {
            Ok(()) => {
                self.protocol_mode = *mode;
                Ok(())
            },
            Err(e) => Err(e),
        }
    }
}

/// One record of the packet-name dataset: the phase and direction group it
/// belongs to, and the packet's human-readable name.
pub struct PacketData {
    pub protocol_mode: ProtocolMode,
    pub packet_direction: PacketDirection,
    pub packet_name: String,
}

/// One row of the built registry: the group, the 0-based ordinal of the row
/// within its group, and the name.
pub struct RegistryEntry {
    pub protocol_mode: ProtocolMode,
    pub packet_direction: PacketDirection,
    pub sequence_index: usize,
    pub packet_name: String,
}

/// The 0-based ordinal of record `i` within its `(phase, direction)` group:
/// it increments along a run of records of one group and resets to 0 at
/// every group boundary, in dataset order.
pub open spec fn spec_sequence_index(records: Seq<PacketData>, i: int) -> nat
    decreases i,
{
    if i <= 0 {
        0
    } else if records[i].protocol_mode == records[i - 1].protocol_mode && records[
        i
    ].packet_direction == records[i - 1].packet_direction {
        spec_sequence_index(records, i - 1) + 1
    } else {
        0
    }
}

/// The built registry row for dataset record `r`.
pub open spec fn entry_of(e: RegistryEntry, r: PacketData, idx: nat) -> bool {
    &&& e.protocol_mode == r.protocol_mode
    &&& e.packet_direction == r.packet_direction
    &&& e.sequence_index as nat == idx
    &&& e.packet_name@ == r.packet_name@
}

/// The name held by the first row matching the key, if any.
pub open spec fn lookup_in(
    es: Seq<RegistryEntry>,
    protocol_mode: ProtocolMode,
    packet_direction: PacketDirection,
    sequence_index: nat,
) -> Option<Seq<char>>
    decreases es.len(),
{
    if es.len() == 0 {
        None
    } else if es[0].protocol_mode == protocol_mode && es[0].packet_direction == packet_direction
        && es[0].sequence_index as nat == sequence_index {
        Some(es[0].packet_name@)
    } else {
        lookup_in(es.skip(1), protocol_mode, packet_direction, sequence_index)
    }
}

/// The immutable packet-name registry: rows keyed by phase, direction and
/// in-group ordinal, built once at startup and only read afterwards.
pub struct PacketRegistry {
    entries: Vec<RegistryEntry>,
}

impl PacketRegistry {
    /// The built rows, in dataset order.
    pub closed spec fn entries_view(&self) -> Seq<RegistryEntry> {
        self.entries@
    }

    /// The name the registry resolves for a key, if any.
    pub open spec fn spec_lookup(
        &self,
        protocol_mode: ProtocolMode,
        packet_direction: PacketDirection,
        sequence_index: nat,
    ) -> Option<Seq<char>> {
        lookup_in(self.entries_view(), protocol_mode, packet_direction, sequence_index)
    }

    /// Builds the registry from the dataset: one row per record, carrying
    /// the ordinal of the record within its `(phase, direction)` group,
    /// reset to 0 at each group change.
    pub fn from_records(records: Vec<PacketData>) -> (r: PacketRegistry)
        ensures
            r.entries_view().len() == records@.len(),
            forall|j: int|
                0 <= j < records@.len() ==> entry_of(
                    #[trigger] r.entries_view()[j],
                    records@[j],
                    spec_sequence_index(records@, j),
                ),
    {
        let mut entries: Vec<RegistryEntry> = Vec::new();
        let mut i: usize = 0;
        let mut prev_idx: usize = 0;
        while i < records.len()
            invariant
                i <= records@.len(),
                entries@.len() == i,
                forall|j: int|
                    0 <= j < i ==> entry_of(
                        #[trigger] entries@[j],
                        records@[j],
                        spec_sequence_index(records@, j),
                    ),
                i > 0 ==> prev_idx as nat == spec_sequence_index(records@, i - 1),
                prev_idx <= i,
            decreases records@.len() - i,
        {
            let cur = &records[i];
            let idx: usize = if i == 0 {
                0
            } else {
                let prev = &records[i - 1];
                if cur.protocol_mode == prev.protocol_mode && cur.packet_direction
                    == prev.packet_direction {
                    prev_idx + 1
                } else {
                    0
                }
            };
            let entry = RegistryEntry {
                protocol_mode: cur.protocol_mode,
                packet_direction: cur.packet_direction,
                sequence_index: idx,
                packet_name: cur.packet_name.clone(),
            };
            entries.push(entry);
            prev_idx = idx;
            i = i + 1;
        }
        PacketRegistry { entries }
    }

    /// Scans for the first row matching the key; a miss is a soft failure.
    #[verifier::loop_isolation(false)]
    pub fn lookup(
        &self,
        protocol_mode: ProtocolMode,
        packet_direction: PacketDirection,
        sequence_index: usize,
    ) -> (r: Option<&String>)
        ensures
            match r {
                Some(name) => self.spec_lookup(
                    protocol_mode,
                    packet_direction,
                    sequence_index as nat,
                ) == Some(name@),
                None => self.spec_lookup(
                    protocol_mode,
                    packet_direction,
                    sequence_index as nat,
                ) is None,
            },
    {
        let ghost es: Seq<RegistryEntry> = self.entries@;
        proof {
            assert(es.skip(0) =~= es);
        }
        let mut i: usize = 0;
        while i < self.entries.len()
            invariant
                i <= es.len(),
                es == self.entries@,
                lookup_in(es, protocol_mode, packet_direction, sequence_index as nat)
                    == lookup_in(
                    es.skip(i as int),
                    protocol_mode,
                    packet_direction,
                    sequence_index as nat,
                ),
            decreases es.len() - i,
        {
            let e = &self.entries[i];
            proof {
                assert(es.skip(i as int)[0] == es[i as int]);
            }
            if e.protocol_mode == protocol_mode && e.packet_direction == packet_direction
                && e.sequence_index == sequence_index {
                return Some(&e.packet_name);
            }
            proof {
                assert(es.skip(i as int).skip(1) =~= es.skip(i + 1));
            }
            i = i + 1;
        }
        proof {
            assert(es.skip(i as int).len() == 0);
        }
        None
    }
}

/// The parse of a single buffer holding one frame: the declared length, the
/// identifier, and the payload, or the exact failure. The buffer must hold
/// the whole declared body; the identifier's VarInt must terminate within it.
pub open spec fn spec_parse_packet(s: Seq<u8>) -> Result<(nat, nat, Seq<u8>), VarIntError> {
    if !varint_ready(s) {
        if s.len() >= 5 {
            Err(VarIntError::Overflow)
        } else {
            Err(VarIntError::TruncatedInput)
        }
    } else {
        let n = varint_size(s) as int;
        let len = (varint_value(s) % 0x1_0000_0000) as int;
        if s.len() < n + len {
            Err(VarIntError::TruncatedInput)
        } else {
            let body = s.subrange(n, n + len);
            if !varint_ready(body) {
                if body.len() >= 5 {
                    Err(VarIntError::Overflow)
                } else {
                    Err(VarIntError::TruncatedInput)
                }
            } else {
                Ok(
                    (
                        len as nat,
                        varint_value(body) % 0x1_0000_0000,
                        body.skip(varint_size(body) as int),
                    ),
                )
            }
        }
    }
}

/// The decoded view of one frame: the frame itself, the phase and direction
/// it was observed under, and the registry name resolved from the identifier
/// used as the in-group ordinal. A registry miss leaves the name absent.
#[derive(Debug)]
pub struct Packet {
    pub frame: Frame,
    pub protocol_mode: ProtocolMode,
    pub packet_direction: PacketDirection,
    pub name: Option<String>,
}

/// What a well-observed packet record holds for frame model `f` seen under
/// `parser`: the frame's fields, the parser's phase and direction, and the
/// registry's answer for the identifier.
pub open spec fn packet_observed(
    p: Packet,
    f: (nat, nat, Seq<u8>),
    parser: PacketParser,
    registry: &PacketRegistry,
) -> bool {
    &&& p.frame.model() == f
    &&& p.protocol_mode == parser.protocol_mode
    &&& p.packet_direction == parser.packet_direction
    &&& match p.name {
        Some(nm) => registry.spec_lookup(parser.protocol_mode, parser.packet_direction, f.1)
            == Some(nm@),
        None => registry.spec_lookup(parser.protocol_mode, parser.packet_direction, f.1) is None,
    }
}

impl Packet {
    /// Builds the record for one reassembled frame: phase and direction from
    /// the observing parser, name resolved from the registry by identifier.
    pub fn from_frame(
        frame: Frame,
        parser: &PacketParser,
        registry: &PacketRegistry,
    ) -> (r: Packet)
        requires
            frame.identifier <= usize::MAX,
        ensures
            packet_observed(r, frame.model(), *parser, registry),
    {
        let looked = registry.lookup(
            parser.protocol_mode,
            parser.packet_direction,
            frame.identifier as usize,
        );
        let name: Option<String> = match looked {
            Some(s) => Some(s.clone()),
            None => None,
        };
        Packet {
            frame,
            protocol_mode: parser.protocol_mode,
            packet_direction: parser.packet_direction,
            name,
        }
    }

    /// Parses one frame out of a single buffer: the VarInt length prefix,
    /// then the VarInt identifier, then the payload filling the rest of the
    /// declared body, and resolves the name as `from_frame` does. Succeeds
    /// exactly when the buffer holds the whole declared body and both
    /// VarInts terminate; fails with the first decode failure otherwise.
    #[verifier::loop_isolation(false)]
    pub fn from_buffer(
        buffer: &[u8],
        parser: &PacketParser,
        registry: &PacketRegistry,
    ) -> (r: Result<Packet, VarIntError>)
        ensures
            match r {
                Ok(p) => {
                    &&& spec_parse_packet(buffer@) is Ok
                    &&& packet_observed(p, spec_parse_packet(buffer@).unwrap(), *parser, registry)
                },
                Err(e) => spec_parse_packet(buffer@) == Result::<
                    (nat, nat, Seq<u8>),
                    VarIntError,
                >::Err(e),
            },
    {
        let ghost s: Seq<u8> = buffer@;
        proof {
            assert(s.skip(0) =~= s);
        }
        let (len, n) = match decode(buffer, 0) {
            Ok(p) => p,
            Err(e) => {
                return Err(e);
            },
        };
        let len_us = len as usize;
        if buffer.len() - n < len_us {
            return Err(VarIntError::TruncatedInput);
        }
        let mut body: Vec<u8> = Vec::new();
        let mut j: usize = 0;
        while j < len_us
            invariant
                j <= len_us,
                n + len_us <= buffer@.len(),
                body@ =~= buffer@.subrange(n as int, n + j as int),
            decreases len_us - j,
        {
            let b = buffer[n + j];
            body.push(b);
            j = j + 1;
        }
        let ghost bodys: Seq<u8> = s.subrange(n as int, n + len_us);
        proof {
            assert(body@ == bodys);
            assert(body@.skip(0) =~= body@);
        }
        let (id, idn) = match decode(body.as_slice(), 0) {
            Ok(p) => p,
            Err(e) => {
                return Err(e);
            },
        };
        let mut payload: Vec<u8> = Vec::new();
        let mut k: usize = idn;
        while k < body.len()
            invariant
                idn <= k <= body@.len(),
                payload@ =~= body@.subrange(idn as int, k as int),
            decreases body@.len() - k,
        {
            let b = body[k];
            payload.push(b);
            k = k + 1;
        }
        proof {
            assert(payload@ =~= bodys.skip(varint_size(bodys) as int));
        }
        let frame = Frame { declared_length: len, identifier: id, payload };
        proof {
            assert(frame.model() == spec_parse_packet(s).unwrap());
        }
        Ok(Packet::from_frame(frame, parser, registry))
    }
}

} // verus!
