//! Per-connection relay decisions. The socket work — accepting, connecting,
//! reading, writing, shutting down — happens outside; this module holds the
//! state each decision depends on and answers, for every event, what must be
//! done: which bytes to forward (always exactly the bytes read), which
//! packets were observed, when a destination write side must be half-closed,
//! and when the session is over. Observation can never fail the forwarding
//! path: a decode failure yields no packets and nothing else.

use vstd::prelude::*;
use crate::frame::{frame_models, parse_frames, Frame, Reassembler, MAX_FRAME_LEN};
use crate::packet::{
    packet_observed, Packet, PacketDirection, PacketParser, PacketRegistry, ProtocolMode,
};

verus! {

/// The observation state one forwarding loop owns: that direction's frame
/// reassembler and phase parser. Never shared across directions or sessions.
pub struct RelayDirection {
    pub reassembler: Reassembler,
    pub parser: PacketParser,
}

/// How one chunk advances a direction's observation state: the reassembler
/// consumes exactly the greedy parse of its accumulated stream, the parser
/// is untouched, and the packets are the records of the emitted frames —
/// none at all if the stream was or became poisoned.
pub open spec fn observed_step(
    pre: RelayDirection,
    post: RelayDirection,
    chunk: Seq<u8>,
    packets: Seq<Packet>,
    registry: &PacketRegistry,
) -> bool {
    &&& post.parser == pre.parser
    &&& post.reassembler.limit() == pre.reassembler.limit()
    &&& if pre.reassembler.is_poisoned() {
        packets.len() == 0 && post.reassembler.is_poisoned()
    } else {
        let parsed = parse_frames(pre.reassembler.buffered() + chunk, pre.reassembler.limit());
        if parsed.2 {
            &&& packets.len() == 0
            &&& post.reassembler.is_poisoned()
        } else {
            &&& !post.reassembler.is_poisoned()
            &&& post.reassembler.buffered() == parsed.1
            &&& packets.len() == parsed.0.len()
            &&& forall|k: int|
                0 <= k < packets.len() ==> packet_observed(
                    #[trigger] packets[k],
                    parsed.0[k],
                    pre.parser,
                    registry,
                )
        }
    }
}

impl RelayDirection {
    /// Fresh observation state for one direction: empty accumulator, default
    /// ceiling, handshake phase.
    pub fn new(packet_direction: PacketDirection) -> (r: RelayDirection)
        ensures
            r.reassembler.buffered() == Seq::<u8>::empty(),
            !r.reassembler.is_poisoned(),
            r.reassembler.limit() == MAX_FRAME_LEN as nat,
            r.parser.protocol_mode is Handshake,
            r.parser.packet_direction == packet_direction,
    {
        RelayDirection {
            reassembler: Reassembler::new(),
            parser: PacketParser { protocol_mode: ProtocolMode::Handshake, packet_direction },
        }
    }

    /// Observes one chunk read from this direction's source socket: feeds it
    /// to the reassembler and builds one record per completed frame. Decode
    /// failures are swallowed — the caller forwards the raw chunk whatever
    /// happens here.
    #[verifier::loop_isolation(false)]
    pub fn handle_chunk(&mut self, chunk: &[u8], registry: &PacketRegistry) -> (packets: Vec<
        Packet,
    >)
        ensures
            observed_step(*old(self), *final(self), chunk@, packets@, registry),
    {
        let ghost pre: RelayDirection = *old(self);
        let fed = self.reassembler.feed(chunk);
        let mut packets: Vec<Packet> = Vec::new();
        match fed {
            Err(_) => packets,
            Ok(frames) => {
                let ghost parsed = parse_frames(
                    pre.reassembler.buffered() + chunk@,
                    pre.reassembler.limit(),
                );
                let mut frames = frames;
                let ghost all: Seq<Frame> = frames@;
                proof {
                    assert(all.skip(0) =~= all);
                    assert(frame_models(all).len() == all.len());
                }
                while frames.len() > 0
                    invariant
                        packets@.len() + frames@.len() == all.len(),
                        frames@ == all.skip(packets@.len() as int),
                        forall|k: int|
                            0 <= k < packets@.len() ==> packet_observed(
                                #[trigger] packets@[k],
                                frame_models(all)[k],
                                pre.parser,
                                registry,
                            ),
                    decreases frames@.len(),
                {
                    let ghost i: int = packets@.len() as int;
                    let f = frames.remove(0);
                    proof {
                        assert(all.skip(i)[0] == all[i]);
                        assert(f == all[i]);
                        assert(all.skip(i).remove(0) =~= all.skip(i + 1));
                        assert(frame_models(all)[i] == all[i].model());
                    }
                    let p = Packet::from_frame(f, &self.parser, registry);
                    packets.push(p);
                }
                packets
            },
        }
    }
}

/// The per-session state the relay decisions depend on: the negotiation
/// stage of the session itself and the two directions' observation states.
#[derive(Clone, Copy, Debug, PartialEq, Eq, Structural)]
pub enum SessionState {
    Connecting,
    Relaying,
    Closed,
}

/// The one session-fatal failure: the outbound connection to the configured
/// upstream address could not be established. The inbound connection is then
/// closed without relaying anything.
#[derive(Debug)]
pub enum SessionError {
    UpstreamUnreachable { address: String },
}

/// What the caller must do with the bytes it just read from one direction's
/// source socket: write them, unmodified, to that direction's destination —
/// or, on an orderly end of stream, half-close that destination's write side
/// and consider the session complete, abandoning the other direction.
#[derive(Debug)]
pub enum RelayAction {
    Forward { bytes: Vec<u8>, packets: Vec<Packet> },
    ShutdownDestination,
}

/// The direction whose stream flows the other way.
pub open spec fn opposite(d: PacketDirection) -> PacketDirection {
    match d {
        PacketDirection::Serverbound => PacketDirection::Clientbound,
        PacketDirection::Clientbound => PacketDirection::Serverbound,
    }
}

/// One accepted connection's relay coordinator state: the session stage,
/// both directions' observation state, and the configured upstream address
/// (kept for the connection-failure report).
pub struct Session {
    pub state: SessionState,
    pub serverbound: RelayDirection,
    pub clientbound: RelayDirection,
    pub upstream_address: String,
}

/// The observation state `s` holds for direction `d`.
pub open spec fn direction_state(s: Session, d: PacketDirection) -> RelayDirection {
    match d {
        PacketDirection::Serverbound => s.serverbound,
        PacketDirection::Clientbound => s.clientbound,
    }
}

impl Session {
    /// A session for one accepted connection, before the outbound connection
    /// to `upstream_address` is attempted.
    pub fn new(upstream_address: String) -> (r: Session)
        ensures
            r.state is Connecting,
            r.upstream_address@ == upstream_address@,
            direction_state(r, PacketDirection::Serverbound).reassembler.buffered()
                == Seq::<u8>::empty(),
            direction_state(r, PacketDirection::Clientbound).reassembler.buffered()
                == Seq::<u8>::empty(),
            !direction_state(r, PacketDirection::Serverbound).reassembler.is_poisoned(),
            !direction_state(r, PacketDirection::Clientbound).reassembler.is_poisoned(),
            direction_state(r, PacketDirection::Serverbound).parser.protocol_mode is Handshake,
            direction_state(r, PacketDirection::Clientbound).parser.protocol_mode is Handshake,
            direction_state(r, PacketDirection::Serverbound).parser.packet_direction
                is Serverbound,
            direction_state(r, PacketDirection::Clientbound).parser.packet_direction
                is Clientbound,
    {
        Session {
            state: SessionState::Connecting,
            serverbound: RelayDirection::new(PacketDirection::Serverbound),
            clientbound: RelayDirection::new(PacketDirection::Clientbound),
            upstream_address,
        }
    }

    /// Records the outcome of the outbound connection attempt: on success
    /// the session starts relaying; on failure it is over before any byte
    /// was relayed, and the failure names the unreachable address.
    pub fn on_connect_result(&mut self, connected: bool) -> (r: Result<(), SessionError>)
        requires
            old(self).state is Connecting,
        ensures
            connected ==> r is Ok && final(self).state is Relaying,
            !connected ==> {
                &&& r matches Err(SessionError::UpstreamUnreachable { address }) && address@
                    == old(self).upstream_address@
                &&& final(self).state is Closed
            },
            final(self).serverbound == old(self).serverbound,
            final(self).clientbound == old(self).clientbound,
            final(self).upstream_address == old(self).upstream_address,
    {
        if connected {
            self.state = SessionState::Relaying;
            Ok(())
        } else {
            self.state = SessionState::Closed;
            Err(SessionError::UpstreamUnreachable { address: self.upstream_address.clone() })
        }
    }

    /// Decides what one read from `direction`'s source socket requires. A
    /// zero-length read is an orderly close: the session completes, and the
    /// caller half-closes that direction's destination write side without
    /// waiting on the other direction. Otherwise the exact bytes read are
    /// forwarded, and the completed frames come back as packet records —
    /// observation failures never block the data path.
    #[verifier::loop_isolation(false)]
    pub fn on_read(
        &mut self,
        direction: PacketDirection,
        data: &[u8],
        registry: &PacketRegistry,
    ) -> (r: RelayAction)
        requires
            old(self).state is Relaying,
        ensures
            data@.len() == 0 ==> {
                &&& r is ShutdownDestination
                &&& final(self).state is Closed
                &&& final(self).serverbound == old(self).serverbound
                &&& final(self).clientbound == old(self).clientbound
            },
            data@.len() > 0 ==> {
                &&& r matches RelayAction::Forward { bytes, packets } && bytes@ == data@
                    && observed_step(
                    direction_state(*old(self), direction),
                    direction_state(*final(self), direction),
                    data@,
                    packets@,
                    registry,
                )
                &&& final(self).state is Relaying
                &&& direction_state(*final(self), opposite(direction)) == direction_state(
                    *old(self),
                    opposite(direction),
                )
            },
            final(self).upstream_address == old(self).upstream_address,
    {
        if data.len() == 0 {
            self.state = SessionState::Closed;
            return RelayAction::ShutdownDestination;
        }
        let packets = match direction {
            PacketDirection::Serverbound => self.serverbound.handle_chunk(data, registry),
            PacketDirection::Clientbound => self.clientbound.handle_chunk(data, registry),
        };
        let mut bytes: Vec<u8> = Vec::new();
        let mut i: usize = 0;
        while i < data.len()
            invariant
                i <= data@.len(),
                bytes@ == data@.subrange(0, i as int),
            decreases data@.len() - i,
        {
            let b = data[i];
            bytes.push(b);
            i = i + 1;
        }
        proof {
            assert(bytes@ =~= data@);
        }
        RelayAction::Forward { bytes, packets }
    }
}

} // verus!
