//! The initiating endpoint: handshake, one chunk in flight at a time, then
//! teardown. Every step resends the current segment until the peer's answer
//! matches exactly.

use vstd::prelude::*;
use crate::header::{segment, Header};
use crate::packet::{
    random_seq, wrap_add, Ack, Packet, PacketView, SeqNum, ACK_BIT, CHUNK_SIZE, FIN_BIT, SYN_BIT,
};
use crate::phase::Phase;

verus! {

/// The state of the initiating endpoint.
#[derive(Debug, Clone, Copy, PartialEq, Eq, Structural)]
pub struct Client {
    pub header: Header,
    pub phase: Phase,
    /// Our next sequence number.
    pub seq: SeqNum,
    /// The peer's next sequence number, once known.
    pub ack: Ack,
}

impl Client {
    /// The segment to (re)send while `chunk` is the pending chunk: `SYN(seq)`
    /// while handshaking, `DATA(seq, chunk)` once established, `FIN(seq)` after.
    pub open spec fn spec_outgoing(self, chunk: Seq<u8>) -> PacketView {
        match self.phase {
            Phase::Idle | Phase::Handshaking => segment(self.header, self.seq.0, 0, SYN_BIT, seq![]),
            Phase::Established => segment(self.header, self.seq.0, 0, 0, chunk),
            Phase::Closing | Phase::Closed => segment(self.header, self.seq.0, 0, FIN_BIT, seq![]),
        }
    }

    /// Whether `p` is the answer that the current phase waits for.
    pub open spec fn spec_accepts(self, chunk: Seq<u8>, p: PacketView) -> bool {
        match self.phase {
            Phase::Handshaking => p.syn_ack_seq(SeqNum(wrap_add(self.seq.0, 1))) is Some,
            Phase::Established => p.acknowledges(SeqNum(wrap_add(self.seq.0, chunk.len() as u32))),
            Phase::Closing => p.fin_ack_seq(SeqNum(wrap_add(self.seq.0, 1))) is Some,
            Phase::Idle | Phase::Closed => false,
        }
    }

    /// The state after `p` arrives while `chunk` is pending.
    pub open spec fn spec_next(self, chunk: Seq<u8>, p: PacketView) -> Client {
        if !self.spec_accepts(chunk, p) {
            self
        } else {
            match self.phase {
                Phase::Handshaking => Client {
                    phase: Phase::Established,
                    seq: SeqNum(wrap_add(self.seq.0, 1)),
                    ack: Ack(wrap_add(p.seq, 1)),
                    ..self
                },
                Phase::Established => Client {
                    seq: SeqNum(wrap_add(self.seq.0, chunk.len() as u32)),
                    ..self
                },
                _ => Client {
                    phase: Phase::Closed,
                    seq: SeqNum(wrap_add(self.seq.0, 1)),
                    ack: Ack(wrap_add(p.seq, 1)),
                    ..self
                },
            }
        }
    }

    /// `ACK(seq, ack)`, sent once after the handshake and once after teardown.
    pub open spec fn spec_final_ack(self) -> PacketView {
        segment(self.header, self.seq.0, self.ack.0, ACK_BIT, seq![])
    }

    /// A client about to open a connection from sequence number `seq`.
    pub fn new(header: Header, seq: SeqNum) -> (r: Client)
        ensures
            r == (Client { header, phase: Phase::Handshaking, seq, ack: Ack(0) }),
    {
        Client { header, phase: Phase::Handshaking, seq, ack: Ack(0) }
    }

    /// A client about to open a connection from a random sequence number
    /// below 1000.
    pub fn new_random(header: Header) -> (r: Client)
        ensures
            r.header == header,
            r.phase == Phase::Handshaking,
            r.seq.0 < 1000,
            r.ack.0 == 0,
    {
        Client::new(header, SeqNum(random_seq()))
    }

    /// The segment to send now; `chunk` is the pending chunk, read only once
    /// established.
    pub fn outgoing(&self, chunk: &[u8]) -> (r: Packet)
        ensures
            r@ == self.spec_outgoing(chunk@),
    {
        match self.phase {
            Phase::Idle | Phase::Handshaking => self.header.syn(self.seq),
            Phase::Established => self.header.data(self.seq, chunk),
            Phase::Closing | Phase::Closed => self.header.fin(self.seq),
        }
    }

    /// Takes in the peer's answer. Returns whether it advanced the state:
    /// the handshake completed (send `final_ack` once), the pending chunk was
    /// acknowledged (move to the next one), or teardown completed (send
    /// `final_ack` once). Otherwise nothing changes and the caller resends.
    pub fn on_packet(&mut self, chunk: &[u8], packet: Packet) -> (accepted: bool)
        requires
            chunk@.len() <= CHUNK_SIZE,
        ensures
            accepted == old(self).spec_accepts(chunk@, packet@),
            *final(self) == old(self).spec_next(chunk@, packet@),
    {
        match self.phase {
            Phase::Handshaking => {
                match packet.syn_ack(self.seq + 1) {
                    Some(peer) => {
                        self.phase = Phase::Established;
                        self.seq = self.seq + 1;
                        self.ack = peer + 1;
                        true
                    },
                    None => false,
                }
            },
            Phase::Established => {
                let expected = self.seq + (chunk.len() as u32);
                if packet.check_ack(expected) {
                    self.seq = expected;
                    true
                } else {
                    false
                }
            },
            Phase::Closing => {
                match packet.fin_ack(self.seq + 1) {
                    Some(peer) => {
                        self.phase = Phase::Closed;
                        self.seq = self.seq + 1;
                        self.ack = peer + 1;
                        true
                    },
                    None => false,
                }
            },
            Phase::Idle | Phase::Closed => false,
        }
    }

    /// Ends the data transfer: the next segment is `FIN`.
    pub fn finish(&mut self)
        ensures
            old(self).phase == Phase::Established ==> *final(self) == (Client {
                phase: Phase::Closing,
                ..*old(self)
            }),
            old(self).phase != Phase::Established ==> *final(self) == *old(self),
    {
        if self.phase == Phase::Established {
            self.phase = Phase::Closing;
        }
    }

    /// The acknowledgment sent once the handshake or the teardown completed.
    pub fn final_ack(&self) -> (r: Packet)
        ensures
            r@ == self.spec_final_ack(),
    {
        self.header.ack(self.seq, self.ack)
    }
}

} // verus!
