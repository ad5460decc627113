//! The segments that an endpoint sends to one peer.

use vstd::prelude::*;
use crate::packet::{
    Ack, Flags, Packet, PacketExtra, PacketView, Port, PseudoPacket, SeqNum, ACK_BIT, FIN_BIT,
    MAX_PACKET_SIZE, SYN_BIT,
};

verus! {

/// The segment that `header` sends with the given numbers, flags and payload.
pub open spec fn segment(header: Header, seq: u32, ack: u32, flags: u16, data: Seq<u8>) -> PacketView {
    PacketView {
        source: header.source.0,
        dest: header.dest.0,
        seq,
        ack,
        data_offset: 0,
        flags,
        window_size: MAX_PACKET_SIZE as u16,
        checksum: 0,
        urgent: 0,
        data,
    }
}

/// The two ports of a connection, as its segments carry them.
#[derive(Debug, Clone, Copy, PartialEq, Eq, Structural)]
pub struct Header {
    pub source: Port,
    pub dest: Port,
}

impl Header {
    fn build(&self, seq: SeqNum, ack: Ack, flags: Flags, data: Vec<u8>) -> (r: Packet)
        ensures
            r@ == segment(*self, seq.0, ack.0, flags.0, data@),
    {
        let mut extra = PacketExtra::default();
        extra.ack = ack;
        extra.flags = flags;
        extra.data = data;
        Packet::from(PseudoPacket { source: self.source, dest: self.dest, seq, extra })
    }

    /// `SYN(seq)`.
    pub fn syn(&self, seq: SeqNum) -> (r: Packet)
        ensures
            r@ == segment(*self, seq.0, 0, SYN_BIT, seq![]),
    {
        let flags = Flags::default().flip_syn();
        assert(0u16 ^ 2u16 == 2u16) by (bit_vector);
        self.build(seq, Ack(0), flags, Vec::new())
    }

    /// `ACK(seq, ack)`.
    pub fn ack(&self, seq: SeqNum, ack: Ack) -> (r: Packet)
        ensures
            r@ == segment(*self, seq.0, ack.0, ACK_BIT, seq![]),
    {
        let flags = Flags::default().flip_ack();
        assert(0u16 ^ 16u16 == 16u16) by (bit_vector);
        self.build(seq, ack, flags, Vec::new())
    }

    /// `FIN(seq)`.
    pub fn fin(&self, seq: SeqNum) -> (r: Packet)
        ensures
            r@ == segment(*self, seq.0, 0, FIN_BIT, seq![]),
    {
        let flags = Flags::default().flip_fin();
        assert(0u16 ^ 1u16 == 1u16) by (bit_vector);
        self.build(seq, Ack(0), flags, Vec::new())
    }

    /// `DATA(seq, data)`: no flags, the payload copied.
    pub fn data(&self, seq: SeqNum, data: &[u8]) -> (r: Packet)
        ensures
            r@ == segment(*self, seq.0, 0, 0, data@),
    {
        self.build(seq, Ack(0), Flags::default(), vstd::slice::slice_to_vec(data))
    }

    /// `SYN+ACK(seq, ack)`.
    pub fn syn_ack(&self, seq: SeqNum, ack: Ack) -> (r: Packet)
        ensures
            r@ == segment(*self, seq.0, ack.0, SYN_BIT | ACK_BIT, seq![]),
    {
        let flags = Flags::default().flip_syn().flip_ack();
        assert((0u16 ^ 2u16) ^ 16u16 == 2u16 | 16u16) by (bit_vector);
        self.build(seq, ack, flags, Vec::new())
    }

    /// `FIN+ACK(seq, ack)`.
    pub fn fin_ack(&self, seq: SeqNum, ack: Ack) -> (r: Packet)
        ensures
            r@ == segment(*self, seq.0, ack.0, FIN_BIT | ACK_BIT, seq![]),
    {
        let flags = Flags::default().flip_fin().flip_ack();
        assert((0u16 ^ 1u16) ^ 16u16 == 1u16 | 16u16) by (bit_vector);
        self.build(seq, ack, flags, Vec::new())
    }
}

} // verus!
