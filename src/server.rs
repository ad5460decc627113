//! The listening endpoint: one responder state machine per peer, and the
//! registry that routes each peer's segments to its own machine.

use vstd::prelude::*;
use crate::header::{segment, Header};
use crate::packet::{random_seq, view_of, wrap_add, Ack, Packet, PacketView, SeqNum, ACK_BIT, FIN_BIT, SYN_BIT};
use crate::phase::Phase;

verus! {

/// The state of the responding side of one connection.
#[derive(Debug, Clone, Copy, PartialEq, Eq, Structural)]
pub struct Connection {
    pub header: Header,
    pub phase: Phase,
    /// Our next sequence number.
    pub seq: SeqNum,
    /// The peer's next sequence number, once known.
    pub ack: Ack,
}

/// What the responder does with one inbound segment.
pub struct Step {
    /// The segment to send back, if any.
    pub reply: Option<Packet>,
    /// The payload newly accepted in order, if any.
    pub data: Option<Vec<u8>>,
}

impl Connection {
    /// The segment that the current phase keeps resending.
    pub open spec fn spec_current(self) -> Option<PacketView> {
        match self.phase {
            Phase::Handshaking => Some(
                segment(self.header, self.seq.0, self.ack.0, SYN_BIT | ACK_BIT, seq![]),
            ),
            Phase::Established => Some(segment(self.header, self.seq.0, self.ack.0, ACK_BIT, seq![])),
            Phase::Closing => Some(
                segment(self.header, self.seq.0, wrap_add(self.ack.0, 1), FIN_BIT | ACK_BIT, seq![]),
            ),
            Phase::Idle | Phase::Closed => None,
        }
    }

    /// The state after inbound segment `p` (`None`: one that failed its
    /// checksum).
    pub open spec fn spec_next(self, p: Option<PacketView>) -> Connection {
        match p {
            None => self,
            Some(q) => match self.phase {
                Phase::Idle => match q.syn_seq() {
                    Some(peer) => Connection {
                        phase: Phase::Handshaking,
                        ack: Ack(wrap_add(peer.0, 1)),
                        ..self
                    },
                    None => self,
                },
                Phase::Handshaking => match q.ack_seq(SeqNum(wrap_add(self.seq.0, 1))) {
                    Some(peer) => if peer.0 == self.ack.0 {
                        Connection { phase: Phase::Established, seq: SeqNum(wrap_add(self.seq.0, 1)), ..self }
                    } else {
                        self
                    },
                    None => self,
                },
                Phase::Established => if q.seq != self.ack.0 {
                    self
                } else if q.is_fin() {
                    Connection { phase: Phase::Closing, ..self }
                } else {
                    Connection { ack: Ack(wrap_add(self.ack.0, q.data.len() as u32)), ..self }
                },
                Phase::Closing => match q.ack_seq(SeqNum(wrap_add(self.seq.0, 1))) {
                    Some(peer) => if peer.0 == wrap_add(self.ack.0, 1) {
                        Connection { phase: Phase::Closed, ..self }
                    } else {
                        self
                    },
                    None => self,
                },
                Phase::Closed => self,
            },
        }
    }

    /// The payload that `p` delivers: that of the in-order, non-FIN segment
    /// once established.
    pub open spec fn spec_delivered(self, p: Option<PacketView>) -> Option<Seq<u8>> {
        match p {
            Some(q) => if self.phase == Phase::Established && q.seq == self.ack.0 && !q.is_fin() {
                Some(q.data)
            } else {
                None
            },
            None => None,
        }
    }

    /// A connection waiting for its peer's SYN, that will answer from
    /// sequence number `seq`.
    pub fn new(header: Header, seq: SeqNum) -> (r: Connection)
        ensures
            r == (Connection { header, phase: Phase::Idle, seq, ack: Ack(0) }),
    {
        Connection { header, phase: Phase::Idle, seq, ack: Ack(0) }
    }

    /// A connection waiting for its peer's SYN, with a random initial
    /// sequence number below 1000.
    pub fn new_random(header: Header) -> (r: Connection)
        ensures
            r.header == header,
            r.phase == Phase::Idle,
            r.seq.0 < 1000,
            r.ack.0 == 0,
    {
        Connection::new(header, SeqNum(random_seq()))
    }

    /// The segment that the current phase keeps resending.
    pub fn current(&self) -> (r: Option<Packet>)
        ensures
            view_of(r) == self.spec_current(),
    {
        match self.phase {
            Phase::Handshaking => Some(self.header.syn_ack(self.seq, self.ack)),
            Phase::Established => Some(self.header.ack(self.seq, self.ack)),
            Phase::Closing => Some(self.header.fin_ack(self.seq, self.ack + 1)),
            Phase::Idle | Phase::Closed => None,
        }
    }

    /// Takes in one inbound segment and answers with the segment of the phase
    /// it leads to; a segment that does not advance the phase changes nothing
    /// and the current segment is resent.
    pub fn on_packet(&mut self, packet: Option<Packet>) -> (r: Step)
        requires
            packet matches Some(p) ==> p.data@.len() <= u32::MAX,
        ensures
            *final(self) == old(self).spec_next(view_of(packet)),
            view_of(r.reply) == final(self).spec_current(),
            r.data matches Some(d) ==> old(self).spec_delivered(view_of(packet)) == Some(d@),
            r.data is None ==> old(self).spec_delivered(view_of(packet)) is None,
    {
        let mut data: Option<Vec<u8>> = None;
        if let Some(packet) = packet {
            match self.phase {
                Phase::Idle => {
                    if let Some(peer) = packet.syn() {
                        self.phase = Phase::Handshaking;
                        self.ack = peer + 1;
                    }
                },
                Phase::Handshaking => {
                    if let Some(peer) = packet.ack(self.seq + 1) {
                        if peer.0 == self.ack.0 {
                            self.phase = Phase::Established;
                            self.seq = self.seq + 1;
                        }
                    }
                },
                Phase::Established => {
                    if packet.seq().0 == self.ack.0 {
                        if packet.fin() {
                            self.phase = Phase::Closing;
                        } else {
                            let payload = packet.data();
                            self.ack = self.ack + (payload.len() as u32);
                            data = Some(vstd::slice::slice_to_vec(payload));
                        }
                    }
                },
                Phase::Closing => {
                    if let Some(peer) = packet.ack(self.seq + 1) {
                        if peer.0 == (self.ack + 1).0 {
                            self.phase = Phase::Closed;
                        }
                    }
                },
                Phase::Closed => {},
            }
        }
        Step { reply: self.current(), data }
    }
}


/// A peer's datagram address: an IPv4 address is held in the low 32 bits of
/// `ip` with `v6` false.
#[derive(Debug, Clone, Copy, PartialEq, Eq, Structural, Hash)]
pub struct PeerAddr {
    pub v6: bool,
    pub ip: u128,
    pub port: u16,
}

/// What the receive loop hands to the dispatcher.
pub enum Event {
    /// A segment arrived from a peer.
    Receive(PeerAddr, Packet),
    /// The connection of a peer reached its end.
    Close(PeerAddr),
}

impl From<(Packet, PeerAddr)> for Event {
    fn from(letter: (Packet, PeerAddr)) -> Event {
        let (packet, address) = letter;
        Event::Receive(address, packet)
    }
}

impl vstd::std_specs::convert::FromSpecImpl<(Packet, PeerAddr)> for Event {
    open spec fn obeys_from_spec() -> bool {
        true
    }

    open spec fn from_spec(letter: (Packet, PeerAddr)) -> Event {
        Event::Receive(letter.1, letter.0)
    }
}

/// What the dispatcher does after an event.
pub enum Dispatch<H> {
    /// Hand the segment to the peer's connection, which is registered.
    Forward(PeerAddr, Packet),
    /// The peer's entry was removed; its handle is to be joined.
    Closed(PeerAddr, H),
    /// A close for a peer that has no entry: a broken invariant to report.
    Unknown(PeerAddr),
}

/// The live connections, at most one per peer address.
pub struct Registry<H> {
    entries: Vec<(PeerAddr, H)>,
}

impl<H> Registry<H> {
    /// No address has two entries.
    pub closed spec fn wf(&self) -> bool {
        forall|i: int, j: int|
            0 <= i < self.entries@.len() && 0 <= j < self.entries@.len()
                && #[trigger] self.entries@[i].0 == #[trigger] self.entries@[j].0 ==> i == j
    }

    closed spec fn has(&self, a: PeerAddr) -> bool {
        exists|i: int| 0 <= i < self.entries@.len() && #[trigger] self.entries@[i].0 == a
    }

    closed spec fn index_of(&self, a: PeerAddr) -> int {
        choose|i: int| 0 <= i < self.entries@.len() && #[trigger] self.entries@[i].0 == a
    }

    /// The handle registered for each peer address.
    pub closed spec fn view(&self) -> Map<PeerAddr, H> {
        Map::new(|a: PeerAddr| self.has(a), |a: PeerAddr| self.entries@[self.index_of(a)].1)
    }

    /// An empty registry.
    pub fn new() -> (r: Registry<H>)
        ensures
            r.wf(),
            r.view() == Map::<PeerAddr, H>::empty(),
    {
        let r = Registry { entries: Vec::new() };
        assert(r.view() =~= Map::<PeerAddr, H>::empty());
        r
    }

    fn find(&self, a: &PeerAddr) -> (r: Option<usize>)
        ensures
            r matches Some(i) ==> i < self.entries@.len() && self.entries@[i as int].0 == *a,
            r is None ==> !self.has(*a),
    {
        let mut i: usize = 0;
        while i < self.entries.len()
            invariant
                i <= self.entries@.len(),
                forall|k: int| 0 <= k < i ==> #[trigger] self.entries@[k].0 != *a,
            decreases self.entries@.len() - i,
        {
            if self.entries[i].0 == *a {
                return Some(i);
            }
            i = i + 1;
        }
        None
    }

    /// Whether `a` has an entry.
    pub fn contains(&self, a: &PeerAddr) -> (r: bool)
        ensures
            r == self.view().contains_key(*a),
    {
        self.find(a).is_some()
    }

    /// Whether no address has an entry.
    pub fn is_empty(&self) -> (r: bool)
        ensures
            r == (self.view() == Map::<PeerAddr, H>::empty()),
    {
        if self.entries.len() == 0 {
            assert(self.view() =~= Map::<PeerAddr, H>::empty());
            true
        } else {
            assert(self.view().contains_key(self.entries@[0].0));
            false
        }
    }

    /// The handle registered for `a`.
    pub fn get(&self, a: &PeerAddr) -> (r: Option<&H>)
        requires
            self.wf(),
        ensures
            r is Some == self.view().contains_key(*a),
            r matches Some(h) ==> *h == self.view()[*a],
    {
        match self.find(a) {
            Some(i) => Some(&self.entries[i].1),
            None => None,
        }
    }

    /// Registers `h` for `a`, which must have no entry yet.
    pub fn insert(&mut self, a: PeerAddr, h: H)
        requires
            old(self).wf(),
            !old(self).view().contains_key(a),
        ensures
            final(self).wf(),
            final(self).view() == old(self).view().insert(a, h),
    {
        let ghost before = *self;
        self.entries.push((a, h));
        assert forall|b: PeerAddr| #[trigger] before.has(b) implies self.has(b) && self.index_of(b) == before.index_of(b) by {
            let i = before.index_of(b);
            assert(self.entries@[i].0 == b);
        }
        assert(self.has(a)) by {
            assert(self.entries@[before.entries@.len() as int].0 == a);
        }
        assert(self.view() =~= before.view().insert(a, h));
    }

    /// Removes the entry of `a` and returns its handle, if it had one.
    pub fn remove(&mut self, a: &PeerAddr) -> (r: Option<H>)
        requires
            old(self).wf(),
        ensures
            final(self).wf(),
            r is Some == old(self).view().contains_key(*a),
            r matches Some(h) ==> h == old(self).view()[*a],
            final(self).view() == old(self).view().remove(*a),
    {
        let ghost before = *self;
        match self.find(a) {
            Some(i) => {
                let (_, h) = self.entries.remove(i);
                assert forall|b: PeerAddr| b != *a && #[trigger] before.has(b) implies self.has(b)
                    && self.entries@[self.index_of(b)] == before.entries@[before.index_of(b)] by {
                    let k = before.index_of(b);
                    if k < i {
                        assert(self.entries@[k].0 == b);
                    } else {
                        assert(self.entries@[k - 1].0 == b);
                    }
                }
                assert forall|b: PeerAddr| #[trigger] self.has(b) implies before.has(b) && b != *a by {
                    let k = self.index_of(b);
                    if k < i {
                        assert(before.entries@[k].0 == b);
                    } else {
                        assert(before.entries@[k + 1].0 == b);
                    }
                }
                assert(self.view() =~= before.view().remove(*a));
                Some(h)
            },
            None => {
                assert(before.view().remove(*a) =~= before.view());
                None
            },
        }
    }
}

impl<H> Registry<H> {
    /// Handles one event. A segment from a peer without an entry first gets
    /// a connection from `spawn`, registered under its address; the segment
    /// is then to be forwarded to the peer's connection. A close removes the
    /// peer's entry and hands back its handle.
    pub fn dispatch<F: FnOnce(PeerAddr) -> H>(&mut self, event: Event, spawn: F) -> (r: Dispatch<H>)
        requires
            old(self).wf(),
            forall|a: PeerAddr| spawn.requires((a,)),
        ensures
            final(self).wf(),
            match event {
                Event::Receive(a, p) => {
                    &&& r == Dispatch::<H>::Forward(a, p)
                    &&& final(self).view().contains_key(a)
                    &&& final(self).view().remove(a) == old(self).view().remove(a)
                    &&& old(self).view().contains_key(a) ==> final(self).view() == old(self).view()
                    &&& !old(self).view().contains_key(a) ==> spawn.ensures(
                        (a,),
                        final(self).view()[a],
                    )
                },
                Event::Close(a) => {
                    &&& final(self).view() == old(self).view().remove(a)
                    &&& old(self).view().contains_key(a) ==> r == Dispatch::Closed(
                        a,
                        old(self).view()[a],
                    )
                    &&& !old(self).view().contains_key(a) ==> r == Dispatch::<H>::Unknown(a)
                },
            },
    {
        match event {
            Event::Receive(address, packet) => {
                if !self.contains(&address) {
                    let handles = spawn(address);
                    self.insert(address, handles);
                    assert(self.view().remove(address) =~= old(self).view().remove(address));
                } else {
                    assert(self.view().remove(address) =~= old(self).view().remove(address));
                }
                Dispatch::Forward(address, packet)
            },
            Event::Close(address) => match self.remove(&address) {
                Some(handles) => Dispatch::Closed(address, handles),
                None => Dispatch::Unknown(address),
            },
        }
    }
}

/// A close removes a peer's entry once: afterwards the address has none, and
/// a second close for it removes nothing more.
pub proof fn lemma_close_once<H>(m: Map<PeerAddr, H>, a: PeerAddr)
    requires
        m.contains_key(a),
    ensures
        !m.remove(a).contains_key(a),
        m.remove(a).remove(a) == m.remove(a),
{
    assert(m.remove(a).remove(a) =~= m.remove(a));
}

} // verus!
