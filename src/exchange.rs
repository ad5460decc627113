//! What holds when an initiator and a responder talk to each other: the
//! handshake, the transfer of a byte stream over a lossy channel, teardown,
//! and indifference to stale segments.

use vstd::prelude::*;
use crate::client::Client;
use crate::header::Header;
use crate::packet::{lemma_sent_flags, wrap_add, Ack, PacketView, SeqNum, CHUNK_SIZE};
use crate::phase::Phase;
use crate::server::Connection;

verus! {

/// Over a lossless channel, three segments (SYN, SYN+ACK, ACK) bring a fresh
/// initiator and a fresh responder to `Established`, each expecting the
/// other's next sequence number.
pub proof fn lemma_handshake(client_ports: Header, server_ports: Header, client_seq: SeqNum, server_seq: SeqNum)
    ensures
        ({
            let c0 = Client { header: client_ports, phase: Phase::Handshaking, seq: client_seq, ack: Ack(0) };
            let s0 = Connection { header: server_ports, phase: Phase::Idle, seq: server_seq, ack: Ack(0) };
            let syn = c0.spec_outgoing(seq![]);
            let s1 = s0.spec_next(Some(syn));
            let syn_ack = s1.spec_current().unwrap();
            let c1 = c0.spec_next(seq![], syn_ack);
            let s2 = s1.spec_next(Some(c1.spec_final_ack()));
            &&& s1.phase == Phase::Handshaking
            &&& c0.spec_accepts(seq![], syn_ack)
            &&& c1.phase == Phase::Established
            &&& s2.phase == Phase::Established
            &&& c1.seq.0 == wrap_add(client_seq.0, 1)
            &&& s2.seq.0 == wrap_add(server_seq.0, 1)
            &&& c1.seq.0 == s2.ack.0
            &&& s2.seq.0 == c1.ack.0
        }),
{
    lemma_sent_flags();
}

/// After the last chunk, FIN, FIN+ACK and the final ACK bring both sides of
/// an established, caught-up connection to `Closed`.
pub proof fn lemma_teardown(c: Client, s: Connection)
    requires
        c.phase == Phase::Established,
        s.phase == Phase::Established,
        c.seq.0 == s.ack.0,
        s.seq.0 == c.ack.0,
    ensures
        ({
            let c1 = Client { phase: Phase::Closing, ..c };
            let fin = c1.spec_outgoing(seq![]);
            let s1 = s.spec_next(Some(fin));
            let fin_ack = s1.spec_current().unwrap();
            let c2 = c1.spec_next(seq![], fin_ack);
            let s2 = s1.spec_next(Some(c2.spec_final_ack()));
            &&& s.spec_delivered(Some(fin)) is None
            &&& s1.phase == Phase::Closing
            &&& c1.spec_accepts(seq![], fin_ack)
            &&& c2.phase == Phase::Closed
            &&& s2.phase == Phase::Closed
            &&& s2.spec_current() is None
        }),
{
    lemma_sent_flags();
}

/// A segment whose sequence number is not the one an established responder
/// expects changes nothing and delivers nothing; an answer that the
/// initiator does not wait for changes nothing either.
pub proof fn lemma_stale_ignored(c: Client, s: Connection, chunk: Seq<u8>, p: PacketView)
    ensures
        s.phase == Phase::Established && p.seq != s.ack.0 ==> s.spec_next(Some(p)) == s
            && s.spec_delivered(Some(p)) is None,
        !c.spec_accepts(chunk, p) ==> c.spec_next(chunk, p) == c,
        c.phase == Phase::Established && p.ack != wrap_add(c.seq.0, chunk.len() as u32)
            ==> c.spec_next(chunk, p) == c,
{
}

/// The chunks one after another.
pub open spec fn flatten(chunks: Seq<Seq<u8>>) -> Seq<u8>
    decreases chunks.len(),
{
    if chunks.len() == 0 {
        seq![]
    } else {
        chunks[0] + flatten(chunks.drop_first())
    }
}

/// Whether each of the two segments of one attempt arrives.
pub struct Delivery {
    /// The initiator's segment reaches the responder.
    pub to_server: bool,
    /// The responder's answer reaches the initiator.
    pub to_client: bool,
}

/// One attempt of the stop-and-wait transfer of `chunk`: the initiator sends
/// its current segment; if it arrives the responder takes it in and answers;
/// if the answer arrives the initiator takes it in. Gives both new states,
/// the bytes that the responder accepted, and whether the chunk was
/// acknowledged.
pub open spec fn attempt(c: Client, s: Connection, chunk: Seq<u8>, d: Delivery) -> (Client, Connection, Seq<u8>, bool) {
    if !d.to_server {
        (c, s, seq![], false)
    } else {
        let p = c.spec_outgoing(chunk);
        let s1 = s.spec_next(Some(p));
        let out = match s.spec_delivered(Some(p)) {
            Some(bytes) => bytes,
            None => seq![],
        };
        match s1.spec_current() {
            Some(answer) => if d.to_client {
                (c.spec_next(chunk, answer), s1, out, c.spec_accepts(chunk, answer))
            } else {
                (c, s1, out, false)
            },
            None => (c, s1, out, false),
        }
    }
}

/// Transfers `chunks` in order, one attempt per entry of `ds`, moving to the
/// next chunk once the current one is acknowledged. Gives both final
/// states, the chunks not yet acknowledged, and all bytes the responder
/// accepted.
pub open spec fn transfer(c: Client, s: Connection, chunks: Seq<Seq<u8>>, ds: Seq<Delivery>) -> (Client, Connection, Seq<Seq<u8>>, Seq<u8>)
    decreases ds.len(),
{
    if ds.len() == 0 || chunks.len() == 0 {
        (c, s, chunks, seq![])
    } else {
        let (c1, s1, out, acked) = attempt(c, s, chunks[0], ds[0]);
        let rest = if acked {
            chunks.drop_first()
        } else {
            chunks
        };
        let (c2, s2, left, more) = transfer(c1, s1, rest, ds.drop_first());
        (c2, s2, left, out + more)
    }
}

/// Both sides are established, and the responder expects either the
/// initiator's current sequence number or the one after the pending chunk.
pub open spec fn in_transfer(c: Client, s: Connection, chunks: Seq<Seq<u8>>) -> bool {
    &&& c.phase == Phase::Established
    &&& s.phase == Phase::Established
    &&& forall|i: int| 0 <= i < chunks.len() ==> (#[trigger] chunks[i]).len() <= CHUNK_SIZE
    &&& (c.seq.0 == s.ack.0 || (chunks.len() > 0 && s.ack.0 == wrap_add(
        c.seq.0,
        chunks[0].len() as u32,
    )))
}

/// The bytes of `chunks` that the responder has not accepted yet.
pub open spec fn owed(c: Client, s: Connection, chunks: Seq<Seq<u8>>) -> Seq<u8> {
    if c.seq.0 == s.ack.0 || chunks.len() == 0 {
        flatten(chunks)
    } else {
        flatten(chunks.drop_first())
    }
}

proof fn lemma_attempt(c: Client, s: Connection, chunks: Seq<Seq<u8>>, d: Delivery)
    requires
        in_transfer(c, s, chunks),
        chunks.len() > 0,
    ensures
        ({
            let (c1, s1, out, acked) = attempt(c, s, chunks[0], d);
            let rest = if acked {
                chunks.drop_first()
            } else {
                chunks
            };
            &&& in_transfer(c1, s1, rest)
            &&& out + owed(c1, s1, rest) == owed(c, s, chunks)
            &&& d.to_server && d.to_client ==> acked
        }),
{
    lemma_sent_flags();
    let chunk = chunks[0];
    assert(chunk.len() <= CHUNK_SIZE);
    assert(flatten(chunks) == chunk + flatten(chunks.drop_first()));
    assert(forall|i: int| 0 <= i < chunks.drop_first().len() ==> #[trigger] chunks.drop_first()[i] == chunks[i + 1]);
    if chunk.len() == 0 {
        assert(chunk + flatten(chunks.drop_first()) =~= flatten(chunks.drop_first()));
    }
    let (c1, s1, out, acked) = attempt(c, s, chunk, d);
    if d.to_server {
        if c.seq.0 == s.ack.0 {
            assert(out == chunk);
        } else {
            assert(out =~= seq![]);
        }
    }
    let rest = if acked { chunks.drop_first() } else { chunks };
    assert(out + owed(c1, s1, rest) =~= owed(c, s, chunks));
}

/// Whatever segments are lost, the bytes the responder accepts during a
/// transfer, followed by the bytes it is still owed, are the bytes it was
/// owed at the start: nothing is lost, duplicated or reordered. Each attempt
/// whose two segments both arrive moves on to the next chunk.
pub proof fn lemma_transfer(c: Client, s: Connection, chunks: Seq<Seq<u8>>, ds: Seq<Delivery>)
    requires
        in_transfer(c, s, chunks),
    ensures
        ({
            let (c1, s1, left, out) = transfer(c, s, chunks, ds);
            &&& in_transfer(c1, s1, left)
            &&& out + owed(c1, s1, left) == owed(c, s, chunks)
            &&& left.len() <= chunks.len()
        }),
    decreases ds.len(),
{
    if ds.len() == 0 || chunks.len() == 0 {
        assert(seq![] + owed(c, s, chunks) =~= owed(c, s, chunks));
    } else {
        lemma_attempt(c, s, chunks, ds[0]);
        let (c1, s1, out, acked) = attempt(c, s, chunks[0], ds[0]);
        let rest = if acked { chunks.drop_first() } else { chunks };
        lemma_transfer(c1, s1, rest, ds.drop_first());
        let (c2, s2, left, more) = transfer(c1, s1, rest, ds.drop_first());
        assert(out + more + owed(c2, s2, left) =~= out + (more + owed(c2, s2, left)));
    }
}

/// Starting caught up, once every chunk is acknowledged the responder has
/// accepted exactly the concatenation of the chunks, whatever was lost.
pub proof fn lemma_transfer_complete(c: Client, s: Connection, chunks: Seq<Seq<u8>>, ds: Seq<Delivery>)
    requires
        c.phase == Phase::Established,
        s.phase == Phase::Established,
        c.seq.0 == s.ack.0,
        forall|i: int| 0 <= i < chunks.len() ==> (#[trigger] chunks[i]).len() <= CHUNK_SIZE,
        transfer(c, s, chunks, ds).2.len() == 0,
    ensures
        transfer(c, s, chunks, ds).3 == flatten(chunks),
{
    lemma_transfer(c, s, chunks, ds);
    let (c1, s1, left, out) = transfer(c, s, chunks, ds);
    assert(owed(c1, s1, left) == flatten(left));
    assert(out + seq![] =~= out);
}

/// Over a lossless channel a transfer of `n` chunks ends after `n` attempts
/// with every chunk acknowledged.
pub proof fn lemma_transfer_lossless(c: Client, s: Connection, chunks: Seq<Seq<u8>>, ds: Seq<Delivery>)
    requires
        in_transfer(c, s, chunks),
        ds.len() >= chunks.len(),
        forall|i: int| 0 <= i < ds.len() ==> (#[trigger] ds[i]).to_server && ds[i].to_client,
    ensures
        transfer(c, s, chunks, ds).2.len() == 0,
    decreases ds.len(),
{
    if ds.len() == 0 || chunks.len() == 0 {
    } else {
        lemma_attempt(c, s, chunks, ds[0]);
        let (c1, s1, out, acked) = attempt(c, s, chunks[0], ds[0]);
        assert(acked);
        assert(forall|i: int| 0 <= i < ds.drop_first().len() ==> #[trigger] ds.drop_first()[i] == ds[i + 1]);
        lemma_transfer_lossless(c1, s1, chunks.drop_first(), ds.drop_first());
    }
}

} // verus!
