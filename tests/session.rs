use tcpudp::client::Client;
use tcpudp::header::Header;
use tcpudp::packet::{Ack, Flags, Packet, Port, SeqNum, ACK_BIT, FIN_BIT, SYN_BIT};
use tcpudp::phase::Phase;
use tcpudp::server::{Connection, Dispatch, Event, PeerAddr, Registry};

fn client_ports() -> Header {
    Header { source: Port(4000), dest: Port(5000) }
}

fn server_ports() -> Header {
    Header { source: Port(5000), dest: Port(4000) }
}

fn peer() -> PeerAddr {
    PeerAddr { v6: false, ip: 0x7f00_0001, port: 4000 }
}

/// A copy of a segment, made through its wire form.
fn copy(p: &Packet) -> Packet {
    let again = Packet {
        source: p.source,
        dest: p.dest,
        seq: p.seq,
        ack: p.ack,
        data_offset: p.data_offset,
        flags: p.flags,
        window_size: p.window_size,
        checksum: p.checksum,
        urgent: p.urgent,
        data: p.data.clone(),
    };
    Packet::from_bytes(again.into_bytes()).unwrap()
}

/// Runs the handshake over a lossless channel and returns both sides.
fn handshake(client_seq: u32, server_seq: u32) -> (Client, Connection, usize) {
    let mut client = Client::new(client_ports(), SeqNum(client_seq));
    let mut server = Connection::new(server_ports(), SeqNum(server_seq));
    let mut segments = 0;
    let syn = client.outgoing(&[]);
    segments += 1;
    let syn_ack = server.on_packet(Some(syn)).reply.unwrap();
    segments += 1;
    assert!(client.on_packet(&[], syn_ack));
    let ack = client.final_ack();
    segments += 1;
    let step = server.on_packet(Some(ack));
    assert!(step.data.is_none());
    (client, server, segments)
}

#[test]
fn handshake_establishes_both_sides() {
    let (client, server, segments) = handshake(500, 42);
    assert_eq!(segments, 3);
    assert_eq!(client.phase, Phase::Established);
    assert_eq!(server.phase, Phase::Established);
    assert_eq!(client.seq, SeqNum(501));
    assert_eq!(server.ack, Ack(501));
    assert_eq!(server.seq, SeqNum(43));
    assert_eq!(client.ack, Ack(43));
}

#[test]
fn handshake_wraps_sequence_numbers() {
    let (client, server, _) = handshake(u32::MAX, u32::MAX);
    assert_eq!(client.seq, SeqNum(0));
    assert_eq!(server.ack, Ack(0));
    assert_eq!(server.seq, SeqNum(0));
}

#[test]
fn responder_ignores_non_syn_while_idle() {
    let mut server = Connection::new(server_ports(), SeqNum(1));
    let h = client_ports();
    let step = server.on_packet(Some(h.ack(SeqNum(3), Ack(4))));
    assert!(step.reply.is_none());
    assert_eq!(server.phase, Phase::Idle);
    let step = server.on_packet(None);
    assert!(step.reply.is_none());
    assert_eq!(server.phase, Phase::Idle);
}

#[test]
fn responder_resends_syn_ack_until_matching_ack() {
    let mut server = Connection::new(server_ports(), SeqNum(10));
    let h = client_ports();
    server.on_packet(Some(h.syn(SeqNum(500))));
    // acknowledges the wrong number
    let step = server.on_packet(Some(h.ack(SeqNum(501), Ack(99))));
    let again = step.reply.unwrap();
    assert_eq!(again.flags, Flags(SYN_BIT | ACK_BIT));
    assert_eq!(again.seq, SeqNum(10));
    assert_eq!(again.ack, Ack(501));
    assert_eq!(server.phase, Phase::Handshaking);
    // right acknowledgment, wrong sequence number
    server.on_packet(Some(h.ack(SeqNum(777), Ack(11))));
    assert_eq!(server.phase, Phase::Handshaking);
    // checksum failure: resend
    assert!(server.on_packet(None).reply.is_some());
    server.on_packet(Some(h.ack(SeqNum(501), Ack(11))));
    assert_eq!(server.phase, Phase::Established);
}

#[test]
fn random_responder_starts_below_one_thousand() {
    let server = Connection::new_random(server_ports());
    assert_eq!(server.phase, Phase::Idle);
    assert!(server.seq.0 < 1000);
    assert!(server.current().is_none());
}

#[test]
fn random_client_starts_below_one_thousand() {
    let client = Client::new_random(client_ports());
    assert_eq!(client.phase, Phase::Handshaking);
    assert!(client.seq.0 < 1000);
    let syn = client.outgoing(&[]);
    assert_eq!(syn.seq, client.seq);
    assert_eq!(syn.flags, Flags(SYN_BIT));
}

/// Sends `chunks` through a channel that drops the segments that `drop`
/// picks; returns the bytes the responder accepted.
fn transfer(chunks: &[Vec<u8>], mut drop: impl FnMut(usize) -> bool) -> (Client, Connection, Vec<u8>) {
    let (mut client, mut server, _) = handshake(1000, 2000);
    let mut received = Vec::new();
    let mut sent = 0usize;
    for chunk in chunks {
        loop {
            let data = client.outgoing(chunk);
            sent += 1;
            if drop(sent) {
                continue;
            }
            let step = server.on_packet(Some(data));
            if let Some(bytes) = step.data {
                received.extend_from_slice(&bytes);
            }
            sent += 1;
            if drop(sent) {
                continue;
            }
            if client.on_packet(chunk, step.reply.unwrap()) {
                break;
            }
        }
    }
    (client, server, received)
}

#[test]
fn transfer_reconstructs_input() {
    let chunks = vec![b"hello ".to_vec(), b"stop and ".to_vec(), b"wait".to_vec()];
    let (client, server, received) = transfer(&chunks, |_| false);
    assert_eq!(received, b"hello stop and wait".to_vec());
    assert_eq!(client.seq, SeqNum(1001 + 19));
    assert_eq!(server.ack, Ack(1001 + 19));
}

#[test]
fn transfer_survives_loss() {
    let chunks: Vec<Vec<u8>> = (0..20u8).map(|i| vec![i; (i as usize * 37) % 1024 + 1]).collect();
    let expected: Vec<u8> = chunks.concat();
    for period in [3usize, 5, 7] {
        let (_, _, received) = transfer(&chunks, |n| n % period == 0);
        assert_eq!(received, expected);
    }
}

#[test]
fn transfer_of_largest_chunks() {
    let chunks = vec![vec![0xab; 1024], vec![0xcd; 1024]];
    let (client, _, received) = transfer(&chunks, |n| n % 4 == 1);
    assert_eq!(received, chunks.concat());
    assert_eq!(client.seq, SeqNum(1001 + 2048));
}

#[test]
fn duplicate_data_is_not_counted_twice() {
    let (client, mut server, _) = handshake(1000, 2000);
    let data = client.outgoing(b"abc");
    let first = server.on_packet(Some(copy(&data)));
    assert_eq!(first.data, Some(b"abc".to_vec()));
    assert_eq!(server.ack, Ack(1004));
    let before = server;
    let second = server.on_packet(Some(data));
    assert!(second.data.is_none());
    assert_eq!(server, before);
    let reply = second.reply.unwrap();
    assert_eq!(reply.ack, Ack(1004));
    assert_eq!(reply.flags, Flags(ACK_BIT));
}

#[test]
fn stale_ack_does_not_advance_client() {
    let (mut client, _, _) = handshake(1000, 2000);
    let before = client;
    let stale = server_ports().ack(SeqNum(2001), Ack(1001));
    assert!(!client.on_packet(b"abcd", stale));
    assert_eq!(client, before);
    let fresh = server_ports().ack(SeqNum(2001), Ack(1005));
    assert!(client.on_packet(b"abcd", fresh));
    assert_eq!(client.seq, SeqNum(1005));
}

#[test]
fn teardown_closes_both_sides() {
    let (mut client, mut server, _) = handshake(7, 70);
    client.finish();
    assert_eq!(client.phase, Phase::Closing);
    let fin = client.outgoing(&[]);
    assert_eq!(fin.flags, Flags(FIN_BIT));
    let step = server.on_packet(Some(fin));
    assert_eq!(server.phase, Phase::Closing);
    let fin_ack = step.reply.unwrap();
    assert_eq!(fin_ack.ack, Ack(9));
    assert!(client.on_packet(&[], fin_ack));
    assert_eq!(client.phase, Phase::Closed);
    let step = server.on_packet(Some(client.final_ack()));
    assert!(step.reply.is_none());
    assert_eq!(server.phase, Phase::Closed);
}

#[test]
fn closing_responder_resends_fin_ack() {
    let (mut client, mut server, _) = handshake(7, 70);
    client.finish();
    server.on_packet(Some(client.outgoing(&[])));
    let wrong = client_ports().ack(SeqNum(9), Ack(12345));
    let step = server.on_packet(Some(wrong));
    assert_eq!(server.phase, Phase::Closing);
    assert_eq!(step.reply.unwrap().flags, Flags(FIN_BIT | ACK_BIT));
}

#[test]
fn finish_outside_transfer_changes_nothing() {
    let mut client = Client::new(client_ports(), SeqNum(3));
    client.finish();
    assert_eq!(client.phase, Phase::Handshaking);
}

#[test]
fn registry_inserts_once_and_removes_once() {
    let mut registry: Registry<u32> = Registry::new();
    assert!(registry.is_empty());
    let mut spawned = 0;
    let h = client_ports();
    for _ in 0..3 {
        let d = registry.dispatch(Event::Receive(peer(), h.syn(SeqNum(1))), |_| {
            spawned += 1;
            spawned
        });
        assert!(matches!(d, Dispatch::Forward(a, _) if a == peer()));
    }
    assert_eq!(spawned, 1);
    assert!(registry.contains(&peer()));
    assert_eq!(registry.get(&peer()), Some(&1));
    let other = PeerAddr { v6: true, ip: 1, port: 4000 };
    assert!(!registry.contains(&other));
    match registry.dispatch(Event::Close(peer()), |_| 0) {
        Dispatch::Closed(a, handle) => {
            assert_eq!(a, peer());
            assert_eq!(handle, 1);
        }
        _ => panic!("entry was not removed"),
    }
    assert!(registry.is_empty());
    assert!(matches!(registry.dispatch(Event::Close(peer()), |_| 0), Dispatch::Unknown(a) if a == peer()));
}

#[test]
fn registry_insert_and_remove() {
    let mut registry: Registry<&str> = Registry::new();
    let a = PeerAddr { v6: false, ip: 1, port: 1 };
    let b = PeerAddr { v6: false, ip: 1, port: 2 };
    registry.insert(a, "a");
    registry.insert(b, "b");
    assert_eq!(registry.remove(&a), Some("a"));
    assert_eq!(registry.remove(&a), None);
    assert_eq!(registry.get(&b), Some(&"b"));
    assert!(!registry.is_empty());
}

#[test]
fn event_from_letter() {
    let e = Event::from((client_ports().syn(SeqNum(5)), peer()));
    assert!(matches!(e, Event::Receive(a, p) if a == peer() && p.seq == SeqNum(5)));
}

/// Delivers one segment from the peer through the registry to its
/// connection, as the listening endpoint does; a connection that reaches
/// `Closed` reports its close.
fn deliver(registry: &mut Registry<Connection>, received: &mut Vec<u8>, p: Packet) -> Option<Packet> {
    let p = match registry.dispatch(Event::Receive(peer(), p), |_| {
        Connection::new(server_ports(), SeqNum(300))
    }) {
        Dispatch::Forward(_, p) => p,
        _ => panic!("segment not forwarded"),
    };
    let mut conn = registry.remove(&peer()).unwrap();
    let step = conn.on_packet(Some(p));
    if let Some(d) = step.data {
        received.extend_from_slice(&d);
    }
    registry.insert(peer(), conn);
    if conn.phase == Phase::Closed {
        let closed = registry.dispatch(Event::Close(peer()), |_| conn);
        assert!(matches!(closed, Dispatch::Closed(..)));
    }
    step.reply
}

#[test]
fn concrete_scenario() {
    let mut registry: Registry<Connection> = Registry::new();
    let mut received: Vec<u8> = Vec::new();
    let mut client = Client::new(client_ports(), SeqNum(500));

    let syn = client.outgoing(&[]);
    assert_eq!((syn.seq, syn.flags), (SeqNum(500), Flags(SYN_BIT)));
    let syn_ack = deliver(&mut registry, &mut received, syn).unwrap();
    assert_eq!((syn_ack.seq, syn_ack.ack), (SeqNum(300), Ack(501)));
    assert!(client.on_packet(&[], syn_ack));
    let ack = client.final_ack();
    assert_eq!((ack.seq, ack.ack, ack.flags), (SeqNum(501), Ack(301), Flags(ACK_BIT)));
    deliver(&mut registry, &mut received, ack).unwrap();

    let data = client.outgoing(b"hello");
    assert_eq!(data.seq, SeqNum(501));
    let reply = deliver(&mut registry, &mut received, data).unwrap();
    assert_eq!(reply.ack, Ack(506));
    assert!(client.on_packet(b"hello", reply));

    client.finish();
    let fin = client.outgoing(&[]);
    assert_eq!((fin.seq, fin.flags), (SeqNum(506), Flags(FIN_BIT)));
    let fin_ack = deliver(&mut registry, &mut received, fin).unwrap();
    assert_eq!((fin_ack.seq, fin_ack.ack), (SeqNum(301), Ack(507)));
    assert!(client.on_packet(&[], fin_ack));
    let last = client.final_ack();
    assert_eq!((last.seq, last.ack), (SeqNum(507), Ack(302)));
    assert!(deliver(&mut registry, &mut received, last).is_none());

    assert_eq!(client.phase, Phase::Closed);
    assert!(registry.is_empty());
    assert_eq!(received, b"hello".to_vec());
}
