//! What the packet socket decides.

use pktauth::auth::{mint, Authenticator, Direction, Peers, TOKEN_LEN};
use pktauth::net::{IpAddr, Ipv4Addr, SocketAddr};
use pktauth::socket::{
    admits, is_transient, segments, send_step, Delivery, IoErrorKind, PacketCounts, ReceiveAction,
    ReceivePass, SendAction, SendEvent,
};

const LOCALHOST: Ipv4Addr = Ipv4Addr {
    octets: [127, 0, 0, 1],
};

const PEERS: Peers = Peers {
    client: LOCALHOST,
    server: LOCALHOST,
};

const SENDER: SocketAddr = SocketAddr {
    ip: IpAddr::V4(LOCALHOST),
    port: 1234,
};

fn server() -> Option<Authenticator> {
    Some(Authenticator::new(Direction::ClientToServer, LOCALHOST))
}

fn packet(token: &[u8]) -> Vec<u8> {
    let mut packet = vec![0xc0, 0x00, 0x00, 0x00, 0x01, TOKEN_LEN as u8];
    packet.extend_from_slice(token);
    packet.extend_from_slice(&[0xaa; 1180]);
    packet
}

#[test]
fn forged_datagrams_are_dropped_and_counted() {
    let elsewhere = Peers {
        client: Ipv4Addr::new(192, 0, 2, 9),
        server: LOCALHOST,
    };
    let mut short = vec![0x40];
    short.extend_from_slice(&[0x5a; TOKEN_LEN]);
    short.extend_from_slice(&[0xaa; 64]);
    let forgeries = vec![
        packet(&[0x00; TOKEN_LEN]),
        short,
        packet(&mint(Direction::ServerToClient, PEERS)),
        packet(&mint(Direction::ClientToServer, elsewhere)),
        b"definitely not a quic packet".to_vec(),
    ];

    let mut pass = ReceivePass::new(4, 4);
    let mut counts = PacketCounts::new();
    for forgery in &forgeries {
        assert!(!admits(&server(), forgery, SENDER.ip));
        assert_eq!(
            pass.received(&server(), forgery, SENDER, &mut counts),
            ReceiveAction::Read(0),
            "the slot must be reused"
        );
    }
    assert_eq!(counts.received, forgeries.len() as u64);
    assert_eq!(counts.rejected, forgeries.len() as u64);

    let good = packet(&mint(Direction::ClientToServer, PEERS));
    assert_eq!(
        pass.received(&server(), &good, SENDER, &mut counts),
        ReceiveAction::Deliver(Delivery {
            slot: 0,
            addr: SENDER,
            len: good.len(),
            stride: good.len(),
        })
    );
    assert_eq!(counts.received, forgeries.len() as u64 + 1);
    assert_eq!(counts.rejected, forgeries.len() as u64);
    let bytes: usize = forgeries.iter().map(|f| f.len()).sum();
    assert_eq!(counts.received_bytes, (bytes + good.len()) as u64);
    assert_eq!((counts.sent, counts.sent_bytes), (0, 0));
}

#[test]
fn without_validation_everything_gets_through() {
    let mut pass = ReceivePass::new(4, 4);
    let mut counts = PacketCounts::new();
    let forgery = packet(&[0x00; TOKEN_LEN]);
    assert!(matches!(
        pass.received(&None, &forgery, SENDER, &mut counts),
        ReceiveAction::Deliver(_)
    ));
    assert_eq!((counts.received, counts.rejected), (1, 0));
}

#[test]
fn passes_fill_slots_in_order() {
    let mut pass = ReceivePass::new(2, 2);
    let mut counts = PacketCounts::new();
    assert_eq!(pass.next(), ReceiveAction::Read(0));
    for slot in 0..2 {
        assert_eq!(
            pass.arrived(9, SENDER, true, &mut counts),
            ReceiveAction::Deliver(Delivery {
                slot,
                addr: SENDER,
                len: 9,
                stride: 9,
            })
        );
    }
    assert_eq!(pass.next(), ReceiveAction::Done(2));
    assert_eq!(ReceivePass::new(0, 2).next(), ReceiveAction::Wait);

    // More buffers than metadata: what cannot be described ends the pass.
    let mut pass = ReceivePass::new(2, 1);
    pass.arrived(9, SENDER, true, &mut counts);
    assert_eq!(pass.next(), ReceiveAction::Read(1));
    assert_eq!(
        pass.arrived(9, SENDER, true, &mut counts),
        ReceiveAction::Done(1)
    );
    assert_eq!(counts.received, 4);
}

#[test]
fn failed_reads_end_the_pass_or_the_socket() {
    let mut pass = ReceivePass::new(2, 2);
    assert_eq!(pass.failed(IoErrorKind::WouldBlock), ReceiveAction::Wait);
    assert_eq!(pass.failed(IoErrorKind::ConnectionReset), ReceiveAction::Wait);
    assert_eq!(pass.failed(IoErrorKind::Other), ReceiveAction::Fail);
    pass.arrived(9, SENDER, true, &mut PacketCounts::new());
    assert_eq!(pass.failed(IoErrorKind::WouldBlock), ReceiveAction::Done(1));
    assert_eq!(pass.failed(IoErrorKind::Other), ReceiveAction::Done(1));
}

#[test]
fn queued_icmp_errors_are_transient() {
    assert!(is_transient(IoErrorKind::ConnectionRefused));
    assert!(is_transient(IoErrorKind::ConnectionReset));
    assert!(is_transient(IoErrorKind::HostUnreachable));
    assert!(is_transient(IoErrorKind::NetworkUnreachable));
    assert!(!is_transient(IoErrorKind::WouldBlock));
    assert!(!is_transient(IoErrorKind::Other));
}

#[test]
fn transmissions_are_cut_into_segments() {
    assert_eq!(segments(5, None), vec![(0, 5)]);
    assert_eq!(segments(0, None), vec![(0, 0)]);
    assert_eq!(segments(5, Some(2)), vec![(0, 2), (2, 4), (4, 5)]);
    assert_eq!(segments(4, Some(2)), vec![(0, 2), (2, 4)]);
    assert_eq!(segments(1, Some(9)), vec![(0, 1)]);
    assert_eq!(segments(0, Some(9)), vec![]);

    let contents: Vec<u8> = (0..100).collect();
    let cut: Vec<&[u8]> = segments(100, Some(7))
        .into_iter()
        .map(|(start, end)| &contents[start..end])
        .collect();
    let chunks: Vec<&[u8]> = contents.chunks(7).collect();
    assert_eq!(cut, chunks);
}

#[test]
fn counters_wrap() {
    let mut counts = PacketCounts::new();
    counts.record_send(Some(10));
    counts.record_send(Some(0));
    assert_eq!((counts.sent, counts.sent_bytes), (2, 10));
    let before = counts;
    counts.record_send(None);
    assert_eq!(counts, before);
    counts.sent = u64::MAX;
    counts.received = u64::MAX;
    counts.record_send(Some(1));
    counts.record_received(3, true);
    assert_eq!((counts.sent, counts.sent_bytes), (0, 11));
    assert_eq!((counts.received, counts.received_bytes), (0, 3));
    counts.record_received(3, false);
    assert_eq!(counts.rejected, 1);
}

#[test]
fn only_a_full_socket_is_waited_for_again() {
    assert_eq!(send_step(false, SendEvent::Asked), (true, SendAction::BeginWait));
    assert_eq!(send_step(true, SendEvent::Asked), (true, SendAction::KeepWaiting));
    assert_eq!(send_step(true, SendEvent::Writable), (false, SendAction::Transmit));
    assert_eq!(send_step(true, SendEvent::WaitFailed), (false, SendAction::Fail));
    assert_eq!(send_step(false, SendEvent::Sent), (false, SendAction::Complete));
    assert_eq!(
        send_step(false, SendEvent::Refused(IoErrorKind::WouldBlock)),
        (true, SendAction::BeginWait)
    );
    assert_eq!(
        send_step(false, SendEvent::Refused(IoErrorKind::NetworkUnreachable)),
        (false, SendAction::Complete)
    );
    assert_eq!(
        send_step(false, SendEvent::Refused(IoErrorKind::Other)),
        (false, SendAction::Complete)
    );
}

#[test]
fn sends_and_arrivals_are_counted_apart() {
    let mut counts = PacketCounts::new();
    let mut last = counts;
    for len in 0..50usize {
        counts.record_send(Some(len));
        assert_eq!(
            (counts.received, counts.received_bytes, counts.rejected),
            (last.received, last.received_bytes, last.rejected)
        );
        counts.record_received(2 * len, len % 3 != 0);
        assert!(counts.sent > last.sent && counts.received > last.received);
        assert!(counts.sent_bytes >= last.sent_bytes);
        assert!(counts.received_bytes >= last.received_bytes);
        assert!(last.rejected <= counts.rejected && counts.rejected <= counts.received);
        last = counts;
    }
    assert_eq!(
        counts,
        PacketCounts {
            sent: 50,
            sent_bytes: 1225,
            received: 50,
            received_bytes: 2450,
            rejected: 17,
        }
    );
}

#[test]
fn whole_passes_deliver_the_admitted_in_order() {
    let mut pass = ReceivePass::new(4, 3);
    let mut counts = PacketCounts::new();
    let mut delivered = Vec::new();
    let mut admitted = Vec::new();
    for port in 0..5u16 {
        let from = SocketAddr {
            ip: SENDER.ip,
            port,
        };
        let mut datagram = if port % 2 == 0 {
            packet(&mint(Direction::ClientToServer, PEERS))
        } else {
            packet(&mint(Direction::ServerToClient, PEERS))
        };
        datagram.extend(vec![0; port as usize]);
        if port % 2 == 0 {
            admitted.push((port, datagram.len()));
        }
        assert!(matches!(pass.next(), ReceiveAction::Read(_)));
        if let ReceiveAction::Deliver(delivery) =
            pass.received(&server(), &datagram, from, &mut counts)
        {
            assert_eq!(delivery.slot, delivered.len());
            assert_eq!(delivery.stride, delivery.len);
            delivered.push((delivery.addr.port, delivery.len));
        }
    }
    assert_eq!(delivered, admitted);
    assert_eq!(pass.filled, 3);
    assert_eq!((counts.received, counts.rejected), (5, 2));

    // The metadata has run out: one more is counted, dropped, and ends the pass.
    let late = packet(&mint(Direction::ClientToServer, PEERS));
    assert_eq!(
        pass.received(&server(), &late, SENDER, &mut counts),
        ReceiveAction::Done(3)
    );
    assert_eq!((counts.received, counts.rejected), (6, 2));
}
