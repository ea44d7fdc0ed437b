//! The ping protocol and the set-up of its two ends.

use pktauth::auth::Peers;
use pktauth::endpoint::{
    plan_client, plan_server, serve_step, AcceptOutcome, ClientError, ListenError, ServeAction,
};
use pktauth::net::{IpAddr, Ipv4Addr};
use pktauth::ping::{check_echo, summarize, total, EchoMismatch, PingRun, PingStep, RttSummary};
use pktauth::tls::trusted_roots;
use pktauth::{ping_payload, ALPN, MAX_PING_BYTES};

#[test]
fn ping_payload_carries_sequence_number() {
    let payload = ping_payload(0x0102_0304_0506_0708, 16);
    assert_eq!(payload.len(), 16, "payload must be exactly the requested size");
    assert_eq!(
        &payload[..8],
        &[1, 2, 3, 4, 5, 6, 7, 8],
        "first 8 bytes must be the big-endian sequence number"
    );
}

#[test]
fn ping_payload_handles_sizes_below_the_header() {
    assert!(
        ping_payload(u64::MAX, 0).is_empty(),
        "a zero-size payload must not panic on the truncated header"
    );
    assert_eq!(
        ping_payload(u64::MAX, 3),
        vec![0xff, 0xff, 0xff],
        "a short payload must carry a truncated sequence number"
    );
}

#[test]
fn payloads_count_up_behind_the_header() {
    let payload = ping_payload(0, 270);
    for (i, byte) in payload[8..].iter().enumerate() {
        assert_eq!(*byte as usize, i % 251);
    }
    assert_ne!(ping_payload(1, 8), ping_payload(2, 8));
    assert_eq!(ping_payload(7, 20)[..12], ping_payload(7, 12)[..]);
}

#[test]
fn protocol_constants_are_known() {
    assert_eq!(&ALPN[..], b"pktauth-ping/1");
    assert_eq!(MAX_PING_BYTES, 65536);
}

#[test]
fn echoes_must_be_verbatim() {
    let payload = ping_payload(1, 64);
    assert_eq!(check_echo(&payload, payload.clone()), Ok(()));
    assert_eq!(check_echo(&[], vec![]), Ok(()));
    assert_eq!(
        check_echo(&[1, 2, 3], vec![1, 2]),
        Err(EchoMismatch {
            sent: vec![1, 2, 3],
            echoed: vec![1, 2]
        })
    );
    assert_eq!(
        check_echo(&[1, 2], vec![1, 3]),
        Err(EchoMismatch {
            sent: vec![1, 2],
            echoed: vec![1, 3]
        })
    );
}

#[test]
fn runs_end_after_the_pings_asked_for() {
    let mut run = PingRun::new(2, 500);
    assert_eq!(
        run.next(),
        Some(PingStep {
            seq: 0,
            delay_ms: None
        })
    );
    run.record(Some(7));
    assert_eq!(
        run.next(),
        Some(PingStep {
            seq: 1,
            delay_ms: Some(500)
        })
    );
    run.record(None);
    assert_eq!(run.next(), None);
    assert_eq!((run.seq, run.lost), (2, 1));
    assert_eq!(run.rtts, vec![7]);
}

#[test]
fn runs_without_a_count_go_on() {
    let mut run = PingRun::new(0, 0);
    for seq in 0..10 {
        assert_eq!(
            run.next(),
            Some(PingStep {
                seq,
                delay_ms: None
            })
        );
        run.record(None);
    }
    assert_eq!(run.lost, 10);
}

#[test]
fn round_trips_are_summarized() {
    assert_eq!(summarize(&vec![]), None);
    assert_eq!(
        summarize(&vec![5, 1, 4]),
        Some(RttSummary {
            min: 1,
            avg: 3,
            max: 5
        })
    );
    assert_eq!(total(&vec![5, 1, 4]), Some(10));
    let longest = 18_446_744_073_709_551_615_999_999_999u128;
    assert_eq!(total(&vec![longest]), Some(longest));
    assert_eq!(total(&vec![longest, 1]), None);
}

#[test]
fn servers_listen_at_a_concrete_ipv4_address() {
    let ip = Ipv4Addr::new(127, 0, 0, 1);
    let plan = plan_server(IpAddr::V4(ip), false).unwrap();
    assert_eq!(plan.ip, ip);
    assert!(plan.authenticator.is_some());
    let plan = plan_server(IpAddr::V4(ip), true).unwrap();
    assert!(plan.authenticator.is_none());
    assert_eq!(
        plan_server(IpAddr::V4(Ipv4Addr::unspecified()), false).err(),
        Some(ListenError::Wildcard)
    );
    assert_eq!(
        plan_server(IpAddr::V6([1; 16]), false).err(),
        Some(ListenError::NotIpv4(IpAddr::V6([1; 16])))
    );
    assert!(Ipv4Addr::new(0, 0, 0, 0).is_unspecified());
    assert!(!Ipv4Addr::new(0, 0, 0, 1).is_unspecified());
}

#[test]
fn clients_ping_ipv4_servers_within_the_limit() {
    let local = Ipv4Addr::new(127, 0, 0, 1);
    let server = Ipv4Addr::new(127, 0, 0, 2);
    let plan = plan_client(MAX_PING_BYTES, IpAddr::V4(server), local).unwrap();
    assert_eq!(
        plan.peers,
        Peers {
            client: local,
            server
        }
    );
    assert_eq!(
        plan_client(MAX_PING_BYTES + 1, IpAddr::V6([1; 16]), local).err(),
        Some(ClientError::PayloadTooLarge(MAX_PING_BYTES + 1))
    );
    assert_eq!(
        plan_client(64, IpAddr::V6([1; 16]), local).err(),
        Some(ClientError::NotIpv4(IpAddr::V6([1; 16])))
    );
}

#[test]
fn a_clean_close_is_no_failure() {
    assert_eq!(serve_step(AcceptOutcome::Opened), ServeAction::Echo);
    assert_eq!(serve_step(AcceptOutcome::ApplicationClosed), ServeAction::Stop);
    assert_eq!(serve_step(AcceptOutcome::ConnectionClosed), ServeAction::Stop);
    assert_eq!(serve_step(AcceptOutcome::LocallyClosed), ServeAction::Stop);
    assert_eq!(serve_step(AcceptOutcome::Failed), ServeAction::Fail);
}

#[test]
fn exactly_the_given_certificates_are_trusted() {
    let a = rcgen::generate_simple_self_signed(vec!["a.example".to_string()]).unwrap();
    let b = rcgen::generate_simple_self_signed(vec!["b.example".to_string()]).unwrap();
    let (a, b) = (a.cert.der().to_vec(), b.cert.der().to_vec());

    assert!(trusted_roots(&vec![]).unwrap().is_empty());
    let roots = trusted_roots(&vec![a.clone(), b.clone()]).unwrap();
    assert_eq!(roots.len(), 2);
    let mut expected = rustls::RootCertStore::empty();
    expected.add(a.clone().into()).unwrap();
    expected.add(b.clone().into()).unwrap();
    assert_eq!(roots.roots, expected.roots);

    let unreadable = trusted_roots(&vec![a, vec![1, 2, 3], vec![]]).unwrap_err();
    assert_eq!(unreadable.index, 1);
    let refused = rustls::RootCertStore::empty()
        .add(vec![1, 2, 3].into())
        .unwrap_err();
    assert_eq!(unreadable.cause, refused);
}
