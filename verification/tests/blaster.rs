//! The load generator.

use pktauth::auth::{destination_cid, TOKEN_LEN};
use pktauth::blaster::{
    bind_address, sender_count, sender_pps, sender_seeds, BlastAction, BlastStats,
    InitialTemplate, Pacer, RateMeter, Schedule, Sender, TemplateError, BATCH,
    MAX_INITIAL_DATAGRAM, MIN_INITIAL_DATAGRAM,
};
use pktauth::net::{IpAddr, Ipv4Addr};
use pktauth::rng::SplitMix64;

fn built(template: Result<InitialTemplate, TemplateError>, what: &str) -> InitialTemplate {
    match template {
        Ok(template) => template,
        Err(e) => panic!("{what}: {}", e.message()),
    }
}

#[test]
fn the_template_is_a_parseable_quic_initial() {
    let template = built(
        InitialTemplate::new(MIN_INITIAL_DATAGRAM),
        "a minimum-size datagram must be buildable",
    );
    assert_eq!(
        template.bytes.len(),
        MIN_INITIAL_DATAGRAM,
        "the datagram must be exactly the requested size"
    );

    // The point of the exercise: the connection ID must land where a packet
    // authenticator looks for it.
    let dcid = destination_cid(&template.bytes)
        .expect("the target's own parser must find a connection ID");
    assert_eq!(
        dcid.len(),
        TOKEN_LEN,
        "the connection ID must be token-sized so it reaches the tag check"
    );
    assert_eq!(
        dcid.as_ptr(),
        template.bytes[template.dcid_offset..].as_ptr(),
        "the parser must find the connection ID exactly where we write it"
    );
}

#[test]
fn randomizing_rewrites_only_the_connection_id() {
    let mut template = built(
        InitialTemplate::new(MIN_INITIAL_DATAGRAM),
        "template must build",
    );
    let original = template.bytes.clone();
    let mut rng = SplitMix64(1);
    template.randomize_dcid(&mut rng);

    let (offset, end) = (template.dcid_offset, template.dcid_offset + TOKEN_LEN);
    assert_ne!(
        &template.bytes[offset..end],
        &original[offset..end],
        "the connection ID must change"
    );
    assert_eq!(
        &template.bytes[..offset],
        &original[..offset],
        "the header before the connection ID must be untouched"
    );
    assert_eq!(
        &template.bytes[end..],
        &original[end..],
        "everything after the connection ID must be untouched"
    );
}

#[test]
fn generated_connection_ids_do_not_repeat() {
    let mut template = built(
        InitialTemplate::new(MIN_INITIAL_DATAGRAM),
        "template must build",
    );
    let mut rng = SplitMix64(42);
    let mut seen = std::collections::HashSet::new();
    for _ in 0..10_000 {
        template.randomize_dcid(&mut rng);
        let dcid = template.bytes[template.dcid_offset..][..TOKEN_LEN].to_vec();
        assert!(seen.insert(dcid), "connection IDs must not repeat");
    }
}

#[test]
fn undersized_datagrams_are_refused() {
    assert!(
        InitialTemplate::new(MIN_INITIAL_DATAGRAM - 1).is_err(),
        "a datagram below the RFC 9000 minimum for an Initial must be refused"
    );
}

#[test]
fn refused_sizes_are_explained() {
    let small = InitialTemplate::new(1199).err();
    assert_eq!(small, Some(TemplateError::TooSmall(1199)));
    assert_eq!(
        TemplateError::TooSmall(1199).message(),
        "--size must be at least 1200 bytes, the minimum RFC 9000 allows for a datagram \
         carrying an Initial packet, got 1199"
    );
    let large = InitialTemplate::new(65536).err();
    assert_eq!(large, Some(TemplateError::TooLarge(65536)));
    assert_eq!(
        TemplateError::TooLarge(65536).message(),
        "--size must fit in a UDP datagram, got 65536"
    );
    assert_eq!(
        TemplateError::TooSmall(0).message(),
        "--size must be at least 1200 bytes, the minimum RFC 9000 allows for a datagram \
         carrying an Initial packet, got 0"
    );
}

#[test]
fn the_template_is_laid_out_as_an_initial() {
    let template = built(
        InitialTemplate::new(MAX_INITIAL_DATAGRAM),
        "the largest Initial must be buildable",
    );
    let mut expected = vec![0xc3, 0, 0, 0, 1, 20];
    expected.extend_from_slice(&[0; 20]);
    expected.push(20);
    expected.extend_from_slice(&[0x5a; 20]);
    expected.push(0);
    expected.extend_from_slice(&[0x7f, 0xff]);
    expected.extend_from_slice(&[0; 4]);
    expected.resize(MAX_INITIAL_DATAGRAM, 0x42);
    assert_eq!(template.bytes, expected);
    assert_eq!(template.dcid_offset, 6);

    let smallest = built(InitialTemplate::new(1200), "template must build");
    assert_eq!(&smallest.bytes[48..50], &[0x44, 0x7e]);
}

#[test]
fn generator_words_are_known() {
    let mut rng = SplitMix64(1234567);
    assert_eq!(rng.next(), 6457827717110365317);
    assert_eq!(rng.next(), 3203168211198807973);
    assert_eq!(rng.next(), 9817491932198370423);
    assert_eq!(rng.next(), 4593380528125082431);
    assert_eq!(rng.next(), 16408922859458223821);
}

#[test]
fn connection_ids_are_native_words() {
    let mut template = built(InitialTemplate::new(1200), "template must build");
    template.randomize_dcid(&mut SplitMix64(1234567));
    let mut expected = Vec::new();
    expected.extend_from_slice(&6457827717110365317u64.to_ne_bytes());
    expected.extend_from_slice(&3203168211198807973u64.to_ne_bytes());
    expected.extend_from_slice(&9817491932198370423u64.to_ne_bytes()[..4]);
    assert_eq!(template.bytes[6..26], expected[..]);
    assert_eq!(destination_cid(&template.bytes), Some(&expected[..]));

    template.set_dcid(&[7; 20]);
    assert_eq!(template.bytes[6..26], [7; 20]);
}

#[test]
fn the_rate_is_shared_among_senders() {
    assert_eq!(sender_pps(0, 4), 0);
    assert_eq!(sender_pps(3, 4), 1);
    assert_eq!(sender_pps(4, 4), 1);
    assert_eq!(sender_pps(10, 4), 2);
    assert_eq!(sender_count(None, 8), 8);
    assert_eq!(sender_count(Some(0), 8), 8);
    assert_eq!(sender_count(Some(3), 8), 3);
}

#[test]
fn senders_have_different_seeds() {
    let seeds = sender_seeds(100);
    let mut rng = SplitMix64(0x243f_6a88_85a3_08d3);
    let mut seen = std::collections::HashSet::new();
    assert_eq!(seeds.len(), 100);
    for seed in seeds {
        assert_eq!(seed, rng.next());
        assert!(seen.insert(seed), "seeds must differ");
    }
}

#[test]
fn senders_bind_the_family_of_their_target() {
    assert_eq!(
        bind_address(IpAddr::V4(Ipv4Addr::new(127, 0, 0, 1))),
        "0.0.0.0:0"
    );
    assert_eq!(bind_address(IpAddr::V6([0; 16])), "[::]:0");
}

#[test]
fn a_batch_is_sent_between_two_looks_at_the_stop_flag() {
    let mut sender = match Sender::new(1200, 0, 9) {
        Ok(sender) => sender,
        Err(e) => panic!("{}", e.message()),
    };
    let mut stats = BlastStats::new();
    assert_eq!(sender.begin_batch(true), BlastAction::Send);
    let first = sender.template.bytes.clone();
    for _ in 1..BATCH {
        assert_eq!(sender.sent(Some(1200), &mut stats), BlastAction::Send);
        assert_ne!(sender.template.bytes, first);
    }
    assert_eq!(sender.sent(None, &mut stats), BlastAction::CheckStop);
    assert_eq!(
        stats,
        BlastStats {
            sent: 63,
            bytes: 63 * 1200,
            errors: 1
        }
    );
    assert_eq!(sender.pacer, Pacer { sent: 64, pps: 0 });
    assert_eq!(sender.begin_batch(false), BlastAction::Stop);
    assert!(Sender::new(1, 0, 9).is_err());
}

#[test]
fn paced_senders_wait_for_their_schedule() {
    let mut pacer = Pacer::new(100);
    assert_eq!(
        pacer.batch_sent(),
        Some(Schedule {
            packets: 64,
            per_second: 100
        })
    );
    assert_eq!(
        pacer.batch_sent(),
        Some(Schedule {
            packets: 128,
            per_second: 100
        })
    );
    assert_eq!(Pacer::new(0).batch_sent(), None);

    let mut sender = match Sender::new(1200, 50, 9) {
        Ok(sender) => sender,
        Err(e) => panic!("{}", e.message()),
    };
    let mut stats = BlastStats::new();
    sender.begin_batch(true);
    for _ in 1..BATCH {
        sender.sent(Some(1200), &mut stats);
    }
    assert_eq!(
        sender.sent(Some(1200), &mut stats),
        BlastAction::Wait(Schedule {
            packets: 64,
            per_second: 50
        })
    );
}

#[test]
fn meters_report_what_is_new() {
    let mut meter = RateMeter::new();
    let mut stats = BlastStats::new();
    stats.record(Some(10));
    assert_eq!(meter.tick(stats), (1, 10));
    assert_eq!(meter.tick(stats), (0, 0));
    stats.record(Some(5));
    stats.record(Some(5));
    stats.record(None);
    assert_eq!(meter.tick(stats), (2, 10));
}

#[test]
fn runs_send_every_drawn_connection_id() {
    let mut sender = match Sender::new(1300, 0, 77) {
        Ok(sender) => sender,
        Err(e) => panic!("{}", e.message()),
    };
    let mut stats = BlastStats::new();
    let mut template = built(InitialTemplate::new(1300), "template must build");
    let mut rng = SplitMix64(77);
    let mut action = BlastAction::CheckStop;
    for i in 0..3 * BATCH {
        if action == BlastAction::CheckStop {
            assert_eq!(i % BATCH, 0);
            action = sender.begin_batch(true);
        }
        assert_eq!(action, BlastAction::Send);
        template.randomize_dcid(&mut rng);
        assert_eq!(sender.template.bytes, template.bytes);
        let outcome = if i % 3 == 0 { None } else { Some(1300) };
        action = sender.sent(outcome, &mut stats);
        assert_eq!(sender.pacer.sent + sender.in_batch, i + 1);
    }
    assert_eq!(
        stats,
        BlastStats {
            sent: 128,
            bytes: 128 * 1300,
            errors: 64
        }
    );
}
