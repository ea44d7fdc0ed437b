//! Tokens, and the datagrams that carry them.

use pktauth::auth::{
    assemble, assemble_with_tag, check_header, check_tag, constant_time_eq, destination_cid,
    initial_dst_cid_provider, mint, mint_between, mint_unbound, spoil, tag, tag_message,
    truncate_block, verify, AuthCidGenerator, AuthError, Authenticator, Direction, Peers, F_AB,
    F_BA, NONCE_LEN, TOKEN_LEN,
};
use pktauth::endpoint::{client_cid_generator, server_cid_generator};
use pktauth::net::{IpAddr, Ipv4Addr, SocketAddr};

const PEERS: Peers = Peers {
    client: Ipv4Addr {
        octets: [10, 0, 0, 1],
    },
    server: Ipv4Addr {
        octets: [10, 0, 0, 2],
    },
};

fn check(token: &[u8], direction: Direction) -> Result<(), AuthError> {
    let (src, dst) = direction.path(PEERS);
    verify(token, direction, src, dst)
}

fn long_header(cid: &[u8]) -> Vec<u8> {
    let mut datagram = vec![0xc0, 0x00, 0x00, 0x00, 0x01, cid.len() as u8];
    datagram.extend_from_slice(cid);
    datagram.extend_from_slice(&[0xaa; 32]);
    datagram
}

fn short_header(cid: &[u8]) -> Vec<u8> {
    let mut datagram = vec![0x40];
    datagram.extend_from_slice(cid);
    datagram.extend_from_slice(&[0xaa; 32]);
    datagram
}

#[test]
fn minted_tokens_verify_on_their_own_path() {
    for direction in [Direction::ClientToServer, Direction::ServerToClient] {
        let token = mint(direction, PEERS);
        assert_eq!(token.len(), TOKEN_LEN, "token must fill a maximal QUIC CID");
        assert_eq!(
            check(&token, direction),
            Ok(()),
            "a freshly minted token must verify for {direction:?}"
        );
    }
}

#[test]
fn tokens_do_not_verify_for_the_reverse_direction() {
    let token = mint(Direction::ClientToServer, PEERS);
    assert_eq!(
        check(&token, Direction::ServerToClient),
        Err(AuthError::WrongDirection),
        "a client-to-server token must not be replayable at the client"
    );
}

#[test]
fn tokens_are_bound_to_the_address_pair() {
    let token = mint(Direction::ClientToServer, PEERS);
    let elsewhere = Ipv4Addr::new(192, 0, 2, 9);

    assert_eq!(
        verify(&token, Direction::ClientToServer, elsewhere, PEERS.server),
        Err(AuthError::BadTag),
        "a token replayed from another source address must fail"
    );
    assert_eq!(
        verify(&token, Direction::ClientToServer, PEERS.client, elsewhere),
        Err(AuthError::BadTag),
        "a token replayed towards another destination must fail"
    );
    assert_eq!(
        verify(&token, Direction::ClientToServer, PEERS.server, PEERS.client),
        Err(AuthError::BadTag),
        "swapping source and destination must fail"
    );
}

#[test]
fn every_corrupted_byte_is_detected() {
    let token = mint(Direction::ClientToServer, PEERS);
    for byte in 0..TOKEN_LEN {
        let mut corrupted = token;
        corrupted[byte] ^= 0x01;
        assert!(
            check(&corrupted, Direction::ClientToServer).is_err(),
            "flipping a bit in byte {byte} must invalidate the token"
        );
    }
}

#[test]
fn tags_are_deterministic_and_nonce_dependent() {
    let (src, dst) = Direction::ClientToServer.path(PEERS);
    let nonce = [7u8; NONCE_LEN];
    let key = Direction::ClientToServer.key();

    assert_eq!(
        tag(key, &nonce, src, dst),
        tag(key, &nonce, src, dst),
        "the PRF must be deterministic"
    );
    assert_ne!(
        tag(key, &nonce, src, dst),
        tag(key, &[8u8; NONCE_LEN], src, dst),
        "a different nonce must produce a different tag"
    );
    assert_ne!(
        tag(&F_AB, &nonce, src, dst),
        tag(&F_BA, &nonce, src, dst),
        "the two directions must not share a tag space"
    );
}

#[test]
fn malformed_tokens_are_rejected_rather_than_panicking() {
    for len in [0usize, 1, TOKEN_LEN - 1, TOKEN_LEN + 1] {
        assert_eq!(
            check(&vec![0u8; len], Direction::ClientToServer),
            Err(AuthError::BadLength(len)),
            "a {len}-byte token must be rejected on length alone"
        );
    }

    let mut token = mint(Direction::ClientToServer, PEERS);
    token[0..2].copy_from_slice(&0xbeefu16.to_be_bytes());
    assert_eq!(
        check(&token, Direction::ClientToServer),
        Err(AuthError::UnknownSelector(0xbeef)),
        "an unknown key selector must be named in the error"
    );
}

#[test]
fn generated_cids_bind_the_peer_they_are_issued_for() {
    let server = Ipv4Addr::new(10, 0, 0, 2);
    let alice = Ipv4Addr::new(10, 0, 0, 1);
    let bob = Ipv4Addr::new(198, 51, 100, 7);
    let mut generator = AuthCidGenerator::new(Direction::ClientToServer, server);

    let for_alice = generator.generate_cid_for(
        SocketAddr {
            ip: IpAddr::V4(alice),
            port: 4433,
        },
        None,
    );
    let for_bob = generator.generate_cid_for(
        SocketAddr {
            ip: IpAddr::V4(bob),
            port: 4433,
        },
        None,
    );

    assert_eq!(
        verify(&for_alice, Direction::ClientToServer, alice, server),
        Ok(()),
        "a CID issued for Alice must authenticate packets from Alice"
    );
    assert_eq!(
        verify(&for_bob, Direction::ClientToServer, bob, server),
        Ok(()),
        "the same generator must also serve Bob, at a different address"
    );
    assert_eq!(
        verify(&for_alice, Direction::ClientToServer, bob, server),
        Err(AuthError::BadTag),
        "Bob must not be able to authenticate with a CID issued for Alice"
    );
}

#[test]
fn cids_generated_without_a_peer_address_never_authenticate() {
    let server = Ipv4Addr::new(10, 0, 0, 2);
    let client = Ipv4Addr::new(10, 0, 0, 1);
    let mut generator = AuthCidGenerator::new(Direction::ClientToServer, server);

    // Failing closed is the point: the packet is dropped rather than admitted on
    // an address the tag never covered.
    let blind = generator.generate_cid();
    assert_eq!(
        verify(&blind, Direction::ClientToServer, client, server),
        Err(AuthError::BadTag),
        "a CID minted without knowing the peer must never authenticate one"
    );
}

#[test]
fn destination_cid_is_located_in_both_header_forms() {
    let token = mint(Direction::ClientToServer, PEERS);

    let mut long = vec![0xc0, 0x00, 0x00, 0x00, 0x01, TOKEN_LEN as u8];
    long.extend_from_slice(&token);
    long.extend_from_slice(&[0xaa; 32]);
    assert_eq!(
        destination_cid(&long),
        Some(&token[..]),
        "a long header carries an explicit connection ID length"
    );

    let mut short = vec![0x40];
    short.extend_from_slice(&token);
    short.extend_from_slice(&[0xaa; 32]);
    assert_eq!(
        destination_cid(&short),
        Some(&token[..]),
        "a short header connection ID is implicitly our own token length"
    );
}

#[test]
fn truncated_datagrams_do_not_panic() {
    assert_eq!(destination_cid(&[]), None, "an empty datagram has no CID");
    assert_eq!(
        destination_cid(&[0xc0, 0x00, 0x00, 0x00, 0x01, TOKEN_LEN as u8, 0x00]),
        None,
        "a long header truncated mid-CID must be rejected"
    );
    assert_eq!(
        destination_cid(&[0x40, 0x00]),
        None,
        "a short header truncated mid-CID must be rejected"
    );
    assert_eq!(
        destination_cid(&[0xc0, 0x00, 0x00, 0x00, 0x01, 21]),
        None,
        "a CID length above the QUIC maximum must be rejected"
    );
}

/// The example vector of FIPS 197, cut to 80 bits.
#[test]
fn tags_are_truncated_aes() {
    let key = [0, 1, 2, 3, 4, 5, 6, 7, 8, 9, 10, 11, 12, 13, 14, 15];
    let nonce = [0x00, 0x11, 0x22, 0x33, 0x44, 0x55, 0x66, 0x77];
    let src = Ipv4Addr::new(0x88, 0x99, 0xaa, 0xbb);
    let dst = Ipv4Addr::new(0xcc, 0xdd, 0xee, 0xff);
    assert_eq!(
        tag(&key, &nonce, src, dst),
        [0x69, 0xc4, 0xe0, 0xd8, 0x6a, 0x7b, 0x04, 0x30, 0xd8, 0xcd]
    );
}

#[test]
fn the_authenticated_message_is_one_block() {
    let nonce = [1, 2, 3, 4, 5, 6, 7, 8];
    let message = tag_message(&nonce, PEERS.client, PEERS.server);
    assert_eq!(
        message,
        [1, 2, 3, 4, 5, 6, 7, 8, 10, 0, 0, 1, 10, 0, 0, 2]
    );
    assert_eq!(
        truncate_block(&message),
        [1, 2, 3, 4, 5, 6, 7, 8, 10, 0]
    );
}

#[test]
fn tokens_are_selector_nonce_and_tag() {
    let nonce = [1, 2, 3, 4, 5, 6, 7, 8];
    let made_up = [9u8; 10];
    let token = assemble_with_tag(Direction::ServerToClient, &nonce, &made_up);
    assert_eq!(
        token,
        [0, 2, 1, 2, 3, 4, 5, 6, 7, 8, 9, 9, 9, 9, 9, 9, 9, 9, 9, 9]
    );

    let (src, dst) = Direction::ClientToServer.path(PEERS);
    let token = assemble(Direction::ClientToServer, &nonce, src, dst);
    assert_eq!(&token[..2], &[0, 1]);
    assert_eq!(&token[2..10], &nonce);
    assert_eq!(&token[10..], &tag(&F_AB, &nonce, src, dst));
}

#[test]
fn minted_nonces_are_random() {
    let a = mint_between(Direction::ClientToServer, PEERS.client, PEERS.server);
    let b = mint_between(Direction::ClientToServer, PEERS.client, PEERS.server);
    assert_ne!(a[2..10], [0u8; 8]);
    assert_ne!(a, b);
}

#[test]
fn headers_and_tags_are_checked_apart() {
    let nonce = [1, 2, 3, 4, 5, 6, 7, 8];
    let token = assemble_with_tag(Direction::ServerToClient, &nonce, &[9u8; 10]);
    assert_eq!(check_header(&token, Direction::ServerToClient), Ok(()));
    assert_eq!(
        check_header(&token, Direction::ClientToServer),
        Err(AuthError::WrongDirection)
    );
    assert_eq!(
        check_header(&token[1..], Direction::ClientToServer),
        Err(AuthError::BadLength(19))
    );
    assert_eq!(
        check_header(&[0u8; TOKEN_LEN], Direction::ClientToServer),
        Err(AuthError::UnknownSelector(0))
    );
    assert_eq!(check_tag(&token, &[9u8; 10]), Ok(()));
    assert_eq!(check_tag(&token, &[8u8; 10]), Err(AuthError::BadTag));
}

#[test]
fn equality_looks_at_every_byte() {
    assert!(constant_time_eq(&[], &[]));
    assert!(constant_time_eq(&[1, 2, 3], &[1, 2, 3]));
    assert!(!constant_time_eq(&[1, 2, 3], &[1, 2]));
    for i in 0..3 {
        let mut other = [1, 2, 3];
        other[i] ^= 0x80;
        assert!(!constant_time_eq(&[1, 2, 3], &other));
    }
}

#[test]
fn selectors_stand_for_directions() {
    assert_eq!(Direction::ClientToServer.selector(), 1);
    assert_eq!(Direction::ServerToClient.selector(), 2);
    assert_eq!(Direction::from_selector(1), Some(Direction::ClientToServer));
    assert_eq!(Direction::from_selector(2), Some(Direction::ServerToClient));
    assert_eq!(Direction::from_selector(0), None);
    assert_eq!(Direction::from_selector(0x0100), None);
    assert_eq!(Direction::ClientToServer.key(), &F_AB);
    assert_eq!(Direction::ServerToClient.key(), &F_BA);
    assert_eq!(
        Direction::ServerToClient.path(PEERS),
        (PEERS.server, PEERS.client)
    );
}

#[test]
fn empty_connection_ids_are_located() {
    assert_eq!(
        destination_cid(&[0x80, 0, 0, 0, 1, 0]),
        Some(&[] as &[u8]),
        "a long header may carry an empty connection ID"
    );
    assert_eq!(destination_cid(&[0x80, 0, 0, 0, 1]), None);
    assert_eq!(destination_cid(&[0u8; 20]), None);
    assert_eq!(destination_cid(&[0u8; 21]), Some(&[0u8; 20][..]));
}

#[test]
fn authenticators_name_what_they_refuse() {
    let authenticator = Authenticator::new(Direction::ClientToServer, PEERS.server);
    let from_client = IpAddr::V4(PEERS.client);
    let token = mint(Direction::ClientToServer, PEERS);

    assert_eq!(authenticator.check(&long_header(&token), from_client), Ok(()));
    assert_eq!(authenticator.check(&short_header(&token), from_client), Ok(()));
    assert_eq!(
        authenticator.check(&long_header(&token), IpAddr::V4(PEERS.server)),
        Err(AuthError::BadTag)
    );
    assert_eq!(
        authenticator.check(&long_header(&token), IpAddr::V6([0; 16])),
        Err(AuthError::NotIpv4(IpAddr::V6([0; 16])))
    );
    assert_eq!(authenticator.check(&[], from_client), Err(AuthError::NotQuic));
    assert_eq!(
        authenticator.check(&long_header(&[1, 2, 3]), from_client),
        Err(AuthError::BadLength(3))
    );
    assert_eq!(
        authenticator.check(
            &long_header(&mint(Direction::ServerToClient, PEERS)),
            from_client
        ),
        Err(AuthError::WrongDirection)
    );
}

/// Addresses that a connection ID issued without an IPv4 peer might be sent from.
fn anybody() -> Vec<Ipv4Addr> {
    vec![
        Ipv4Addr::unspecified(),
        PEERS.client,
        PEERS.server,
        Ipv4Addr::new(127, 0, 0, 1),
        Ipv4Addr::new(255, 255, 255, 255),
    ]
}

#[test]
fn cids_issued_to_ipv6_peers_never_authenticate() {
    for direction in [Direction::ClientToServer, Direction::ServerToClient] {
        for octets in [[0; 16], [1; 16]] {
            let remote = SocketAddr {
                ip: IpAddr::V6(octets),
                port: 1,
            };
            let mut generator = AuthCidGenerator::new(direction, PEERS.server);
            let cid = generator.generate_cid_for(remote, None);
            assert_eq!(cid.len(), TOKEN_LEN);
            for src in anybody() {
                assert_eq!(
                    verify(&cid, direction, src, PEERS.server),
                    Err(AuthError::BadTag)
                );
            }
        }
    }
}

#[test]
fn cids_issued_to_nobody_never_authenticate() {
    let authenticator = Authenticator::new(Direction::ClientToServer, PEERS.server);
    let mut generator = server_cid_generator(PEERS.server);
    let cid = generator.generate_cid();
    for src in anybody() {
        assert_eq!(
            authenticator.check(&short_header(&cid), IpAddr::V4(src)),
            Err(AuthError::BadTag)
        );
    }
    assert_eq!(
        verify(&cid, Direction::ServerToClient, PEERS.client, PEERS.server),
        Err(AuthError::WrongDirection)
    );
}

#[test]
fn unbound_tokens_are_spoilt_wildcard_tokens() {
    let token = mint_unbound(Direction::ClientToServer, PEERS.server);
    assert_eq!(
        verify(
            &spoil(&token),
            Direction::ClientToServer,
            Ipv4Addr::unspecified(),
            PEERS.server
        ),
        Ok(())
    );
    let mut expected = [7u8; TOKEN_LEN];
    expected[10] = 0xf8;
    assert_eq!(spoil(&[7; TOKEN_LEN]), expected);
}

#[test]
fn refusals_are_put_into_words() {
    let told: Vec<(AuthError, &str)> = vec![
        (AuthError::BadLength(0), "expected a 20-byte token, got 0 bytes"),
        (AuthError::BadLength(137), "expected a 20-byte token, got 137 bytes"),
        (AuthError::UnknownSelector(0xbeef), "unknown key selector 0xbeef"),
        (AuthError::UnknownSelector(3), "unknown key selector 0x0003"),
        (AuthError::WrongDirection, "token authenticates the wrong direction"),
        (
            AuthError::BadTag,
            "tag does not authenticate this nonce and address pair",
        ),
        (AuthError::NotQuic, "datagram is not recognizable as QUIC"),
        (
            AuthError::NotIpv4(IpAddr::V6([0; 16])),
            "only IPv4 peers can be authenticated, got ::",
        ),
    ];
    for (error, text) in told {
        assert_eq!(error.message("::"), text);
    }
    for selector in 0..=u16::MAX {
        assert_eq!(
            AuthError::UnknownSelector(selector).message(""),
            format!("unknown key selector {selector:#06x}")
        );
    }
}

#[test]
fn generators_issue_full_length_cids_that_never_expire() {
    let mut generator = AuthCidGenerator::new(Direction::ClientToServer, PEERS.server);
    assert_eq!(generator.cid_len(), TOKEN_LEN);
    assert_eq!(generator.cid_lifetime(), None);
    assert_eq!(generator.generate_cid().len(), TOKEN_LEN);
}

/// Every connection ID of a connection is accepted by the end that reads it.
#[test]
fn both_ends_accept_each_other() {
    let server = Authenticator::new(Direction::ClientToServer, PEERS.server);
    let client = Authenticator::new(Direction::ServerToClient, PEERS.client);
    let at_client = SocketAddr {
        ip: IpAddr::V4(PEERS.client),
        port: 1000,
    };
    let at_server = SocketAddr {
        ip: IpAddr::V4(PEERS.server),
        port: 4433,
    };

    let initial = initial_dst_cid_provider(PEERS)();
    assert_eq!(server.check(&long_header(&initial), at_client.ip), Ok(()));

    let issued = server_cid_generator(PEERS.server).generate_cid_for(at_client, None);
    assert_eq!(server.check(&short_header(&issued), at_client.ip), Ok(()));
    assert_eq!(
        client.check(&short_header(&issued), at_server.ip),
        Err(AuthError::WrongDirection)
    );

    let issued = client_cid_generator(PEERS).generate_cid_for(at_server, None);
    assert_eq!(client.check(&short_header(&issued), at_server.ip), Ok(()));
    assert_eq!(
        server.check(&short_header(&issued), at_client.ip),
        Err(AuthError::WrongDirection)
    );
}
