//! What calls on tokens and datagrams give, told by the bytes on the wire.
//!
//! Each law speaks of every result that a call can have, and of nothing but the
//! call's arguments, that result, and the AES block cipher.

use vstd::prelude::*;

use crate::auth::{
    aes128_block, assemble, assemble_with_tag, check_header, check_tag, connection_id_bytes,
    constant_time_eq, destination_cid, initial_dst_cid, is_drawn, is_minted, message_of, mint, mint_between,
    mint_unbound, nonce_field, spoil, tag, tag_field, tag_message, tag_of, token_of,
    truncate_block, verify, AuthCidGenerator, AuthError, Authenticator, Direction, Peers, F_AB,
    F_BA,
};
use crate::endpoint::{
    client_cid_generator, plan_client, plan_server, server_cid_generator, ClientError,
    ClientPlan, ListenError, ServerPlan,
};
use crate::net::{IpAddr, Ipv4Addr, SocketAddr};
use crate::socket::admits;

verus! {

/// The byte that tells the direction of a token, behind a zero.
pub open spec fn wire_selector(direction: Direction) -> u8 {
    match direction {
        Direction::ClientToServer => 1,
        Direction::ServerToClient => 2,
    }
}

/// The key of a direction, byte by byte.
pub open spec fn wire_key(direction: Direction) -> Seq<u8> {
    match direction {
        Direction::ClientToServer => seq![
            0xa0u8, 0xb1, 0xc2, 0xd3, 0xe4, 0xf5, 0x06, 0x17,
            0x28, 0x39, 0x4a, 0x5b, 0x6c, 0x7d, 0x8e, 0x9f,
        ],
        Direction::ServerToClient => seq![
            0x5fu8, 0x4e, 0x3d, 0x2c, 0x1b, 0x0a, 0xf9, 0xe8,
            0xd7, 0xc6, 0xb5, 0xa4, 0x93, 0x82, 0x71, 0x60,
        ],
    }
}

/// The tag that the bytes of a token call for on a path.
pub open spec fn wire_tag(token: Seq<u8>, direction: Direction, src: Ipv4Addr, dst: Ipv4Addr) -> Seq<
    u8,
> {
    aes128_block(
        wire_key(direction),
        token.subrange(2, 10) + src.octets@ + dst.octets@,
    ).subrange(0, 10)
}

/// Whether `token` authenticates `direction` on the path `src` to `dst`: 20 bytes,
/// of which the last ten are the AES encryption of the nonce and both addresses.
pub open spec fn is_genuine(
    token: Seq<u8>,
    direction: Direction,
    src: Ipv4Addr,
    dst: Ipv4Addr,
) -> bool {
    &&& token.len() == 20
    &&& token[0] == 0
    &&& token[1] == wire_selector(direction)
    &&& token.subrange(10, 20) == wire_tag(token, direction, src, dst)
}

/// The one answer to a token that is presented for `direction` on a path.
pub open spec fn answer(
    token: Seq<u8>,
    direction: Direction,
    src: Ipv4Addr,
    dst: Ipv4Addr,
) -> Result<(), AuthError> {
    if token.len() != 20 {
        Err(AuthError::BadLength(token.len() as usize))
    } else if token[0] != 0 || (token[1] != 1 && token[1] != 2) {
        Err(AuthError::UnknownSelector((token[0] * 256 + token[1]) as u16))
    } else if token[1] != wire_selector(direction) {
        Err(AuthError::WrongDirection)
    } else if token.subrange(10, 20) != wire_tag(token, direction, src, dst) {
        Err(AuthError::BadTag)
    } else {
        Ok(())
    }
}

/// Where the connection ID of a datagram starts and ends, if it has one.
pub open spec fn cid_bounds(datagram: Seq<u8>) -> Option<(int, int)> {
    if datagram.len() >= 6 && datagram[0] >= 128 && datagram[5] <= 20 && datagram.len() >= 6
        + datagram[5] {
        Some((6, 6 + datagram[5]))
    } else if datagram.len() >= 21 && datagram[0] < 128 {
        Some((1, 21))
    } else {
        None
    }
}

/// The one answer to a datagram that reaches `local` from `src`.
pub open spec fn datagram_answer(
    inbound: Direction,
    local: Ipv4Addr,
    datagram: Seq<u8>,
    src: IpAddr,
) -> Result<(), AuthError> {
    match src {
        IpAddr::V6(_) => Err(AuthError::NotIpv4(src)),
        IpAddr::V4(peer) => match cid_bounds(datagram) {
            None => Err(AuthError::NotQuic),
            Some((start, end)) => answer(datagram.subrange(start, end), inbound, peer, local),
        },
    }
}

/// Two addresses with the same octets are the same.
proof fn octets_tell_addresses_apart(a: Ipv4Addr, b: Ipv4Addr)
    requires
        a.octets@ == b.octets@,
    ensures
        a == b,
{
    assert(a.octets =~= b.octets);
}

/// The keys are the ones on the wire.
proof fn keys_are_fixed(direction: Direction)
    ensures
        direction.key_bytes() == wire_key(direction),
{
    assert(F_AB@ =~= wire_key(Direction::ClientToServer));
    assert(F_BA@ =~= wire_key(Direction::ServerToClient));
}

/// The selector of a direction is 1 towards the server and 2 towards the client,
/// the key its own, the path that of its packets; and only the two selectors are
/// read back.
pub proof fn directions_have_their_wire_values(
    direction: Direction,
    peers: Peers,
    selector: u16,
    key: &'static [u8; 16],
    path: (Ipv4Addr, Ipv4Addr),
    read: u16,
    found: Option<Direction>,
)
    requires
        call_ensures(Direction::selector, (direction,), selector),
        call_ensures(Direction::key, (direction,), key),
        call_ensures(Direction::path, (direction, peers), path),
        call_ensures(Direction::from_selector, (read,), found),
    ensures
        selector == wire_selector(direction),
        key@ == wire_key(direction),
        direction == Direction::ClientToServer ==> path == (peers.client, peers.server),
        direction == Direction::ServerToClient ==> path == (peers.server, peers.client),
        found == Some(direction) <==> read == selector,
        found is None <==> read != 1 && read != 2,
{
    keys_are_fixed(direction);
}

/// A tag is the first ten bytes of the encryption of one block, whichever key:
/// eight bytes of nonce, four of source and four of destination.
pub proof fn tags_cover_nonce_and_both_addresses(
    key: &[u8; 16],
    nonce: &[u8],
    src: Ipv4Addr,
    dst: Ipv4Addr,
    tag_bytes: [u8; 10],
    block: Seq<u8>,
)
    requires
        call_ensures(tag, (key, nonce, src, dst), tag_bytes),
        block.len() == 16,
        block.take(8) == nonce@,
        block.subrange(8, 12) == src.octets@,
        block.subrange(12, 16) == dst.octets@,
    ensures
        tag_bytes@ == aes128_block(key@, block).subrange(0, 10),
        tag_of(key@, nonce@, src, dst) == aes128_block(key@, block).subrange(0, 10),
{
    assert(block =~= nonce@ + src.octets@ + dst.octets@);
}

/// The same of what is only written down of a tag, for any key and nonce.
pub proof fn stated_tags_cover_nonce_and_both_addresses(
    key: Seq<u8>,
    block: Seq<u8>,
    src: Ipv4Addr,
    dst: Ipv4Addr,
)
    requires
        block.len() == 16,
        block.subrange(8, 12) == src.octets@,
        block.subrange(12, 16) == dst.octets@,
    ensures
        tag_of(key, block.subrange(0, 8), src, dst) == aes128_block(key, block).subrange(0, 10),
{
    assert(block =~= block.subrange(0, 8) + src.octets@ + dst.octets@);
}

/// What is encrypted determines the nonce and the address pair: two blocks are
/// the same only where all three are.
pub proof fn blocks_determine_what_they_authenticate(
    a: Seq<u8>,
    src_a: Ipv4Addr,
    dst_a: Ipv4Addr,
    b: Seq<u8>,
    src_b: Ipv4Addr,
    dst_b: Ipv4Addr,
)
    requires
        a.len() == 8,
        b.len() == 8,
    ensures
        message_of(a, src_a, dst_a) == message_of(b, src_b, dst_b) <==> a == b && src_a == src_b
            && dst_a == dst_b,
{
    let x = message_of(a, src_a, dst_a);
    let y = message_of(b, src_b, dst_b);
    assert(x.subrange(0, 8) =~= a && y.subrange(0, 8) =~= b);
    assert(x.subrange(8, 12) =~= src_a.octets@ && y.subrange(8, 12) =~= src_b.octets@);
    assert(x.subrange(12, 16) =~= dst_a.octets@ && y.subrange(12, 16) =~= dst_b.octets@);
    if x == y {
        octets_tell_addresses_apart(src_a, src_b);
        octets_tell_addresses_apart(dst_a, dst_b);
    }
}

/// The block of a tag holds the nonce, the source and the destination in their
/// places, and the tag is the start of what it is encrypted to.
pub proof fn blocks_hold_their_fields(
    nonce: &[u8],
    src: Ipv4Addr,
    dst: Ipv4Addr,
    message: [u8; 16],
    block: &[u8; 16],
    cut: [u8; 10],
)
    requires
        nonce@.len() == 8,
        call_ensures(tag_message, (nonce, src, dst), message),
        call_ensures(truncate_block, (block,), cut),
    ensures
        message@.subrange(0, 8) == nonce@,
        message@.subrange(8, 12) == src.octets@,
        message@.subrange(12, 16) == dst.octets@,
        forall|i: int| 0 <= i < 10 ==> #[trigger] cut@[i] == block@[i],
{
    assert(message@.subrange(0, 8) =~= nonce@);
    assert(message@.subrange(8, 12) =~= src.octets@);
    assert(message@.subrange(12, 16) =~= dst.octets@);
}

/// A minted token read byte by byte.
proof fn minted_is_genuine(token: Seq<u8>, direction: Direction, src: Ipv4Addr, dst: Ipv4Addr)
    ensures
        is_minted(token, direction, src, dst) <==> is_genuine(token, direction, src, dst),
{
    keys_are_fixed(direction);
    let nonce = nonce_field(token);
    let tag = tag_of(direction.key_bytes(), nonce, src, dst);
    if token.len() == 20 {
        assert(message_of(nonce, src, dst) =~= token.subrange(2, 10) + src.octets@ + dst.octets@);
        assert(tag == wire_tag(token, direction, src, dst));
    }
    if is_minted(token, direction, src, dst) {
        assert(tag.len() == 10);
        assert(token.subrange(10, 20) =~= tag);
    }
    if is_genuine(token, direction, src, dst) {
        assert(token =~= token_of(direction, nonce, src, dst));
    }
}

/// A token is laid out as a zero, its direction, its nonce and its tag.
pub proof fn tokens_hold_their_fields(
    direction: Direction,
    nonce: &[u8],
    given: &[u8; 10],
    src: Ipv4Addr,
    dst: Ipv4Addr,
    laid_out: [u8; 20],
    assembled: [u8; 20],
)
    requires
        nonce@.len() == 8,
        call_ensures(assemble_with_tag, (direction, nonce, given), laid_out),
        call_ensures(assemble, (direction, nonce, src, dst), assembled),
    ensures
        laid_out@[0] == 0 && laid_out@[1] == wire_selector(direction),
        laid_out@.subrange(2, 10) == nonce@,
        laid_out@.subrange(10, 20) == given@,
        assembled@.subrange(2, 10) == nonce@,
        is_genuine(assembled@, direction, src, dst),
{
    assert(laid_out@.subrange(2, 10) =~= nonce@);
    assert(laid_out@.subrange(10, 20) =~= given@);
    minted_is_genuine(assembled@, direction, src, dst);
    assert(assembled@.subrange(2, 10) =~= nonce@);
}

/// A minted token authenticates its direction on its path, with a nonce that the
/// random generator gave.
pub proof fn minted_tokens_are_genuine(
    direction: Direction,
    src: Ipv4Addr,
    dst: Ipv4Addr,
    between: [u8; 20],
    peers: Peers,
    minted: [u8; 20],
)
    requires
        call_ensures(mint_between, (direction, src, dst), between),
        call_ensures(mint, (direction, peers), minted),
    ensures
        is_genuine(between@, direction, src, dst),
        is_drawn(between@.subrange(2, 10)),
        direction == Direction::ClientToServer ==> is_genuine(
            minted@,
            direction,
            peers.client,
            peers.server,
        ),
        direction == Direction::ServerToClient ==> is_genuine(
            minted@,
            direction,
            peers.server,
            peers.client,
        ),
        is_drawn(minted@.subrange(2, 10)),
{
    minted_is_genuine(between@, direction, src, dst);
    minted_is_genuine(minted@, direction, peers.client, peers.server);
    minted_is_genuine(minted@, direction, peers.server, peers.client);
}

/// Checking a token gives the one answer to its bytes.
#[verifier::spinoff_prover]
#[verifier::rlimit(40)]
pub proof fn verifying_answers_the_bytes(
    token: &[u8],
    direction: Direction,
    src: Ipv4Addr,
    dst: Ipv4Addr,
    result: Result<(), AuthError>,
)
    requires
        call_ensures(verify, (token, direction, src, dst), result),
    ensures
        result == answer(token@, direction, src, dst),
        result is Ok <==> is_genuine(token@, direction, src, dst),
{
    keys_are_fixed(direction);
    if token@.len() == 20 {
        assert(message_of(nonce_field(token@), src, dst) =~= token@.subrange(2, 10) + src.octets@
            + dst.octets@);
        let (high, low) = (token@[0] as int, token@[1] as int);
        assert((high * 256 + low) as u16 == high * 256 + low);
    }
}

/// The two halves of a check: the length and the selector, and the tag.
#[verifier::spinoff_prover]
#[verifier::rlimit(40)]
pub proof fn halves_of_a_check_answer_the_bytes(
    token: &[u8],
    direction: Direction,
    expected: &[u8; 10],
    header: Result<(), AuthError>,
    tagged: Result<(), AuthError>,
)
    requires
        call_ensures(check_header, (token, direction), header),
        call_ensures(check_tag, (token, expected), tagged),
    ensures
        header is Ok <==> token@.len() == 20 && token@[0] == 0 && token@[1] == wire_selector(
            direction,
        ),
        token@.len() != 20 <==> header == Err::<(), AuthError>(
            AuthError::BadLength(token@.len() as usize),
        ),
        header == Err::<(), AuthError>(AuthError::WrongDirection) <==> token@.len() == 20
            && token@[0] == 0 && token@[1] == 3 - wire_selector(direction),
        header matches Err(AuthError::UnknownSelector(selector)) ==> selector == token@[0] * 256
            + token@[1],
        header !is Ok ==> !(header->Err_0 is BadTag || header->Err_0 is NotQuic
            || header->Err_0 is NotIpv4),
        token@.len() == 20 ==> (tagged is Ok <==> forall|i: int|
            0 <= i < 10 ==> #[trigger] expected@[i] == token@[10 + i]),
        tagged is Err ==> tagged == Err::<(), AuthError>(AuthError::BadTag),
{
    if token@.len() == 20 {
        let (high, low) = (token@[0] as int, token@[1] as int);
        assert((high * 256 + low) as u16 == high * 256 + low);
        let field = tag_field(token@);
        if forall|i: int| 0 <= i < 10 ==> #[trigger] expected@[i] == token@[10 + i] {
            assert(field =~= expected@);
        }
        if field == expected@ {
            assert forall|i: int| 0 <= i < 10 implies #[trigger] expected@[i] == token@[10 + i] by {
                assert(field[i] == token@[10 + i]);
            }
        }
    }
}

/// Two byte strings are equal where they are equally long and agree everywhere.
pub proof fn equality_is_of_every_byte(a: &[u8], b: &[u8], equal: bool)
    requires
        call_ensures(constant_time_eq, (a, b), equal),
    ensures
        equal <==> a@.len() == b@.len() && forall|i: int|
            0 <= i < a@.len() ==> #[trigger] a@[i] == b@[i],
{
    if a@.len() == b@.len() && forall|i: int| 0 <= i < a@.len() ==> #[trigger] a@[i] == b@[i] {
        assert(a@ =~= b@);
    }
}

/// A token that was minted between two ends verifies on its own path; presented
/// for the other direction it never does.
#[verifier::spinoff_prover]
#[verifier::rlimit(40)]
pub proof fn minted_tokens_verify(
    direction: Direction,
    src: Ipv4Addr,
    dst: Ipv4Addr,
    minted: [u8; 20],
    presented: &[u8],
    result: Result<(), AuthError>,
    other: Direction,
    other_src: Ipv4Addr,
    other_dst: Ipv4Addr,
    other_result: Result<(), AuthError>,
)
    requires
        call_ensures(mint_between, (direction, src, dst), minted),
        presented@ == minted@,
        call_ensures(verify, (presented, direction, src, dst), result),
        call_ensures(verify, (presented, other, other_src, other_dst), other_result),
    ensures
        result is Ok,
        other != direction ==> other_result == Err::<(), AuthError>(AuthError::WrongDirection),
        other_result is Ok ==> aes128_block(
            wire_key(direction),
            minted@.subrange(2, 10) + src.octets@ + dst.octets@,
        ).subrange(0, 10) == aes128_block(
            wire_key(direction),
            minted@.subrange(2, 10) + other_src.octets@ + other_dst.octets@,
        ).subrange(0, 10),
{
    minted_is_genuine(minted@, direction, src, dst);
    verifying_answers_the_bytes(presented, direction, src, dst, result);
    verifying_answers_the_bytes(presented, other, other_src, other_dst, other_result);
}

/// A connection ID is found at its bounds, and only there.
pub proof fn located_cids_lie_at_their_bounds(datagram: &[u8], cid: Option<&[u8]>)
    requires
        call_ensures(destination_cid, (datagram,), cid),
    ensures
        cid is Some <==> cid_bounds(datagram@) is Some,
        cid matches Some(bytes) ==> {
            let (start, end) = cid_bounds(datagram@).unwrap();
            &&& bytes@.len() == end - start
            &&& forall|i: int| 0 <= i < bytes@.len() ==> #[trigger] bytes@[i] == datagram@[start + i]
        },
{
}

/// An authenticator gives the one answer to a datagram and its source.
#[verifier::spinoff_prover]
#[verifier::rlimit(40)]
pub proof fn authenticators_answer_the_bytes(
    inbound: Direction,
    local: Ipv4Addr,
    authenticator: Authenticator,
    datagram: &[u8],
    src: IpAddr,
    result: Result<(), AuthError>,
    admitted: bool,
    unchecked: bool,
)
    requires
        call_ensures(Authenticator::new, (inbound, local), authenticator),
        call_ensures(Authenticator::check, (&authenticator, datagram, src), result),
        call_ensures(admits, (&Some(authenticator), datagram, src), admitted),
        call_ensures(admits, (&None::<Authenticator>, datagram, src), unchecked),
    ensures
        result == datagram_answer(inbound, local, datagram@, src),
        admitted == result is Ok,
        unchecked,
{
    made_authenticators_answer_the_bytes(inbound, local, authenticator, datagram@, src);
}

/// What an authenticator says, told by the bytes.
proof fn made_authenticators_answer_the_bytes(
    inbound: Direction,
    local: Ipv4Addr,
    authenticator: Authenticator,
    datagram: Seq<u8>,
    src: IpAddr,
)
    requires
        authenticator.accepts() == inbound,
        authenticator.at() == local,
    ensures
        authenticator.datagram_verdict(datagram, src) == datagram_answer(
            inbound,
            local,
            datagram,
            src,
        ),
{
    if let IpAddr::V4(peer) = src {
        if let Some((start, end)) = cid_bounds(datagram) {
            let token = datagram.subrange(start, end);
            keys_are_fixed(inbound);
            if token.len() == 20 {
                assert(message_of(nonce_field(token), peer, local) =~= token.subrange(2, 10)
                    + peer.octets@ + local.octets@);
                let (high, low) = (token[0] as int, token[1] as int);
                assert((high * 256 + low) as u16 == high * 256 + low);
            }
        }
    }
}

/// Whether a token is one that is bound to no source: of full length, for
/// `direction`, with a drawn nonce, and with the tag of the path from `0.0.0.0` but
/// for its first byte, which is inverted.
pub open spec fn is_bound_to_nobody(token: Seq<u8>, direction: Direction, dst: Ipv4Addr) -> bool {
    let tag = wire_tag(token, direction, Ipv4Addr { octets: [0, 0, 0, 0] }, dst);
    &&& token.len() == 20
    &&& token[0] == 0
    &&& token[1] == wire_selector(direction)
    &&& token[10] == tag[0] ^ 0xff
    &&& token[10] != tag[0]
    &&& token.subrange(11, 20) == tag.subrange(1, 10)
    &&& is_drawn(token.subrange(2, 10))
}

/// An unbound token told by its bytes.
proof fn unbound_is_bound_to_nobody(token: Seq<u8>, direction: Direction, dst: Ipv4Addr)
    requires
        crate::auth::is_unbound(token, direction, dst),
        is_drawn(nonce_field(token)),
    ensures
        is_bound_to_nobody(token, direction, dst),
{
    let minted = crate::auth::spoiled(token);
    let nowhere = Ipv4Addr { octets: [0, 0, 0, 0] };
    minted_is_genuine(minted, direction, nowhere, dst);
    assert(minted.subrange(2, 10) =~= token.subrange(2, 10));
    let tag = wire_tag(token, direction, nowhere, dst);
    assert(minted.subrange(10, 20)[0] == minted[10]);
    let byte = token[10];
    assert((byte ^ 0xff) ^ 0xff == byte && (byte ^ 0xff) != byte) by (bit_vector);
    assert(minted.subrange(10, 20).subrange(1, 10) =~= token.subrange(11, 20));
}

/// A token that was minted for nobody, and how a token is spoilt: in one byte.
pub proof fn unbound_tokens_are_bound_to_nobody(
    direction: Direction,
    dst: Ipv4Addr,
    unbound: [u8; 20],
    token: &[u8; 20],
    spoilt: [u8; 20],
)
    requires
        call_ensures(mint_unbound, (direction, dst), unbound),
        call_ensures(spoil, (token,), spoilt),
    ensures
        is_bound_to_nobody(unbound@, direction, dst),
        spoilt@[10] != token@[10],
        forall|i: int| 0 <= i < 20 && i != 10 ==> #[trigger] spoilt@[i] == token@[i],
{
    unbound_is_bound_to_nobody(unbound@, direction, dst);
    let byte = token@[10];
    assert((byte ^ 0xff) != byte) by (bit_vector);
}

/// A generator issues connection IDs that authenticate packets from the IPv4 peer
/// they are for to the endpoint it was made for, and IDs that authenticate nobody
/// to any other; each carries a nonce that the random generator gave. It stays as
/// it is, so that no ID depends on an earlier one.
#[verifier::spinoff_prover]
#[verifier::rlimit(40)]
pub proof fn issued_cids_are_genuine(
    direction: Direction,
    local: Ipv4Addr,
    generator: AuthCidGenerator,
    again: AuthCidGenerator,
    issuer: &mut AuthCidGenerator,
    remote: SocketAddr,
    local_ip: Option<IpAddr>,
    cid: quinn::ConnectionId,
    blind_issuer: &mut AuthCidGenerator,
    blind: quinn::ConnectionId,
    len: usize,
    lifetime: Option<std::time::Duration>,
)
    requires
        call_ensures(AuthCidGenerator::new, (direction, local), generator),
        call_ensures(AuthCidGenerator::new, (direction, local), again),
        *old(issuer) == generator,
        call_ensures(AuthCidGenerator::generate_cid_for, (issuer, remote, local_ip), cid),
        *old(blind_issuer) == generator,
        call_ensures(AuthCidGenerator::generate_cid, (blind_issuer,), blind),
        call_ensures(AuthCidGenerator::cid_len, (&generator,), len),
        call_ensures(AuthCidGenerator::cid_lifetime, (&generator,), lifetime),
    ensures
        again == generator,
        *final(issuer) == generator,
        *final(blind_issuer) == generator,
        remote.ip matches IpAddr::V4(peer) ==> is_genuine(
            connection_id_bytes(cid),
            direction,
            peer,
            local,
        ),
        remote.ip is V6 ==> is_bound_to_nobody(connection_id_bytes(cid), direction, local),
        is_drawn(connection_id_bytes(cid).subrange(2, 10)),
        is_bound_to_nobody(connection_id_bytes(blind), direction, local),
        len == 20 && len == connection_id_bytes(cid).len() && len == connection_id_bytes(
            blind,
        ).len(),
        lifetime is None,
{
    match remote.ip {
        IpAddr::V4(peer) => {
            minted_is_genuine(connection_id_bytes(cid), direction, peer, local);
        },
        IpAddr::V6(_) => {
            unbound_is_bound_to_nobody(connection_id_bytes(cid), direction, local);
        },
    }
    unbound_is_bound_to_nobody(connection_id_bytes(blind), direction, local);
}

/// The first connection ID that a server sees of a client authenticates packets
/// from that client to that server, with a nonce that the random generator gave.
pub proof fn initial_cids_are_genuine(peers: Peers, cid: quinn::ConnectionId)
    requires
        call_ensures(initial_dst_cid, (peers,), cid),
    ensures
        is_genuine(
            connection_id_bytes(cid),
            Direction::ClientToServer,
            peers.client,
            peers.server,
        ),
        is_drawn(connection_id_bytes(cid).subrange(2, 10)),
{
    minted_is_genuine(
        connection_id_bytes(cid),
        Direction::ClientToServer,
        peers.client,
        peers.server,
    );
}

/// The two ends of a connection issue IDs for the packets that reach them: the
/// server's generator is the one for packets to it, and the client's the one for
/// packets to the client.
pub proof fn both_ends_issue_for_what_reaches_them(
    local: Ipv4Addr,
    server: AuthCidGenerator,
    of_server: AuthCidGenerator,
    peers: Peers,
    client: AuthCidGenerator,
    of_client: AuthCidGenerator,
)
    requires
        call_ensures(server_cid_generator, (local,), server),
        call_ensures(AuthCidGenerator::new, (Direction::ClientToServer, local), of_server),
        call_ensures(client_cid_generator, (peers,), client),
        call_ensures(AuthCidGenerator::new, (Direction::ServerToClient, peers.client), of_client),
    ensures
        server == of_server,
        client == of_client,
{
}

/// A server listens at any IPv4 address but `0.0.0.0`, and checks what reaches it
/// by the answer to packets from clients unless that is turned off.
pub proof fn servers_are_planned_as_asked(
    listen: IpAddr,
    off: bool,
    plan: Result<ServerPlan, ListenError>,
    datagram: &[u8],
    src: IpAddr,
    result: Result<(), AuthError>,
)
    requires
        call_ensures(plan_server, (listen, off), plan),
        plan matches Ok(server) && server.authenticator matches Some(authenticator)
            ==> call_ensures(Authenticator::check, (&authenticator, datagram, src), result),
    ensures
        listen is V6 ==> plan == Err::<ServerPlan, ListenError>(ListenError::NotIpv4(listen)),
        listen matches IpAddr::V4(ip) ==> (plan is Err <==> ip.octets@ == seq![0u8, 0, 0, 0]),
        listen is V4 && plan is Err ==> plan->Err_0 == ListenError::Wildcard,
        plan matches Ok(server) ==> {
            &&& listen == IpAddr::V4(server.ip)
            &&& server.authenticator is None <==> off
            &&& !off ==> result == datagram_answer(
                Direction::ClientToServer,
                server.ip,
                datagram@,
                src,
            )
        },
{
    if let IpAddr::V4(ip) = listen {
        let nowhere = Ipv4Addr { octets: [0, 0, 0, 0] };
        assert(nowhere.octets@ =~= seq![0u8, 0, 0, 0]);
        if ip.octets@ == seq![0u8, 0, 0, 0] {
            octets_tell_addresses_apart(ip, nowhere);
        }
    }
    if let Ok(server) = plan {
        if let Some(authenticator) = server.authenticator {
            made_authenticators_answer_the_bytes(
                Direction::ClientToServer,
                server.ip,
                authenticator,
                datagram@,
                src,
            );
        }
    }
}

/// A client pings an IPv4 server with at most 65536 bytes, and checks what reaches
/// it by the answer to packets from servers.
pub proof fn clients_are_planned_as_asked(
    size: usize,
    server: IpAddr,
    local: Ipv4Addr,
    plan: Result<ClientPlan, ClientError>,
    datagram: &[u8],
    src: IpAddr,
    result: Result<(), AuthError>,
)
    requires
        call_ensures(plan_client, (size, server, local), plan),
        plan matches Ok(client) ==> call_ensures(
            Authenticator::check,
            (&client.authenticator, datagram, src),
            result,
        ),
    ensures
        plan is Ok <==> size <= 65536 && server is V4,
        size > 65536 ==> plan == Err::<ClientPlan, ClientError>(ClientError::PayloadTooLarge(size)),
        size <= 65536 && server is V6 ==> plan == Err::<ClientPlan, ClientError>(
            ClientError::NotIpv4(server),
        ),
        plan matches Ok(client) ==> {
            &&& client.peers.client == local
            &&& server == IpAddr::V4(client.peers.server)
            &&& result == datagram_answer(Direction::ServerToClient, local, datagram@, src)
        },
{
    if let Ok(client) = plan {
        made_authenticators_answer_the_bytes(
            Direction::ServerToClient,
            local,
            client.authenticator,
            datagram@,
            src,
        );
    }
}

/// Addresses hold the octets they are written with, and only `0.0.0.0` is the
/// wildcard.
pub proof fn addresses_hold_their_octets(
    a: u8,
    b: u8,
    c: u8,
    d: u8,
    address: Ipv4Addr,
    wildcard: Ipv4Addr,
    unspecified: bool,
)
    requires
        call_ensures(Ipv4Addr::new, (a, b, c, d), address),
        call_ensures(Ipv4Addr::unspecified, (), wildcard),
        call_ensures(Ipv4Addr::is_unspecified, (&address,), unspecified),
    ensures
        address.octets@ == seq![a, b, c, d],
        wildcard.octets@ == seq![0u8, 0, 0, 0],
        unspecified <==> a == 0 && b == 0 && c == 0 && d == 0,
{
    assert(wildcard.octets@ =~= seq![0u8, 0, 0, 0]);
    assert(address@ == address.octets@);
    if a == 0 && b == 0 && c == 0 && d == 0 {
        assert(address.octets@ =~= wildcard.octets@);
        octets_tell_addresses_apart(address, wildcard);
    }
    if unspecified {
        assert(address.octets@[0] == 0 && address.octets@[1] == 0 && address.octets@[2] == 0
            && address.octets@[3] == 0);
    }
}

} // verus!
