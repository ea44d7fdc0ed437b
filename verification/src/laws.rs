//! What holds of tokens, datagrams and counters across calls.

use vstd::endian::Endian;
use vstd::prelude::*;

use crate::auth::{
    destination_cid_of, header_verdict, is_minted, is_unbound, nonce_field, selector_field, spoiled,
    tag_field, tag_of, token_of, verdict, AuthCidGenerator, AuthError, Authenticator, Direction,
    Peers, F_AB, F_BA, TAG_START, TOKEN_LEN,
};
use crate::blaster::{
    dcid_from, initial_bytes, BlastStats, Sender, BATCH, DCID_OFFSET, MAX_INITIAL_DATAGRAM,
    MIN_INITIAL_DATAGRAM, SEED,
};
use crate::bytes::{be16, bytes64, bytes64_injective, overwrite, wrapped};
use crate::net::{IpAddr, Ipv4Addr, SocketAddr};
use crate::ping::{payload_byte, PingRun};
use crate::rng::{
    mix_is_injective, modulus, state_after, state_after_adds_up, triples_do_not_repeat, word,
    words_do_not_repeat,
};
use crate::socket::{
    cut_from, is_admitted, Delivery, PacketCounts, ReceiveAction, ReceivePass,
};

verus! {

/// A selector read back from the wire stands for the direction that wrote it,
/// and for no other.
pub proof fn selectors_round_trip(direction: Direction, selector: u16)
    ensures
        Direction::selected_by(direction.selector_value()) == Some(direction),
        Direction::selected_by(selector) == Some(direction) <==> selector
            == direction.selector_value(),
{
}

/// The two directions use different keys and swap each other's path.
pub proof fn directions_are_kept_apart(peers: Peers)
    ensures
        Direction::ClientToServer.key_bytes() != Direction::ServerToClient.key_bytes(),
        Direction::ServerToClient.ends(peers) == (
            Direction::ClientToServer.ends(peers).1,
            Direction::ClientToServer.ends(peers).0,
        ),
{
    assert(F_AB@[0] != F_BA@[0]);
}

/// A minted token read field by field.
proof fn minted_fields(token: Seq<u8>, direction: Direction, src: Ipv4Addr, dst: Ipv4Addr)
    requires
        is_minted(token, direction, src, dst),
    ensures
        selector_field(token) == direction.selector_value(),
        header_verdict(token, direction) == Ok::<(), AuthError>(()),
        tag_field(token) == tag_of(direction.key_bytes(), nonce_field(token), src, dst),
{
    let tag = tag_of(direction.key_bytes(), nonce_field(token), src, dst);
    assert(token == be16(direction.selector_value()) + nonce_field(token) + tag);
    assert(tag.len() == 10);
    assert(token[0] == be16(direction.selector_value())[0]);
    assert(token[1] == be16(direction.selector_value())[1]);
    assert(tag_field(token) =~= tag);
}

/// A token verifies exactly where it could have been minted: a freshly minted
/// token always verifies on its own path and direction, and nothing else does.
pub proof fn verifying_is_minted(token: Seq<u8>, direction: Direction, src: Ipv4Addr, dst: Ipv4Addr)
    ensures
        verdict(token, direction, src, dst) == Ok::<(), AuthError>(()) <==> is_minted(
            token,
            direction,
            src,
            dst,
        ),
{
    if is_minted(token, direction, src, dst) {
        minted_fields(token, direction, src, dst);
    }
    if verdict(token, direction, src, dst) == Ok::<(), AuthError>(()) {
        let high = token[0] as int;
        let low = token[1] as int;
        assert(selector_field(token) == direction.selector_value());
        assert((high * 256 + low) as u16 == high * 256 + low);
        assert(token.take(2) =~= be16(direction.selector_value()));
        assert(token =~= token.take(2) + nonce_field(token) + tag_field(token));
    }
}

/// A token never verifies for the direction it was not minted for, whatever the
/// path.
pub proof fn reverse_direction_is_refused(
    token: Seq<u8>,
    direction: Direction,
    src: Ipv4Addr,
    dst: Ipv4Addr,
    other: Direction,
    other_src: Ipv4Addr,
    other_dst: Ipv4Addr,
)
    requires
        is_minted(token, direction, src, dst),
        other != direction,
    ensures
        verdict(token, other, other_src, other_dst) == Err::<(), AuthError>(
            AuthError::WrongDirection,
        ),
{
    minted_fields(token, direction, src, dst);
}

/// A token presented on another path fails on its tag, unless the tags of the
/// two paths collide for its nonce.
pub proof fn tokens_bind_the_address_pair(
    token: Seq<u8>,
    direction: Direction,
    src: Ipv4Addr,
    dst: Ipv4Addr,
    other_src: Ipv4Addr,
    other_dst: Ipv4Addr,
)
    requires
        is_minted(token, direction, src, dst),
    ensures
        verdict(token, direction, other_src, other_dst) == (if tag_of(
            direction.key_bytes(),
            nonce_field(token),
            src,
            dst,
        ) == tag_of(direction.key_bytes(), nonce_field(token), other_src, other_dst) {
            Ok::<(), AuthError>(())
        } else {
            Err(AuthError::BadTag)
        }),
{
    minted_fields(token, direction, src, dst);
}

/// A change to any one byte of a token is detected: in the selector and in the
/// tag always, and in the nonce unless the old and the new nonce have the same
/// tag.
pub proof fn corruption_is_detected(
    token: Seq<u8>,
    direction: Direction,
    src: Ipv4Addr,
    dst: Ipv4Addr,
    index: int,
    value: u8,
)
    requires
        is_minted(token, direction, src, dst),
        0 <= index < TOKEN_LEN,
        value != token[index],
    ensures
        ({
            let corrupted = token.update(index, value);
            let key = direction.key_bytes();
            if index < 2 {
                verdict(corrupted, direction, src, dst) is Err
            } else if index >= TAG_START {
                verdict(corrupted, direction, src, dst) == Err::<(), AuthError>(AuthError::BadTag)
            } else {
                verdict(corrupted, direction, src, dst) == (if tag_of(
                    key,
                    nonce_field(corrupted),
                    src,
                    dst,
                ) == tag_of(key, nonce_field(token), src, dst) {
                    Ok::<(), AuthError>(())
                } else {
                    Err(AuthError::BadTag)
                })
            }
        }),
{
    let corrupted = token.update(index, value);
    minted_fields(token, direction, src, dst);
    if index < 2 {
        let selector = direction.selector_value();
        assert(token[0] * 256 + token[1] == selector);
        assert(corrupted[0] * 256 + corrupted[1] != selector);
        assert(selector_field(corrupted) != selector);
        selectors_round_trip(direction, selector_field(corrupted));
    } else if index >= TAG_START {
        assert(nonce_field(corrupted) =~= nonce_field(token));
        assert(tag_field(corrupted)[index - TAG_START] != tag_field(token)[index - TAG_START]);
    } else {
        assert(tag_field(corrupted) =~= tag_field(token));
    }
}

/// The connection ID of a long header is found behind its length, whatever
/// surrounds it.
pub proof fn long_header_cid_is_located(
    flags: u8,
    version: Seq<u8>,
    cid: Seq<u8>,
    rest: Seq<u8>,
)
    requires
        flags >= 0x80,
        version.len() == 4,
        cid.len() <= TOKEN_LEN,
    ensures
        destination_cid_of(seq![flags] + version + seq![cid.len() as u8] + cid + rest) == Some(cid),
{
    let datagram = seq![flags] + version + seq![cid.len() as u8] + cid + rest;
    assert(datagram[5] == cid.len() as u8);
    assert(datagram.subrange(6, 6 + cid.len() as int) =~= cid);
}

/// The connection ID of a short header is the token right behind the flags,
/// whatever follows it.
pub proof fn short_header_cid_is_located(flags: u8, cid: Seq<u8>, rest: Seq<u8>)
    requires
        flags < 0x80,
        cid.len() == TOKEN_LEN,
    ensures
        destination_cid_of(seq![flags] + cid + rest) == Some(cid),
{
    let datagram = seq![flags] + cid + rest;
    assert(datagram.subrange(1, 21) =~= cid);
}

/// Every connection ID that can be located has at most `TOKEN_LEN` bytes, lies
/// in the datagram, and stays where it is when bytes are appended.
pub proof fn located_cids_are_stable(datagram: Seq<u8>, rest: Seq<u8>)
    requires
        destination_cid_of(datagram) is Some,
    ensures
        destination_cid_of(datagram).unwrap().len() <= TOKEN_LEN,
        destination_cid_of(datagram + rest) == destination_cid_of(datagram),
{
    if datagram[0] >= 0x80 {
        assert((datagram + rest).subrange(6, 6 + datagram[5] as int) =~= datagram.subrange(
            6,
            6 + datagram[5] as int,
        ));
    } else {
        assert((datagram + rest).subrange(1, 21) =~= datagram.subrange(1, 21));
    }
}

/// A datagram is accepted exactly if it comes from an IPv4 address and the
/// connection ID found in it was minted for that address, the authenticator's
/// own and its direction.
pub proof fn accepted_datagrams_carry_minted_tokens(
    authenticator: Authenticator,
    datagram: Seq<u8>,
    src: IpAddr,
)
    ensures
        authenticator.datagram_verdict(datagram, src) == Ok::<(), AuthError>(()) <==> (src matches
            IpAddr::V4(peer) && destination_cid_of(datagram) matches Some(cid) && is_minted(
            cid,
            authenticator.accepts(),
            peer,
            authenticator.at(),
        )),
{
    if let IpAddr::V4(peer) = src {
        if let Some(cid) = destination_cid_of(datagram) {
            verifying_is_minted(cid, authenticator.accepts(), peer, authenticator.at());
        }
    }
}

/// A packet that carries a connection ID issued to an IPv4 peer is accepted when
/// that peer sends it back to the endpoint that issued it. From any other IPv4
/// address it is accepted only where the tags of the two paths collide.
pub proof fn issued_cids_are_accepted_from_their_peer(
    generator: AuthCidGenerator,
    authenticator: Authenticator,
    cid: Seq<u8>,
    peer: Ipv4Addr,
    datagram: Seq<u8>,
    sender: Ipv4Addr,
)
    requires
        authenticator.accepts() == generator.issues(),
        authenticator.at() == generator.at(),
        is_minted(cid, generator.issues(), peer, generator.at()),
        destination_cid_of(datagram) == Some(cid),
    ensures
        authenticator.datagram_verdict(datagram, IpAddr::V4(peer)) == Ok::<(), AuthError>(()),
        authenticator.datagram_verdict(datagram, IpAddr::V4(sender)) == (if tag_of(
            generator.issues().key_bytes(),
            nonce_field(cid),
            peer,
            generator.at(),
        ) == tag_of(generator.issues().key_bytes(), nonce_field(cid), sender, generator.at()) {
            Ok::<(), AuthError>(())
        } else {
            Err(AuthError::BadTag)
        }),
{
    tokens_bind_the_address_pair(
        cid,
        generator.issues(),
        peer,
        generator.at(),
        peer,
        generator.at(),
    );
    tokens_bind_the_address_pair(
        cid,
        generator.issues(),
        peer,
        generator.at(),
        sender,
        generator.at(),
    );
}

/// A token that is bound to no source fails on its tag from the wildcard, and
/// from every other address whose tag for its nonce is not by chance the one it
/// carries. Towards the other direction it is always refused.
pub proof fn unbound_tokens_are_refused(
    token: Seq<u8>,
    direction: Direction,
    dst: Ipv4Addr,
    src: Ipv4Addr,
)
    requires
        is_unbound(token, direction, dst),
    ensures
        verdict(token, direction, Ipv4Addr::wildcard(), dst) == Err::<(), AuthError>(
            AuthError::BadTag,
        ),
        verdict(token, direction, src, dst) == (if tag_field(token) == tag_of(
            direction.key_bytes(),
            nonce_field(token),
            src,
            dst,
        ) {
            Ok::<(), AuthError>(())
        } else {
            Err(AuthError::BadTag)
        }),
        forall|other: Direction, to: Ipv4Addr|
            other != direction ==> #[trigger] verdict(token, other, src, to) == Err::<
                (),
                AuthError,
            >(AuthError::WrongDirection),
{
    let minted = spoiled(token);
    let byte = token[TAG_START as int];
    assert(byte ^ 0xff != byte) by (bit_vector);
    assert(token =~= minted.update(TAG_START as int, byte));
    corruption_is_detected(
        minted,
        direction,
        Ipv4Addr::wildcard(),
        dst,
        TAG_START as int,
        byte,
    );
    minted_fields(minted, direction, Ipv4Addr::wildcard(), dst);
    assert(selector_field(token) == selector_field(minted));
}

/// A packet that carries a connection ID issued without an IPv4 peer is refused
/// by the endpoint that issued it, whatever address it comes from, unless the
/// tag of that address for its nonce is by chance the one it carries.
pub proof fn cids_issued_without_a_peer_are_refused(
    generator: AuthCidGenerator,
    authenticator: Authenticator,
    cid: Seq<u8>,
    datagram: Seq<u8>,
    src: IpAddr,
)
    requires
        authenticator.accepts() == generator.issues(),
        authenticator.at() == generator.at(),
        is_unbound(cid, generator.issues(), generator.at()),
        destination_cid_of(datagram) == Some(cid),
        src matches IpAddr::V4(sender) ==> tag_field(cid) != tag_of(
            generator.issues().key_bytes(),
            nonce_field(cid),
            sender,
            generator.at(),
        ) || sender == Ipv4Addr::wildcard(),
    ensures
        authenticator.datagram_verdict(datagram, src) == Err::<(), AuthError>(
            match src {
                IpAddr::V4(_) => AuthError::BadTag,
                IpAddr::V6(_) => AuthError::NotIpv4(src),
            },
        ),
{
    if let IpAddr::V4(sender) = src {
        unbound_tokens_are_refused(cid, generator.issues(), generator.at(), sender);
    }
}

/// A connection between two ends that agree on their addresses is never
/// rejected: the server accepts the first packet of the client and every packet
/// with a connection ID that the server issued to it, and the client accepts
/// every packet with a connection ID that the client issued to the server. The
/// same packets sent back at the end that made them are refused.
pub proof fn agreeing_ends_accept_each_other(
    peers: Peers,
    server: Authenticator,
    client: Authenticator,
    cid: Seq<u8>,
    datagram: Seq<u8>,
)
    requires
        server.accepts() == Direction::ClientToServer,
        server.at() == peers.server,
        client.accepts() == Direction::ServerToClient,
        client.at() == peers.client,
        destination_cid_of(datagram) == Some(cid),
    ensures
        is_minted(cid, Direction::ClientToServer, peers.client, peers.server)
            ==> server.datagram_verdict(datagram, IpAddr::V4(peers.client)) == Ok::<(), AuthError>(
            (),
        ),
        is_minted(cid, Direction::ServerToClient, peers.server, peers.client)
            ==> client.datagram_verdict(datagram, IpAddr::V4(peers.server)) == Ok::<(), AuthError>(
            (),
        ),
        is_minted(cid, Direction::ClientToServer, peers.client, peers.server)
            ==> client.datagram_verdict(datagram, IpAddr::V4(peers.server)) == Err::<
            (),
            AuthError,
        >(AuthError::WrongDirection),
        is_minted(cid, Direction::ServerToClient, peers.server, peers.client)
            ==> server.datagram_verdict(datagram, IpAddr::V4(peers.client)) == Err::<
            (),
            AuthError,
        >(AuthError::WrongDirection),
{
    if is_minted(cid, Direction::ClientToServer, peers.client, peers.server) {
        minted_fields(cid, Direction::ClientToServer, peers.client, peers.server);
    }
    if is_minted(cid, Direction::ServerToClient, peers.server, peers.client) {
        minted_fields(cid, Direction::ServerToClient, peers.server, peers.client);
    }
}

/// The same nonce on the same path gives the same token, and two nonces never
/// do.
pub proof fn tokens_determine_their_nonce(
    direction: Direction,
    a: Seq<u8>,
    b: Seq<u8>,
    src: Ipv4Addr,
    dst: Ipv4Addr,
)
    requires
        a.len() == 8,
        b.len() == 8,
    ensures
        token_of(direction, a, src, dst) == token_of(direction, b, src, dst) <==> a == b,
{
    let s = token_of(direction, a, src, dst);
    let t = token_of(direction, b, src, dst);
    assert(s.subrange(2, 10) =~= a);
    assert(t.subrange(2, 10) =~= b);
}

/// An Initial of any size that can be built has exactly that size, and its
/// connection ID lies where a packet authenticator looks for it.
pub proof fn templates_are_parseable(size: int)
    requires
        MIN_INITIAL_DATAGRAM <= size <= MAX_INITIAL_DATAGRAM,
    ensures
        initial_bytes(size).len() == size,
        destination_cid_of(initial_bytes(size)) == Some(
            initial_bytes(size).subrange(DCID_OFFSET as int, DCID_OFFSET + TOKEN_LEN),
        ),
{
    let bytes = initial_bytes(size);
    assert(bytes[0] == 0xc3);
    assert(bytes[5] == TOKEN_LEN);
}

/// Rewriting the connection ID of an Initial rewrites only that, and is what a
/// packet authenticator then reads.
pub proof fn redrawn_cids_are_what_the_filter_reads(size: int, dcid: Seq<u8>)
    requires
        MIN_INITIAL_DATAGRAM <= size <= MAX_INITIAL_DATAGRAM,
        dcid.len() == TOKEN_LEN,
    ensures
        ({
            let rewritten = overwrite(initial_bytes(size), DCID_OFFSET as int, dcid);
            &&& rewritten.len() == size
            &&& rewritten.take(DCID_OFFSET as int) == initial_bytes(size).take(DCID_OFFSET as int)
            &&& rewritten.skip(DCID_OFFSET + TOKEN_LEN) == initial_bytes(size).skip(
                DCID_OFFSET + TOKEN_LEN,
            )
            &&& destination_cid_of(rewritten) == Some(dcid)
        }),
{
    templates_are_parseable(size);
    let bytes = initial_bytes(size);
    let rewritten = overwrite(bytes, DCID_OFFSET as int, dcid);
    assert(bytes[0] == 0xc3);
    assert(bytes[5] == TOKEN_LEN);
    assert(rewritten[0] == bytes[0]);
    assert(rewritten[5] == bytes[5]);
    assert(rewritten.subrange(6, 26) =~= dcid);
    assert(rewritten.take(6) =~= bytes.take(6));
    assert(rewritten.skip(26) =~= bytes.skip(26));
}

/// The connection IDs that a sender draws do not repeat until its generator has
/// run through all its states: draws `i` and `j` differ.
pub proof fn drawn_cids_do_not_repeat(seed: u64, i: nat, j: nat, order: Endian)
    requires
        i < j,
        j - i < modulus(),
    ensures
        dcid_from(state_after(seed, 3 * i), order) != dcid_from(state_after(seed, 3 * j), order),
{
    let a = state_after(seed, 3 * i);
    let b = state_after(seed, 3 * j);
    triples_do_not_repeat(seed, i, j);
    if dcid_from(a, order) == dcid_from(b, order) {
        assert(dcid_from(a, order).take(8) =~= bytes64(word(a, 0), order));
        assert(dcid_from(b, order).take(8) =~= bytes64(word(b, 0), order));
        bytes64_injective(word(a, 0), word(b, 0), order);
        mix_is_injective(state_after(a, 1), state_after(b, 1));
        state_after_adds_up(seed, 3 * i, 1);
        state_after_adds_up(seed, 3 * j, 1);
    }
}

/// No two senders get the same seed.
pub proof fn sender_seeds_differ(senders: usize, i: int, j: int)
    requires
        0 <= i < j < senders,
    ensures
        word(SEED, i as nat) != word(SEED, j as nat),
{
    words_do_not_repeat(SEED, i as nat, j as nat);
}

/// A run of one sender, from its start on.
pub struct SenderRun {
    pub start: Sender,
    /// The sender with datagram `i` ready to be sent.
    pub ready: Seq<Sender>,
    /// The sender with the outcome of datagram `i` known.
    pub reported: Seq<Sender>,
}

impl SenderRun {
    /// Whether datagram `i` follows from what came before it: a batch is begun
    /// wherever none is in progress, and the outcome is reported then.
    pub open spec fn step(self, i: int) -> bool {
        let before = if i == 0 {
            self.start
        } else {
            self.reported[i - 1]
        };
        &&& if before.in_batch == 0 {
            self.ready[i].is_begun_from(before)
        } else {
            self.ready[i] == before
        }
        &&& self.reported[i].is_past(self.ready[i])
    }

    /// Whether this is a run of a sender of `size`-byte datagrams at `pps` packets
    /// per second with connection IDs drawn from `seed`.
    pub open spec fn is_run(self, size: usize, pps: u64, seed: u64) -> bool {
        &&& self.start.is_fresh(size, pps, seed)
        &&& self.ready.len() == self.reported.len()
        &&& forall|i: int| 0 <= i < self.ready.len() ==> #[trigger] self.step(i)
    }
}

/// Datagram `i` of a run is the Initial of the requested size with the connection
/// ID made of words `3 * i` to `3 * i + 2` of the generator. Once its outcome is
/// known `i + 1` are, and the batch in progress holds those of them that fill no
/// whole batch of `BATCH`.
#[verifier::spinoff_prover]
#[verifier::rlimit(40)]
pub proof fn runs_send_every_drawn_cid(run: SenderRun, size: usize, pps: u64, seed: u64, i: int)
    requires
        MIN_INITIAL_DATAGRAM <= size <= MAX_INITIAL_DATAGRAM,
        run.is_run(size, pps, seed),
        0 <= i < run.ready.len(),
    ensures
        run.ready[i].template.bytes@ == overwrite(
            initial_bytes(size as int),
            DCID_OFFSET as int,
            dcid_from(state_after(seed, (3 * i) as nat), vstd::endian::endianness()),
        ),
        run.ready[i].template.dcid_offset == DCID_OFFSET,
        run.ready[i].rng.0 == state_after(seed, (3 * i + 3) as nat),
        run.ready[i].attempts() == i,
        run.ready[i].in_batch == i % BATCH as int,
        run.ready[i].pacer.pps == pps,
        run.reported[i].attempts() == i + 1,
        run.reported[i].in_batch == (i + 1) % BATCH as int,
        run.reported[i].pacer.pps == pps,
    decreases i,
{
    templates_are_parseable(size as int);
    let bytes = initial_bytes(size as int);
    ready_after_every_outcome(run, bytes, pps, seed, i);
    outcome_advances(run.ready[i], run.reported[i], i);
    assert(run.step(i));
}

/// Whether `sender` has datagram `i` ready, in a run that began with `bytes`.
spec fn is_ready(sender: Sender, bytes: Seq<u8>, pps: u64, seed: u64, i: int) -> bool {
    &&& sender.template.bytes@ == overwrite(
        bytes,
        DCID_OFFSET as int,
        dcid_from(state_after(seed, (3 * i) as nat), vstd::endian::endianness()),
    )
    &&& sender.template.dcid_offset == DCID_OFFSET
    &&& sender.rng.0 == state_after(seed, (3 * i + 3) as nat)
    &&& sender.attempts() == i
    &&& sender.in_batch == i % BATCH as int
    &&& sender.pacer.pps == pps
}

/// A drawn connection ID has the length of a token.
proof fn drawn_cids_are_full_length(state: u64, order: Endian)
    ensures
        dcid_from(state, order).len() == TOKEN_LEN,
{
}

/// A run of bytes that is written over another of its length replaces it.
proof fn last_write_counts(bytes: Seq<u8>, at: int, first: Seq<u8>, second: Seq<u8>)
    requires
        0 <= at,
        at + first.len() <= bytes.len(),
        first.len() == second.len(),
    ensures
        overwrite(overwrite(bytes, at, first), at, second) == overwrite(bytes, at, second),
{
    assert(overwrite(overwrite(bytes, at, first), at, second) =~= overwrite(bytes, at, second));
}

/// Redrawing the connection ID of datagram `i` makes datagram `i + 1` ready.
proof fn redraw_advances(before: Sender, after: Sender, bytes: Seq<u8>, seed: u64, i: int)
    requires
        0 <= i,
        DCID_OFFSET + TOKEN_LEN <= bytes.len(),
        before.template.bytes@ == overwrite(
            bytes,
            DCID_OFFSET as int,
            dcid_from(state_after(seed, (3 * i) as nat), vstd::endian::endianness()),
        ),
        before.template.dcid_offset == DCID_OFFSET,
        before.rng.0 == state_after(seed, (3 * i + 3) as nat),
        after.is_redrawn_from(before),
    ensures
        after.template.bytes@ == overwrite(
            bytes,
            DCID_OFFSET as int,
            dcid_from(state_after(seed, (3 * (i + 1)) as nat), vstd::endian::endianness()),
        ),
        after.template.dcid_offset == DCID_OFFSET,
        after.rng.0 == state_after(seed, (3 * (i + 1) + 3) as nat),
{
    let order = vstd::endian::endianness();
    let first = state_after(seed, (3 * i) as nat);
    let second = state_after(seed, (3 * (i + 1)) as nat);
    assert((3 * (i + 1)) as nat == (3 * i + 3) as nat);
    drawn_cids_are_full_length(first, order);
    drawn_cids_are_full_length(second, order);
    last_write_counts(bytes, DCID_OFFSET as int, dcid_from(first, order), dcid_from(second, order));
    state_after_adds_up(seed, (3 * (i + 1)) as nat, 3);
}

/// A batch has `BATCH` outcomes: one more is known after each.
proof fn outcome_advances(before: Sender, after: Sender, i: int)
    requires
        0 <= i,
        before.attempts() == i,
        before.in_batch == i % BATCH as int,
        after.attempts() == before.attempts() + 1,
        before.in_batch + 1 < BATCH ==> after.pacer == before.pacer,
        before.in_batch + 1 >= BATCH ==> after.in_batch == 0,
    ensures
        after.attempts() == i + 1,
        after.in_batch == (i + 1) % BATCH as int,
{
}

/// Every datagram of a run is ready in its turn.
proof fn ready_after_every_outcome(run: SenderRun, bytes: Seq<u8>, pps: u64, seed: u64, i: int)
    requires
        DCID_OFFSET + TOKEN_LEN <= bytes.len(),
        run.start.template.bytes@ == bytes,
        run.start.template.dcid_offset == DCID_OFFSET,
        run.start.rng.0 == seed,
        run.start.attempts() == 0,
        run.start.in_batch == 0,
        run.start.pacer.pps == pps,
        0 <= i < run.ready.len(),
        forall|k: int| 0 <= k < run.ready.len() ==> #[trigger] run.step(k),
    ensures
        is_ready(run.ready[i], bytes, pps, seed, i),
        run.reported[i].is_past(run.ready[i]),
    decreases i,
{
    assert(run.step(i));
    if i == 0 {
        assert(state_after(seed, 0) == seed);
    } else {
        ready_after_every_outcome(run, bytes, pps, seed, i - 1);
        let ready = run.ready[i - 1];
        let reported = run.reported[i - 1];
        outcome_advances(ready, reported, i - 1);
        if ready.in_batch + 1 < BATCH {
            redraw_advances(ready, reported, bytes, seed, i - 1);
        } else {
            redraw_advances(reported, run.ready[i], bytes, seed, i - 1);
        }
    }
}

/// What the senders have done after some outcomes, whoever reported them.
pub open spec fn after_outcomes(stats: BlastStats, outcomes: Seq<Option<usize>>) -> BlastStats
    decreases outcomes.len(),
{
    if outcomes.len() == 0 {
        stats
    } else {
        after_outcomes(stats, outcomes.drop_last()).after(outcomes.last())
    }
}

/// The lengths of what was sent among some outcomes.
pub open spec fn successes(outcomes: Seq<Option<usize>>) -> Seq<usize>
    decreases outcomes.len(),
{
    if outcomes.len() == 0 {
        Seq::empty()
    } else {
        match outcomes.last() {
            Some(len) => successes(outcomes.drop_last()).push(len),
            None => successes(outcomes.drop_last()),
        }
    }
}

/// Every success is counted with its bytes, and every failure as an error.
pub proof fn every_outcome_is_counted(stats: BlastStats, outcomes: Seq<Option<usize>>)
    ensures
        successes(outcomes).len() <= outcomes.len(),
        after_outcomes(stats, outcomes) == (BlastStats {
            sent: wrapped(stats.sent + successes(outcomes).len()),
            bytes: wrapped(stats.bytes + volume(successes(outcomes))),
            errors: wrapped(stats.errors + (outcomes.len() - successes(outcomes).len())),
        }),
    decreases outcomes.len(),
{
    if outcomes.len() > 0 {
        let prior = outcomes.drop_last();
        let sent = successes(prior);
        every_outcome_is_counted(stats, prior);
        match outcomes.last() {
            Some(len) => {
                assert(sent.push(len).drop_last() =~= sent);
                wrapped_adds_up(stats.sent + sent.len(), 1);
                wrapped_adds_up(stats.bytes + volume(sent), len as int);
            },
            None => {
                wrapped_adds_up(stats.errors + (prior.len() - sent.len()), 1);
            },
        }
    }
}

/// A datagram that was handed to the socket or came out of it.
pub enum Packet {
    /// One of this many bytes that was sent.
    Sent(usize),
    /// One that could not be sent.
    Unsent,
    /// One of this many bytes that was received, and whether it was admitted.
    Received(usize, bool),
}

/// A field of the packet counters.
pub enum Counter {
    Sent,
    SentBytes,
    Received,
    ReceivedBytes,
    Rejected,
}

impl Counter {
    /// What this counter shows.
    pub open spec fn shown(self, counts: PacketCounts) -> u64 {
        match self {
            Counter::Sent => counts.sent,
            Counter::SentBytes => counts.sent_bytes,
            Counter::Received => counts.received,
            Counter::ReceivedBytes => counts.received_bytes,
            Counter::Rejected => counts.rejected,
        }
    }

    /// What one datagram adds to this counter.
    pub open spec fn increment(self, packet: Packet) -> nat {
        match (self, packet) {
            (Counter::Sent, Packet::Sent(_)) => 1,
            (Counter::SentBytes, Packet::Sent(len)) => len as nat,
            (Counter::Received, Packet::Received(_, _)) => 1,
            (Counter::ReceivedBytes, Packet::Received(len, _)) => len as nat,
            (Counter::Rejected, Packet::Received(_, false)) => 1,
            _ => 0,
        }
    }

    /// What some datagrams add to this counter together.
    pub open spec fn total(self, traffic: Seq<Packet>) -> nat
        decreases traffic.len(),
    {
        if traffic.len() == 0 {
            0
        } else {
            self.total(traffic.drop_last()) + self.increment(traffic.last())
        }
    }
}

/// The counters after a series of datagrams sent and received.
pub open spec fn after_traffic(counts: PacketCounts, traffic: Seq<Packet>) -> PacketCounts
    decreases traffic.len(),
{
    if traffic.len() == 0 {
        counts
    } else {
        let prior = after_traffic(counts, traffic.drop_last());
        match traffic.last() {
            Packet::Sent(len) => prior.after_send(len as int),
            Packet::Unsent => prior,
            Packet::Received(len, admitted) => prior.after_receive(len as int, admitted),
        }
    }
}

/// Every datagram is counted on its own side, with all its bytes, and exactly the
/// received ones that were not admitted are counted as rejected. One that could
/// not be sent is not counted.
pub proof fn every_packet_is_counted(counts: PacketCounts, traffic: Seq<Packet>, counter: Counter)
    ensures
        counter.shown(after_traffic(counts, traffic)) == wrapped(
            counter.shown(counts) + counter.total(traffic),
        ),
    decreases traffic.len(),
{
    if traffic.len() > 0 {
        let prior = traffic.drop_last();
        every_packet_is_counted(counts, prior, counter);
        wrapped_adds_up(
            counter.shown(counts) + counter.total(prior),
            counter.increment(traffic.last()) as int,
        );
    }
}

/// A series of sends is counted one by one with all its bytes, and leaves what
/// was received alone.
pub proof fn sends_touch_only_what_was_sent(counts: PacketCounts, lens: Seq<usize>)
    ensures
        ({
            let after = after_traffic(counts, lens.map_values(|len: usize| Packet::Sent(len)));
            &&& after.sent == wrapped(counts.sent + lens.len())
            &&& after.sent_bytes == wrapped(counts.sent_bytes + volume(lens))
            &&& after.received == counts.received
            &&& after.received_bytes == counts.received_bytes
            &&& after.rejected == counts.rejected
        }),
    decreases lens.len(),
{
    let traffic = lens.map_values(|len: usize| Packet::Sent(len));
    if lens.len() > 0 {
        let prior = lens.drop_last();
        sends_touch_only_what_was_sent(counts, prior);
        assert(traffic.drop_last() =~= prior.map_values(|len: usize| Packet::Sent(len)));
        wrapped_adds_up(counts.sent + prior.len(), 1);
        wrapped_adds_up(counts.sent_bytes + volume(prior), lens.last() as int);
    }
}

/// How many bytes some datagrams hold together.
pub open spec fn volume(lens: Seq<usize>) -> nat
    decreases lens.len(),
{
    if lens.len() == 0 {
        0
    } else {
        volume(lens.drop_last()) + lens.last() as nat
    }
}

/// A counter never decreases while it does not wrap: after the first datagrams of
/// a series it shows no more than after all of them.
#[verifier::spinoff_prover]
#[verifier::rlimit(40)]
pub proof fn counters_never_decrease(
    counts: PacketCounts,
    traffic: Seq<Packet>,
    first: int,
    counter: Counter,
)
    requires
        0 <= first <= traffic.len(),
        counter.shown(counts) + counter.total(traffic) <= u64::MAX,
    ensures
        counter.shown(counts) <= counter.shown(after_traffic(counts, traffic.take(first))),
        counter.shown(after_traffic(counts, traffic.take(first))) <= counter.shown(
            after_traffic(counts, traffic),
        ),
{
    let begun = traffic.take(first);
    totals_grow(traffic, first, counter);
    every_packet_is_counted(counts, traffic, counter);
    every_packet_is_counted(counts, begun, counter);
    unwrapped_is_the_count(counter.shown(counts) + counter.total(traffic));
    unwrapped_is_the_count(counter.shown(counts) + counter.total(begun));
}

/// A counter that has not wrapped shows the count.
proof fn unwrapped_is_the_count(count: int)
    requires
        0 <= count <= u64::MAX,
    ensures
        wrapped(count) == count,
{
}

/// The first datagrams of a series add no more to a counter than all of them.
proof fn totals_grow(traffic: Seq<Packet>, first: int, counter: Counter)
    requires
        0 <= first <= traffic.len(),
    ensures
        counter.total(traffic.take(first)) <= counter.total(traffic),
    decreases traffic.len(),
{
    if first == traffic.len() {
        assert(traffic.take(first) =~= traffic);
    } else {
        assert(traffic.drop_last().take(first) =~= traffic.take(first));
        totals_grow(traffic.drop_last(), first, counter);
    }
}

/// Adding to a counter that has wrapped is adding to the count it shows.
proof fn wrapped_adds_up(count: int, more: int)
    ensures
        wrapped(wrapped(count) + more) == wrapped(count + more),
{
    vstd::arithmetic::div_mod::lemma_add_mod_noop(count, more, 0x1_0000_0000_0000_0000);
    vstd::arithmetic::div_mod::lemma_add_mod_noop(
        count % 0x1_0000_0000_0000_0000,
        more,
        0x1_0000_0000_0000_0000,
    );
}

/// No more datagrams are rejected than received, as long as no counter wraps.
pub proof fn rejected_are_among_received(counts: PacketCounts, traffic: Seq<Packet>)
    requires
        counts.rejected <= counts.received,
        counts.received + Counter::Received.total(traffic) <= u64::MAX,
    ensures
        after_traffic(counts, traffic).rejected <= after_traffic(counts, traffic).received,
{
    every_packet_is_counted(counts, traffic, Counter::Received);
    every_packet_is_counted(counts, traffic, Counter::Rejected);
    refusals_are_among_arrivals(traffic);
}

/// No more datagrams are refused than arrive.
proof fn refusals_are_among_arrivals(traffic: Seq<Packet>)
    ensures
        Counter::Rejected.total(traffic) <= Counter::Received.total(traffic),
    decreases traffic.len(),
{
    if traffic.len() > 0 {
        refusals_are_among_arrivals(traffic.drop_last());
    }
}

/// Where everything is admitted, as without an authenticator, no series of
/// datagrams changes how many were rejected.
pub proof fn admitted_traffic_is_never_rejected(counts: PacketCounts, traffic: Seq<Packet>)
    requires
        forall|i: int|
            0 <= i < traffic.len() ==> (#[trigger] traffic[i] matches Packet::Received(_, admitted)
                ==> admitted),
    ensures
        after_traffic(counts, traffic).rejected == counts.rejected,
    decreases traffic.len(),
{
    if traffic.len() > 0 {
        let prior = traffic.drop_last();
        assert forall|i: int| 0 <= i < prior.len() implies (#[trigger] prior[i] matches
            Packet::Received(_, admitted) ==> admitted) by {
            assert(prior[i] == traffic[i]);
        }
        admitted_traffic_is_never_rejected(counts, prior);
        assert(traffic.last() == traffic[traffic.len() - 1]);
    }
}

/// Without an authenticator nothing is rejected, whatever a datagram carries.
pub proof fn nothing_is_rejected_without_validation(
    pass: ReceivePass,
    counts: PacketCounts,
    datagram: Seq<u8>,
    addr: SocketAddr,
)
    requires
        pass.filled < pass.metas,
        datagram.len() <= usize::MAX,
    ensures
        is_admitted(None, datagram, addr.ip),
        counts.after_receive(datagram.len() as int, is_admitted(None, datagram, addr.ip)).rejected
            == counts.rejected,
        pass.on_arrival(
            datagram.len() as usize,
            addr,
            is_admitted(None, datagram, addr.ip),
        ).1 is Deliver,
{
}

/// A datagram is handed over only if it carries a token minted for the path it
/// came on, and a forged one is counted, dropped, and leaves its slot alone.
pub proof fn only_minted_tokens_get_through(
    authenticator: Authenticator,
    pass: ReceivePass,
    counts: PacketCounts,
    datagram: Seq<u8>,
    addr: SocketAddr,
)
    requires
        datagram.len() <= usize::MAX,
    ensures
        ({
            let len = datagram.len() as usize;
            let admitted = is_admitted(Some(authenticator), datagram, addr.ip);
            let (next, action) = pass.on_arrival(len, addr, admitted);
            let minted = addr.ip matches IpAddr::V4(peer) && destination_cid_of(datagram) matches
                Some(cid) && is_minted(cid, authenticator.accepts(), peer, authenticator.at());
            &&& admitted <==> minted
            &&& action is Deliver ==> minted
            &&& !minted ==> next == pass && action == ReceiveAction::Read(pass.filled)
            &&& !minted ==> counts.after_receive(len as int, admitted).rejected == wrapped(
                counts.rejected + 1,
            )
        }),
{
    accepted_datagrams_carry_minted_tokens(authenticator, datagram, addr.ip);
}

/// What a socket shows of all that was handed to it or came out of it since it was
/// bound, as long as no counter wraps: exactly what was sent, received and
/// rejected, with no more rejected than received, nothing rejected where all was
/// admitted, and no counter that showed more at an earlier time.
#[verifier::spinoff_prover]
#[verifier::rlimit(40)]
pub proof fn sockets_show_their_traffic(traffic: Seq<Packet>, first: int)
    requires
        0 <= first <= traffic.len(),
        forall|counter: Counter| #[trigger] counter.total(traffic) <= u64::MAX,
    ensures
        ({
            let earlier = after_traffic(PacketCounts::nothing(), traffic.take(first));
            let now = after_traffic(PacketCounts::nothing(), traffic);
            &&& forall|counter: Counter| #[trigger]
                counter.shown(now) == counter.total(traffic)
            &&& forall|counter: Counter| #[trigger]
                counter.shown(earlier) <= counter.shown(now)
            &&& now.rejected <= now.received
            &&& (forall|i: int|
                0 <= i < traffic.len() ==> (#[trigger] traffic[i] matches Packet::Received(
                    _,
                    admitted,
                ) ==> admitted)) ==> now.rejected == 0
            &&& traffic.len() == 0 ==> now == PacketCounts::nothing()
        }),
{
    let nothing = PacketCounts::nothing();
    let earlier = after_traffic(nothing, traffic.take(first));
    let now = after_traffic(nothing, traffic);
    assert forall|counter: Counter| #[trigger]
        counter.shown(now) == counter.total(traffic) by {
        every_packet_is_counted(nothing, traffic, counter);
        assert(counter.total(traffic) <= u64::MAX);
    }
    assert forall|counter: Counter| #[trigger] counter.shown(earlier) <= counter.shown(now) by {
        assert(counter.total(traffic) <= u64::MAX);
        counters_never_decrease(nothing, traffic, first, counter);
    }
    assert(Counter::Received.total(traffic) <= u64::MAX);
    rejected_are_among_received(nothing, traffic);
    if forall|i: int|
        0 <= i < traffic.len() ==> (#[trigger] traffic[i] matches Packet::Received(_, admitted)
            ==> admitted) {
        admitted_traffic_is_never_rejected(nothing, traffic);
    }
}

/// Slots are handed over in order and none twice: a delivery takes the first
/// free slot, which is then filled.
pub proof fn slots_are_filled_in_order(
    pass: ReceivePass,
    len: usize,
    addr: SocketAddr,
    admitted: bool,
)
    requires
        pass.is_valid(),
        pass.filled < pass.buffers,
    ensures
        ({
            let (next, action) = pass.on_arrival(len, addr, admitted);
            &&& next.is_valid()
            &&& action matches ReceiveAction::Deliver(delivery) ==> delivery.slot == pass.filled
                && next.filled == pass.filled + 1 && delivery.slot < next.buffers && delivery.slot
                < next.metas && delivery.stride == delivery.len
            &&& action !is Deliver ==> next == pass
        }),
{
}

/// A datagram as it is read: its bytes, and who sent it.
pub type Arrival = (Seq<u8>, SocketAddr);

/// The pass, the counters and the deliveries after some datagrams were read.
pub open spec fn pass_over(
    authenticator: Option<Authenticator>,
    pass: ReceivePass,
    counts: PacketCounts,
    arrivals: Seq<Arrival>,
) -> (ReceivePass, PacketCounts, Seq<Delivery>)
    decreases arrivals.len(),
{
    if arrivals.len() == 0 {
        (pass, counts, Seq::empty())
    } else {
        let (prior, counted, deliveries) = pass_over(
            authenticator,
            pass,
            counts,
            arrivals.drop_last(),
        );
        let (datagram, addr) = arrivals.last();
        let admitted = is_admitted(authenticator, datagram, addr.ip);
        let (next, action) = prior.on_arrival(datagram.len() as usize, addr, admitted);
        (
            next,
            counted.after_receive(datagram.len() as int, admitted),
            match action {
                ReceiveAction::Deliver(delivery) => deliveries.push(delivery),
                _ => deliveries,
            },
        )
    }
}

/// The datagrams among some that are admitted, in the order they came.
pub open spec fn admitted_among(
    authenticator: Option<Authenticator>,
    arrivals: Seq<Arrival>,
) -> Seq<Arrival>
    decreases arrivals.len(),
{
    if arrivals.len() == 0 {
        Seq::empty()
    } else {
        let prior = admitted_among(authenticator, arrivals.drop_last());
        if is_admitted(authenticator, arrivals.last().0, arrivals.last().1.ip) {
            prior.push(arrivals.last())
        } else {
            prior
        }
    }
}

/// Some datagrams as the counters see them.
pub open spec fn received_traffic(
    authenticator: Option<Authenticator>,
    arrivals: Seq<Arrival>,
) -> Seq<Packet>
    decreases arrivals.len(),
{
    if arrivals.len() == 0 {
        Seq::empty()
    } else {
        let (datagram, addr) = arrivals.last();
        received_traffic(authenticator, arrivals.drop_last()).push(
            Packet::Received(
                datagram.len() as usize,
                is_admitted(authenticator, datagram, addr.ip),
            ),
        )
    }
}

/// A whole pass hands over exactly the admitted datagrams, in the order they
/// came: the first in slot 0, the next in slot 1 and so on, each with its length
/// and sender; as many slots are filled, and every datagram is counted. Only what
/// finds no metadata slot left, of which a pass reads one at most, is dropped.
#[verifier::spinoff_prover]
#[verifier::rlimit(40)]
pub proof fn passes_deliver_the_admitted(
    authenticator: Option<Authenticator>,
    buffers: usize,
    metas: usize,
    counts: PacketCounts,
    arrivals: Seq<Arrival>,
)
    requires
        forall|i: int| 0 <= i < arrivals.len() ==> (#[trigger] arrivals[i]).0.len() <= usize::MAX,
    ensures
        ({
            let start = ReceivePass { filled: 0, buffers, metas };
            let (pass, counted, deliveries) = pass_over(authenticator, start, counts, arrivals);
            let admitted = admitted_among(authenticator, arrivals);
            &&& pass == (ReceivePass { filled: pass.filled, ..start })
            &&& pass.filled == deliveries.len()
            &&& deliveries.len() == (if admitted.len() <= metas {
                admitted.len()
            } else {
                metas as nat
            })
            &&& forall|k: int|
                0 <= k < deliveries.len() ==> #[trigger] deliveries[k] == (Delivery {
                    slot: k as usize,
                    addr: admitted[k].1,
                    len: admitted[k].0.len() as usize,
                    stride: admitted[k].0.len() as usize,
                })
            &&& counted == after_traffic(counts, received_traffic(authenticator, arrivals))
        }),
    decreases arrivals.len(),
{
    if arrivals.len() > 0 {
        let prior = arrivals.drop_last();
        assert forall|i: int| 0 <= i < prior.len() implies (#[trigger] prior[i]).0.len()
            <= usize::MAX by {
            assert(prior[i] == arrivals[i]);
        }
        passes_deliver_the_admitted(authenticator, buffers, metas, counts, prior);
        assert(arrivals.last() == arrivals[arrivals.len() - 1]);
        let traffic = received_traffic(authenticator, arrivals);
        assert(traffic.drop_last() =~= received_traffic(authenticator, prior));
    }
}

/// The datagrams of a transmission follow each other without a gap, from its
/// first byte to its last; each but the last has the segment size, and none has
/// more or is empty.
pub proof fn segments_cover_the_transmission(start: int, len: int, size: int, i: int)
    requires
        start <= len,
        size > 0,
        0 <= i < cut_from(start, len, size).len(),
    ensures
        ({
            let pieces = cut_from(start, len, size);
            &&& pieces[0].0 == start
            &&& pieces[pieces.len() - 1].1 == len
            &&& i + 1 < pieces.len() ==> pieces[i].1 == pieces[i + 1].0 && pieces[i].1
                - pieces[i].0 == size
            &&& 0 < pieces[i].1 - pieces[i].0 <= size
        }),
    decreases len - start,
{
    let pieces = cut_from(start, len, size);
    if len - start > size {
        let rest = cut_from(start + size, len, size);
        assert(rest.len() > 0);
        assert(forall|j: int| 0 <= j < rest.len() ==> pieces[j + 1] == #[trigger] rest[j]);
        assert(pieces[1] == rest[0]);
        assert(pieces[pieces.len() - 1] == rest[rest.len() - 1]);
        if i > 0 {
            segments_cover_the_transmission(start + size, len, size, i - 1);
            assert(pieces[i] == rest[i - 1]);
            if i + 1 < pieces.len() {
                assert(pieces[i + 1] == rest[i]);
            }
        } else {
            segments_cover_the_transmission(start + size, len, size, 0);
        }
    }
}

/// A payload with room for the header tells its sequence number from every
/// other.
pub proof fn payloads_carry_their_sequence_number(a: u64, b: u64, size: nat)
    requires
        size >= 8,
        Seq::new(size, |i: int| payload_byte(a, i)) == Seq::new(size, |i: int| payload_byte(b, i)),
    ensures
        a == b,
{
    let s = Seq::new(size, |i: int| payload_byte(a, i));
    let t = Seq::new(size, |i: int| payload_byte(b, i));
    assert(s.take(8) =~= bytes64(a, Endian::Big));
    assert(t.take(8) =~= bytes64(b, Endian::Big));
    bytes64_injective(a, b, Endian::Big);
}

/// A shorter payload with the same sequence number is a prefix of a longer one.
pub proof fn payloads_are_truncated(seq: u64, short: nat, long: nat)
    requires
        short <= long,
    ensures
        Seq::new(long, |i: int| payload_byte(seq, i)).take(short as int) == Seq::new(
            short,
            |i: int| payload_byte(seq, i),
        ),
{
    assert(Seq::new(long, |i: int| payload_byte(seq, i)).take(short as int) =~= Seq::new(
        short,
        |i: int| payload_byte(seq, i),
    ));
}

/// A run that is over has sent exactly the pings asked for, each of which was
/// echoed or lost.
pub proof fn finished_runs_account_for_every_ping(run: PingRun)
    requires
        run.is_valid(),
        run.is_over(),
    ensures
        run.seq == run.count,
        run.rtts@.len() + run.lost == run.count,
{
}

} // verus!
