//! Packet authentication carried in the QUIC connection ID.
//!
//! # Token format
//!
//! Every connection ID this crate mints is a 20-byte authentication token,
//! which is exactly the QUIC maximum connection ID length:
//!
//! ```text
//! | key selector (2) | nonce (8) | tag (10) |
//! ```
//!
//! The tag authenticates the nonce and the IPv4 addresses of both ends:
//!
//! ```text
//! M   = nonce64 || src_ipv4 || dst_ipv4     (16 bytes, exactly one AES block)
//! tag = Trunc80(AES(F, M))
//! ```
//!
//! # How it fits QUIC
//!
//! A QUIC connection uses a different connection ID in each direction, and the
//! client picks both of them when it opens the connection. The client mints the
//! destination ID of its Initial packet under `F_AB` (client to server) and the
//! IDs it advertises under `F_BA` (server to client). Both keys are shared, so
//! each side can mint and verify tokens for the direction it owns.
//!
//! The tag binds both addresses, so a token verifies on another path only where
//! the two truncated AES outputs collide, and never for the other direction,
//! which carries another selector.
//!
//! The keys below are compiled in, the nonce is never checked for reuse, and
//! tokens never expire: this is a proof of concept.

use aes::cipher::{Array, BlockCipherEncrypt, KeyInit};
use rand::Rng;
use vstd::prelude::*;
use vstd::slice::slice_subrange;
use vstd::string::StringExecFns;

use crate::bytes::{be16, overwrite, u16_from_be, u16_to_be, write_array};
use crate::laws::unbound_tokens_are_refused;
use crate::net::{IpAddr, Ipv4Addr, SocketAddr};
use crate::text::{decimal, hex};

verus! {

/// Full token length, which is also the QUIC maximum connection ID length.
pub const TOKEN_LEN: usize = 20;

/// Length of the key selector, the token's first field.
pub const SELECTOR_LEN: usize = 2;

/// Length of the nonce, the token's second field.
pub const NONCE_LEN: usize = 8;

/// Length of the tag, the token's last field: AES output cut to 80 bits.
pub const TAG_LEN: usize = 10;

/// Index of the first tag byte in a token.
pub const TAG_START: usize = 10;

/// Length of an AES block.
pub const AES_BLOCK_LEN: usize = 16;

/// `F_AB`: authenticates client-to-server packets. Proof-of-concept key, not a
/// secret.
pub const F_AB: [u8; 16] = [
    0xa0, 0xb1, 0xc2, 0xd3, 0xe4, 0xf5, 0x06, 0x17, 0x28, 0x39, 0x4a, 0x5b, 0x6c, 0x7d, 0x8e, 0x9f,
];

/// `F_BA`: authenticates server-to-client packets. Proof-of-concept key, not a
/// secret.
pub const F_BA: [u8; 16] = [
    0x5f, 0x4e, 0x3d, 0x2c, 0x1b, 0x0a, 0xf9, 0xe8, 0xd7, 0xc6, 0xb5, 0xa4, 0x93, 0x82, 0x71, 0x60,
];

/// The IPv4 addresses of the two ends. Both sides must agree on these, since
/// they are authenticated by every tag.
#[derive(Debug, Clone, Copy, PartialEq, Eq)]
pub struct Peers {
    pub client: Ipv4Addr,
    pub server: Ipv4Addr,
}

/// Which direction of the connection a token authenticates, and therefore which
/// key it uses.
#[derive(Debug, Clone, Copy, PartialEq, Eq, Structural)]
pub enum Direction {
    ClientToServer,
    ServerToClient,
}

impl Direction {
    /// The selector that stands for this direction in a token.
    pub open spec fn selector_value(self) -> u16 {
        match self {
            Direction::ClientToServer => 1,
            Direction::ServerToClient => 2,
        }
    }

    /// The bytes of the key that authenticates this direction.
    pub open spec fn key_bytes(self) -> Seq<u8> {
        match self {
            Direction::ClientToServer => F_AB@,
            Direction::ServerToClient => F_BA@,
        }
    }

    /// The direction that `selector` stands for, if any.
    pub open spec fn selected_by(selector: u16) -> Option<Direction> {
        if selector == 1 {
            Some(Direction::ClientToServer)
        } else if selector == 2 {
            Some(Direction::ServerToClient)
        } else {
            None
        }
    }

    /// The source and destination of a packet travelling this direction.
    pub open spec fn ends(self, peers: Peers) -> (Ipv4Addr, Ipv4Addr) {
        match self {
            Direction::ClientToServer => (peers.client, peers.server),
            Direction::ServerToClient => (peers.server, peers.client),
        }
    }

    /// The selector that stands for this direction in a token.
    pub fn selector(self) -> (selector: u16)
        ensures
            selector == self.selector_value(),
    {
        match self {
            Direction::ClientToServer => 0x0001,
            Direction::ServerToClient => 0x0002,
        }
    }

    /// The key that authenticates this direction.
    pub fn key(self) -> (key: &'static [u8; 16])
        ensures
            key@ == self.key_bytes(),
    {
        match self {
            Direction::ClientToServer => &F_AB,
            Direction::ServerToClient => &F_BA,
        }
    }

    /// The direction that `selector` stands for, if any.
    pub fn from_selector(selector: u16) -> (direction: Option<Direction>)
        ensures
            direction == Direction::selected_by(selector),
    {
        match selector {
            0x0001 => Some(Direction::ClientToServer),
            0x0002 => Some(Direction::ServerToClient),
            _ => None,
        }
    }

    /// The `(source, destination)` addresses a packet travelling this direction
    /// carries, which is the order they are fed to the PRF in.
    pub fn path(self, peers: Peers) -> (path: (Ipv4Addr, Ipv4Addr))
        ensures
            path == self.ends(peers),
    {
        match self {
            Direction::ClientToServer => (peers.client, peers.server),
            Direction::ServerToClient => (peers.server, peers.client),
        }
    }
}

/// Why a token or a datagram was refused.
#[derive(Debug, Clone, Copy, PartialEq, Eq)]
pub enum AuthError {
    /// The token is not `TOKEN_LEN` bytes long, but as many as given.
    BadLength(usize),
    /// The key selector stands for no direction.
    UnknownSelector(u16),
    /// The token authenticates the other direction.
    WrongDirection,
    /// The tag does not authenticate the nonce and the address pair.
    BadTag,
    /// The datagram is not recognizable as QUIC.
    NotQuic,
    /// Only IPv4 peers can be authenticated.
    NotIpv4(IpAddr),
}

impl AuthError {
    /// What the user is told, where the address of a peer that is not an IPv4 one
    /// is written as `address`.
    pub open spec fn text(self, address: Seq<char>) -> Seq<char> {
        match self {
            AuthError::BadLength(len) => "expected a 20-byte token, got "@
                + crate::text::decimal_of(len as nat) + " bytes"@,
            AuthError::UnknownSelector(selector) => "unknown key selector 0x"@
                + crate::text::hex_of(selector),
            AuthError::WrongDirection => "token authenticates the wrong direction"@,
            AuthError::BadTag => "tag does not authenticate this nonce and address pair"@,
            AuthError::NotQuic => "datagram is not recognizable as QUIC"@,
            AuthError::NotIpv4(_) => "only IPv4 peers can be authenticated, got "@ + address,
        }
    }

    /// What the user is told. How the address of a peer that is not an IPv4 one is
    /// written is up to the caller, who hands it over as `address`; no other text
    /// holds it.
    pub fn message(&self, address: &str) -> (text: String)
        ensures
            text@ == self.text(address@),
    {
        match self {
            AuthError::BadLength(len) => {
                let mut text = String::from_str("expected a 20-byte token, got ");
                text.append(decimal(*len).as_str());
                text.append(" bytes");
                text
            },
            AuthError::UnknownSelector(selector) => {
                let mut text = String::from_str("unknown key selector 0x");
                text.append(hex(*selector).as_str());
                text
            },
            AuthError::WrongDirection => String::from_str(
                "token authenticates the wrong direction",
            ),
            AuthError::BadTag => String::from_str(
                "tag does not authenticate this nonce and address pair",
            ),
            AuthError::NotQuic => String::from_str("datagram is not recognizable as QUIC"),
            AuthError::NotIpv4(_) => {
                let mut text = String::from_str("only IPv4 peers can be authenticated, got ");
                text.append(address);
                text
            },
        }
    }
}

/// The AES-128 encryption of one block under one key, both as bytes.
pub uninterp spec fn aes128_block(key: Seq<u8>, block: Seq<u8>) -> Seq<u8>;

/// Calls `aes::Aes128::new` and `encrypt_block`: the ciphertext is a function of
/// the key and the block alone, whichever backend the processor selects.
#[verifier::external_body]
fn aes128_encrypt(key: &[u8; 16], block: [u8; 16]) -> (ciphertext: [u8; 16])
    ensures
        ciphertext@ == aes128_block(key@, block@),
{
    let mut block = Array::from(block);
    aes::Aes128::new(&Array::from(*key)).encrypt_block(&mut block);
    block.into()
}

/// Calls `rand::rng` and `fill_bytes`: eight bytes from the thread's generator.
/// Which bytes they are is left to chance, so nothing is said of them.
#[verifier::external_body]
fn random_nonce() -> (nonce: [u8; 8]) {
    let mut nonce = [0u8; 8];
    rand::rng().fill_bytes(&mut nonce);
    nonce
}

/// Whether `nonce` was handed out by the random generator. Nothing but a call of
/// it shows that of any bytes.
pub closed spec fn is_drawn(nonce: Seq<u8>) -> bool {
    exists|drawn: [u8; 8]| drawn@ == nonce && #[trigger] call_ensures(random_nonce, (), drawn)
}

/// A nonce counts as drawn only where the random generator gave it.
proof fn drawn_nonces_are_random(nonce: Seq<u8>)
    ensures
        is_drawn(nonce) <==> exists|drawn: [u8; 8]|
            drawn@ == nonce && #[trigger] call_ensures(random_nonce, (), drawn),
{
}

/// What a tag authenticates: the nonce, then the source and the destination.
pub open spec fn message_of(nonce: Seq<u8>, src: Ipv4Addr, dst: Ipv4Addr) -> Seq<u8> {
    nonce + src@ + dst@
}

/// `Trunc80(AES(key, nonce || src || dst))`.
pub open spec fn tag_of(key: Seq<u8>, nonce: Seq<u8>, src: Ipv4Addr, dst: Ipv4Addr) -> Seq<u8> {
    aes128_block(key, message_of(nonce, src, dst)).take(TAG_LEN as int)
}

/// A token as its three fields.
pub open spec fn token_from_fields(direction: Direction, nonce: Seq<u8>, tag: Seq<u8>) -> Seq<u8> {
    be16(direction.selector_value()) + nonce + tag
}

/// The token for `direction` on the path `src` to `dst` with the given nonce.
pub open spec fn token_of(
    direction: Direction,
    nonce: Seq<u8>,
    src: Ipv4Addr,
    dst: Ipv4Addr,
) -> Seq<u8> {
    token_from_fields(direction, nonce, tag_of(direction.key_bytes(), nonce, src, dst))
}

/// The key selector that a token carries.
pub open spec fn selector_field(token: Seq<u8>) -> u16 {
    (token[0] * 256 + token[1]) as u16
}

/// The nonce that a token carries.
pub open spec fn nonce_field(token: Seq<u8>) -> Seq<u8> {
    token.subrange(SELECTOR_LEN as int, TAG_START as int)
}

/// The tag that a token carries.
pub open spec fn tag_field(token: Seq<u8>) -> Seq<u8> {
    token.subrange(TAG_START as int, TOKEN_LEN as int)
}

/// Whether `token` is the token for `direction` on the path `src` to `dst` with
/// the nonce it carries.
pub open spec fn is_minted(
    token: Seq<u8>,
    direction: Direction,
    src: Ipv4Addr,
    dst: Ipv4Addr,
) -> bool {
    &&& token.len() == TOKEN_LEN
    &&& token == token_of(direction, nonce_field(token), src, dst)
}

/// What the length and the selector of a token say for `direction`.
pub open spec fn header_verdict(token: Seq<u8>, direction: Direction) -> Result<(), AuthError> {
    if token.len() != TOKEN_LEN {
        Err(AuthError::BadLength(token.len() as usize))
    } else {
        match Direction::selected_by(selector_field(token)) {
            None => Err(AuthError::UnknownSelector(selector_field(token))),
            Some(found) => if found != direction {
                Err(AuthError::WrongDirection)
            } else {
                Ok(())
            },
        }
    }
}

/// What the tag of a full-length token says against the tag it should be.
pub open spec fn tag_verdict(token: Seq<u8>, expected: Seq<u8>) -> Result<(), AuthError> {
    if tag_field(token) == expected {
        Ok(())
    } else {
        Err(AuthError::BadTag)
    }
}

/// Whether a token was minted for `direction` on the path `src` to `dst`, and if
/// not, why.
pub open spec fn verdict(
    token: Seq<u8>,
    direction: Direction,
    src: Ipv4Addr,
    dst: Ipv4Addr,
) -> Result<(), AuthError> {
    match header_verdict(token, direction) {
        Err(e) => Err(e),
        Ok(()) => tag_verdict(
            token,
            tag_of(direction.key_bytes(), nonce_field(token), src, dst),
        ),
    }
}

/// The block that a tag is computed over: `nonce || src || dst`.
pub fn tag_message(nonce: &[u8], src: Ipv4Addr, dst: Ipv4Addr) -> (message: [u8; AES_BLOCK_LEN])
    requires
        nonce@.len() == NONCE_LEN,
    ensures
        message@ == message_of(nonce@, src, dst),
{
    let mut message: [u8; AES_BLOCK_LEN] = [0u8; AES_BLOCK_LEN];
    write_array(&mut message, 0, nonce);
    write_array(&mut message, NONCE_LEN, &src.octets);
    write_array(&mut message, NONCE_LEN + 4, &dst.octets);
    assert(message@ =~= message_of(nonce@, src, dst));
    message
}

/// `Trunc80`: the first `TAG_LEN` bytes of a block.
pub fn truncate_block(block: &[u8; AES_BLOCK_LEN]) -> (tag: [u8; TAG_LEN])
    ensures
        tag@ == block@.take(TAG_LEN as int),
{
    let mut tag: [u8; TAG_LEN] = [0u8; TAG_LEN];
    write_array(&mut tag, 0, slice_subrange(block, 0, TAG_LEN));
    assert(tag@ =~= block@.take(TAG_LEN as int));
    tag
}

/// `Trunc80(AES(key, nonce || src || dst))`.
pub fn tag(key: &[u8; 16], nonce: &[u8], src: Ipv4Addr, dst: Ipv4Addr) -> (tag: [u8; TAG_LEN])
    requires
        nonce@.len() == NONCE_LEN,
    ensures
        tag@ == tag_of(key@, nonce@, src, dst),
{
    let block = aes128_encrypt(key, tag_message(nonce, src, dst));
    truncate_block(&block)
}

/// Lays out a token whose tag is already known.
pub fn assemble_with_tag(direction: Direction, nonce: &[u8], tag: &[u8; TAG_LEN]) -> (token:
    [u8; TOKEN_LEN])
    requires
        nonce@.len() == NONCE_LEN,
    ensures
        token@ == token_from_fields(direction, nonce@, tag@),
{
    let mut token: [u8; TOKEN_LEN] = [0u8; TOKEN_LEN];
    let selector = u16_to_be(direction.selector());
    write_array(&mut token, 0, &selector);
    write_array(&mut token, SELECTOR_LEN, nonce);
    write_array(&mut token, TAG_START, tag);
    assert(token@ =~= token_from_fields(direction, nonce@, tag@));
    token
}

/// The token for `direction` on the path `src` to `dst` with the given nonce.
pub fn assemble(direction: Direction, nonce: &[u8], src: Ipv4Addr, dst: Ipv4Addr) -> (token:
    [u8; TOKEN_LEN])
    requires
        nonce@.len() == NONCE_LEN,
    ensures
        token@ == token_of(direction, nonce@, src, dst),
        is_minted(token@, direction, src, dst),
{
    let tag = tag(direction.key(), nonce, src, dst);
    let token = assemble_with_tag(direction, nonce, &tag);
    assert(nonce_field(token@) =~= nonce@);
    token
}

/// Mints a fresh token for `direction` between `peers`.
pub fn mint(direction: Direction, peers: Peers) -> (token: [u8; TOKEN_LEN])
    ensures
        is_minted(token@, direction, direction.ends(peers).0, direction.ends(peers).1),
        is_drawn(nonce_field(token@)),
{
    let (src, dst) = direction.path(peers);
    mint_between(direction, src, dst)
}

/// Mints a fresh token for `direction` on the path `src` to `dst`. Its nonce is
/// random, so which of the path's tokens comes back is left to chance.
pub fn mint_between(direction: Direction, src: Ipv4Addr, dst: Ipv4Addr) -> (token: [u8; TOKEN_LEN])
    ensures
        is_minted(token@, direction, src, dst),
        is_drawn(nonce_field(token@)),
{
    let nonce = random_nonce();
    let token = assemble(direction, &nonce, src, dst);
    assert(nonce_field(token@) =~= nonce@);
    token
}

/// `token` with the first byte of its tag inverted.
pub open spec fn spoiled(token: Seq<u8>) -> Seq<u8> {
    token.update(TAG_START as int, token[TAG_START as int] ^ 0xff)
}

/// Whether `token` is bound to no source: it is a token for the path from the
/// wildcard to `dst`, but for the first byte of its tag, which is inverted.
pub open spec fn is_unbound(token: Seq<u8>, direction: Direction, dst: Ipv4Addr) -> bool {
    &&& token.len() == TOKEN_LEN
    &&& is_minted(spoiled(token), direction, Ipv4Addr::wildcard(), dst)
}

/// Whether `token` fails on its tag from the wildcard, and from every other
/// address whose tag for its nonce is not by chance the one it carries.
pub open spec fn is_refused_unless_tags_collide(
    token: Seq<u8>,
    direction: Direction,
    dst: Ipv4Addr,
) -> bool {
    &&& verdict(token, direction, Ipv4Addr::wildcard(), dst) == Err::<(), AuthError>(
        AuthError::BadTag,
    )
    &&& forall|src: Ipv4Addr| #[trigger]
        verdict(token, direction, src, dst) == (if tag_field(token) == tag_of(
            direction.key_bytes(),
            nonce_field(token),
            src,
            dst,
        ) {
            Ok::<(), AuthError>(())
        } else {
            Err(AuthError::BadTag)
        })
}

/// Inverts the first byte of the tag of `token`.
pub fn spoil(token: &[u8; TOKEN_LEN]) -> (spoilt: [u8; TOKEN_LEN])
    ensures
        spoilt@ == spoiled(token@),
{
    let mut spoilt: [u8; TOKEN_LEN] = *token;
    spoilt[TAG_START] = token[TAG_START] ^ 0xff;
    assert(spoilt@ =~= spoiled(token@));
    spoilt
}

/// Mints a token for `direction` towards `dst` that is meant never to verify,
/// for a peer whose address is not known or has no place in a tag.
pub fn mint_unbound(direction: Direction, dst: Ipv4Addr) -> (token: [u8; TOKEN_LEN])
    ensures
        is_unbound(token@, direction, dst),
        is_refused_unless_tags_collide(token@, direction, dst),
        is_drawn(nonce_field(token@)),
{
    let minted = mint_between(direction, Ipv4Addr::unspecified(), dst);
    let token = spoil(&minted);
    proof {
        let byte = minted@[TAG_START as int];
        assert((byte ^ 0xff) ^ 0xff == byte) by (bit_vector);
        assert(spoiled(token@) =~= minted@);
        assert(nonce_field(token@) =~= nonce_field(minted@));
        assert forall|src: Ipv4Addr| #[trigger]
            verdict(token@, direction, src, dst) == (if tag_field(token@) == tag_of(
                direction.key_bytes(),
                nonce_field(token@),
                src,
                dst,
            ) {
                Ok::<(), AuthError>(())
            } else {
                Err(AuthError::BadTag)
            }) by {
            unbound_tokens_are_refused(token@, direction, dst, src);
        }
        unbound_tokens_are_refused(token@, direction, dst, Ipv4Addr::wildcard());
    }
    token
}

/// Checks the length and the selector of `token` against `direction`.
pub fn check_header(token: &[u8], direction: Direction) -> (result: Result<(), AuthError>)
    ensures
        result == header_verdict(token@, direction),
{
    if token.len() != TOKEN_LEN {
        return Err(AuthError::BadLength(token.len()));
    }
    let selector = u16_from_be(token[0], token[1]);
    match Direction::from_selector(selector) {
        None => Err(AuthError::UnknownSelector(selector)),
        // Refusing the other direction's key is what stops a token captured on
        // the return path from being replayed back at its own sender.
        Some(found) => if found != direction {
            Err(AuthError::WrongDirection)
        } else {
            Ok(())
        },
    }
}

/// Checks the tag of a full-length token against the tag it should carry.
pub fn check_tag(token: &[u8], expected: &[u8; TAG_LEN]) -> (result: Result<(), AuthError>)
    requires
        token@.len() == TOKEN_LEN,
    ensures
        result == tag_verdict(token@, expected@),
{
    if constant_time_eq(slice_subrange(token, TAG_START, TOKEN_LEN), expected) {
        Ok(())
    } else {
        Err(AuthError::BadTag)
    }
}

/// Checks that `token` was minted for `direction` on the path `src` to `dst`.
pub fn verify(token: &[u8], direction: Direction, src: Ipv4Addr, dst: Ipv4Addr) -> (result: Result<
    (),
    AuthError,
>)
    ensures
        result == verdict(token@, direction, src, dst),
{
    match check_header(token, direction) {
        Err(e) => Err(e),
        Ok(()) => {
            let nonce = slice_subrange(token, SELECTOR_LEN, TAG_START);
            let expected = tag(direction.key(), nonce, src, dst);
            check_tag(token, &expected)
        },
    }
}

/// Whether two byte strings are equal. Every byte is looked at, wherever the
/// first difference lies.
pub fn constant_time_eq(a: &[u8], b: &[u8]) -> (equal: bool)
    ensures
        equal == (a@ == b@),
{
    if a.len() != b.len() {
        return false;
    }
    let mut acc: u8 = 0;
    let mut i: usize = 0;
    assert(a@.take(0) =~= b@.take(0));
    while i < a.len()
        invariant
            i <= a@.len(),
            a@.len() == b@.len(),
            acc == 0 <==> a@.take(i as int) == b@.take(i as int),
        decreases a@.len() - i,
    {
        let x = a[i];
        let y = b[i];
        let next = acc | (x ^ y);
        assert(next == 0 <==> acc == 0 && x == y) by (bit_vector)
            requires
                next == acc | (x ^ y),
        ;
        assert(a@.take(i + 1) =~= a@.take(i as int).push(x));
        assert(b@.take(i + 1) =~= b@.take(i as int).push(y));
        assert(a@.take(i + 1).drop_last() =~= a@.take(i as int));
        assert(b@.take(i + 1).drop_last() =~= b@.take(i as int));
        assert(a@.take(i + 1)[i as int] == x && b@.take(i + 1)[i as int] == y);
        acc = next;
        i = i + 1;
    }
    assert(a@.take(i as int) =~= a@);
    assert(b@.take(i as int) =~= b@);
    acc == 0
}

/// The destination connection ID of a QUIC datagram, where it can be located
/// without decrypting anything: behind its length in a long header, and
/// `TOKEN_LEN` bytes long right behind the flags in a short one.
pub open spec fn destination_cid_of(datagram: Seq<u8>) -> Option<Seq<u8>> {
    if datagram.len() == 0 {
        None
    } else if datagram[0] >= 0x80 {
        if datagram.len() < 6 || datagram[5] > TOKEN_LEN || datagram.len() < 6 + datagram[5] {
            None
        } else {
            Some(datagram.subrange(6, 6 + datagram[5]))
        }
    } else if datagram.len() < 1 + TOKEN_LEN {
        None
    } else {
        Some(datagram.subrange(1, 1 + TOKEN_LEN as int))
    }
}

/// Locates the destination connection ID in a QUIC datagram without decrypting
/// anything.
///
/// This is all the parsing a packet-level filter needs: enough to tell that the
/// datagram is QUIC and to find the token.
pub fn destination_cid(datagram: &[u8]) -> (cid: Option<&[u8]>)
    ensures
        match cid {
            Some(bytes) => destination_cid_of(datagram@) == Some(bytes@),
            None => destination_cid_of(datagram@) is None,
        },
{
    if datagram.len() == 0 {
        return None;
    }
    let first = datagram[0];
    assert((first & 0x80 != 0) == (first >= 0x80)) by (bit_vector);
    if first & 0x80 != 0 {
        // Long header: flags(1) version(4) dcid_len(1) dcid.
        if datagram.len() < 6 {
            return None;
        }
        let len: usize = datagram[5] as usize;
        if len > TOKEN_LEN || datagram.len() < 6 + len {
            return None;
        }
        Some(slice_subrange(datagram, 6, 6 + len))
    } else {
        // Short header: flags(1) then a connection ID whose length is not on the
        // wire. Every ID we issue is a full-length token, so that is what we
        // expect to find here.
        if datagram.len() < 1 + TOKEN_LEN {
            return None;
        }
        Some(slice_subrange(datagram, 1, 1 + TOKEN_LEN))
    }
}

/// Authenticates inbound datagrams before they are parsed.
#[derive(Debug, Clone, Copy)]
pub struct Authenticator {
    inbound: Direction,
    local_ip: Ipv4Addr,
}

impl Authenticator {
    /// The only direction that is accepted.
    pub closed spec fn accepts(self) -> Direction {
        self.inbound
    }

    /// The address that accepted packets are sent to.
    pub closed spec fn at(self) -> Ipv4Addr {
        self.local_ip
    }

    /// Whether `datagram`, received from `src`, carries a token minted for this
    /// path and direction, and if not, why.
    pub open spec fn datagram_verdict(self, datagram: Seq<u8>, src: IpAddr) -> Result<
        (),
        AuthError,
    > {
        match src {
            IpAddr::V6(_) => Err(AuthError::NotIpv4(src)),
            IpAddr::V4(peer) => match destination_cid_of(datagram) {
                None => Err(AuthError::NotQuic),
                Some(cid) => verdict(cid, self.accepts(), peer, self.at()),
            },
        }
    }

    /// The one authenticator for an endpoint at `local_ip` that accepts `inbound`:
    /// it holds nothing else.
    pub closed spec fn made(inbound: Direction, local_ip: Ipv4Addr) -> Authenticator {
        Authenticator { inbound, local_ip }
    }

    /// Builds an authenticator for an endpoint at `local_ip` that should only
    /// accept packets travelling `inbound`.
    pub fn new(inbound: Direction, local_ip: Ipv4Addr) -> (authenticator: Authenticator)
        ensures
            authenticator.accepts() == inbound,
            authenticator.at() == local_ip,
            authenticator == Authenticator::made(inbound, local_ip),
    {
        Authenticator { inbound, local_ip }
    }

    /// Returns `Ok` only if `datagram`, received from `src`, carries a token
    /// minted for this path and direction.
    pub fn check(&self, datagram: &[u8], src: IpAddr) -> (result: Result<(), AuthError>)
        ensures
            result == self.datagram_verdict(datagram@, src),
    {
        match src {
            IpAddr::V6(_) => Err(AuthError::NotIpv4(src)),
            IpAddr::V4(peer) => match destination_cid(datagram) {
                None => Err(AuthError::NotQuic),
                Some(cid) => verify(cid, self.inbound, peer, self.local_ip),
            },
        }
    }
}

/// A QUIC connection ID.
#[verifier::external_type_specification]
#[verifier::external_body]
pub struct ExConnectionId(quinn::ConnectionId);

/// The bytes that a connection ID holds.
pub uninterp spec fn connection_id_bytes(cid: quinn::ConnectionId) -> Seq<u8>;

/// Calls `quinn::ConnectionId::new`: the connection ID holds the given bytes. It
/// has room for `TOKEN_LEN` of them.
#[verifier::external_body]
fn connection_id(bytes: &[u8]) -> (cid: quinn::ConnectionId)
    requires
        bytes@.len() <= TOKEN_LEN,
    ensures
        connection_id_bytes(cid) == bytes@,
{
    quinn::ConnectionId::new(bytes)
}

/// Issues authenticated connection IDs for one direction of a connection.
///
/// The peer puts a connection ID that it was issued in the destination field of
/// every packet it sends us. Every such packet travels from the peer to us, so
/// the tag binds the peer's address as the source and our own as the
/// destination, the same pair [`Authenticator`] recomputes on receipt.
#[derive(Debug)]
pub struct AuthCidGenerator {
    direction: Direction,
    local_ip: Ipv4Addr,
}

impl AuthCidGenerator {
    /// The direction that issued connection IDs authenticate.
    pub closed spec fn issues(self) -> Direction {
        self.direction
    }

    /// The address that packets carrying issued connection IDs are sent to.
    pub closed spec fn at(self) -> Ipv4Addr {
        self.local_ip
    }

    /// The one generator for an endpoint at `local_ip` whose peers send `direction`:
    /// it holds nothing else.
    pub closed spec fn made(direction: Direction, local_ip: Ipv4Addr) -> AuthCidGenerator {
        AuthCidGenerator { direction, local_ip }
    }

    /// A generator for an endpoint at `local_ip` whose peers send `direction`.
    pub fn new(direction: Direction, local_ip: Ipv4Addr) -> (generator: AuthCidGenerator)
        ensures
            generator.issues() == direction,
            generator.at() == local_ip,
            generator == AuthCidGenerator::made(direction, local_ip),
    {
        AuthCidGenerator { direction, local_ip }
    }

    /// Issues a connection ID without knowing who it is for. Rather than guess an
    /// address, mint a token that is not meant to authenticate anybody, so that
    /// the failure is a dropped packet rather than a silently unauthenticated
    /// one. No address is certain to be refused but the wildcard: the tag of
    /// another may be the same by chance.
    pub fn generate_cid(&mut self) -> (cid: quinn::ConnectionId)
        ensures
            *final(self) == *old(self),
            is_drawn(nonce_field(connection_id_bytes(cid))),
            is_unbound(connection_id_bytes(cid), old(self).issues(), old(self).at()),
            is_refused_unless_tags_collide(
                connection_id_bytes(cid),
                old(self).issues(),
                old(self).at(),
            ),
    {
        let token = mint_unbound(self.direction, self.local_ip);
        connection_id(&token)
    }

    /// Issues a connection ID for the peer at `remote`. An IPv6 peer cannot be
    /// represented in a tag, so it is issued one that is not meant to
    /// authenticate anybody instead of pretending.
    pub fn generate_cid_for(&mut self, remote: SocketAddr, _local_ip: Option<IpAddr>) -> (cid:
        quinn::ConnectionId)
        ensures
            *final(self) == *old(self),
            is_drawn(nonce_field(connection_id_bytes(cid))),
            match remote.ip {
                IpAddr::V4(peer) => is_minted(
                    connection_id_bytes(cid),
                    old(self).issues(),
                    peer,
                    old(self).at(),
                ),
                IpAddr::V6(_) => {
                    &&& is_unbound(connection_id_bytes(cid), old(self).issues(), old(self).at())
                    &&& is_refused_unless_tags_collide(
                        connection_id_bytes(cid),
                        old(self).issues(),
                        old(self).at(),
                    )
                },
            },
    {
        let token = match remote.ip {
            IpAddr::V4(peer) => mint_between(self.direction, peer, self.local_ip),
            IpAddr::V6(_) => mint_unbound(self.direction, self.local_ip),
        };
        connection_id(&token)
    }

    /// The length of every issued connection ID.
    pub fn cid_len(&self) -> (len: usize)
        ensures
            len == TOKEN_LEN,
    {
        TOKEN_LEN
    }

    /// Issued connection IDs never expire.
    pub fn cid_lifetime(&self) -> (lifetime: Option<std::time::Duration>)
        ensures
            lifetime is None,
    {
        None
    }
}

/// The destination connection ID of the Initial packet that the client of `peers`
/// sends: a fresh token for the client-to-server direction.
pub fn initial_dst_cid(peers: Peers) -> (cid: quinn::ConnectionId)
    ensures
        is_minted(
            connection_id_bytes(cid),
            Direction::ClientToServer,
            peers.client,
            peers.server,
        ),
        is_drawn(nonce_field(connection_id_bytes(cid))),
{
    let token = mint(Direction::ClientToServer, peers);
    connection_id(&token)
}

/// Builds the provider that picks the destination connection ID of the client's
/// Initial packet, which is the first token the server ever sees. Each ID it gives
/// is one that `initial_dst_cid` gave; that it is asked anew each time is not part
/// of the contract, which cannot tell two calls of one provider apart.
pub fn initial_dst_cid_provider(peers: Peers) -> (provider: impl Fn() -> quinn::ConnectionId)
    ensures
        call_requires(provider, ()),
        forall|cid: quinn::ConnectionId| #[trigger]
            call_ensures(provider, (), cid) ==> is_minted(
                connection_id_bytes(cid),
                Direction::ClientToServer,
                peers.client,
                peers.server,
            ) && is_drawn(nonce_field(connection_id_bytes(cid))) && call_ensures(
                initial_dst_cid,
                (peers,),
                cid,
            ),
{
    move || -> (cid: quinn::ConnectionId)
        ensures
            is_minted(
                connection_id_bytes(cid),
                Direction::ClientToServer,
                peers.client,
                peers.server,
            ),
            is_drawn(nonce_field(connection_id_bytes(cid))),
            call_ensures(initial_dst_cid, (peers,), cid),
        { initial_dst_cid(peers) }
}

} // verus!
