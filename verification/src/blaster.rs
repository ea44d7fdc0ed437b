//! A load generator for the packet filter: Initial packets with random
//! destination connection IDs, none of which is minted.
//!
//! Everything but the connection ID is fixed, so a packet costs one send plus 20
//! bytes of generator output written into a buffer that is built once.

use vstd::prelude::*;
use vstd::slice::slice_subrange;
use vstd::string::StringExecFns;

use crate::auth::TOKEN_LEN;
use crate::bytes::{append, append_filled, u16_to_be, u64_to_native, wrapped, write_array, write_vec};
use crate::net::IpAddr;
use crate::rng::SplitMix64;
use crate::text::decimal;

verus! {

/// Smallest datagram a QUIC Initial may be sent in.
pub const MIN_INITIAL_DATAGRAM: usize = 1200;

/// Largest datagram that UDP can be asked to carry.
pub const MAX_UDP_DATAGRAM: usize = 65535;

/// Largest Initial whose length field fits the 2-byte varint it is written as.
pub const MAX_INITIAL_DATAGRAM: usize = 16433;

/// Datagrams sent between checks of the stop flag and the rate limiter.
pub const BATCH: u64 = 64;

/// Index of the destination connection ID in an Initial.
pub const DCID_OFFSET: usize = 6;

/// Bytes of an Initial in front of what its length field covers.
pub const INITIAL_HEADER_LEN: usize = 50;

/// Seed of the generator that the senders' seeds are drawn from.
pub const SEED: u64 = 0x243f_6a88_85a3_08d3;

/// Why no Initial of the requested size can be built.
#[derive(Debug, Clone, Copy, PartialEq, Eq)]
pub enum TemplateError {
    /// The size is below what QUIC allows.
    TooSmall(usize),
    /// The size does not fit a UDP datagram.
    TooLarge(usize),
}

impl TemplateError {
    /// What the user is told.
    pub open spec fn text(self) -> Seq<char> {
        match self {
            TemplateError::TooSmall(size) =>
                "--size must be at least 1200 bytes, the minimum RFC 9000 allows for a datagram carrying an Initial packet, got "@
                + crate::text::decimal_of(size as nat),
            TemplateError::TooLarge(size) => "--size must fit in a UDP datagram, got "@
                + crate::text::decimal_of(size as nat),
        }
    }

    /// What the user is told.
    pub fn message(&self) -> (text: String)
        ensures
            text@ == self.text(),
    {
        let (start, size) = match self {
            TemplateError::TooSmall(size) => (
                "--size must be at least 1200 bytes, the minimum RFC 9000 allows for a datagram carrying an Initial packet, got ",
                *size,
            ),
            TemplateError::TooLarge(size) => ("--size must fit in a UDP datagram, got ", *size),
        };
        let mut text = String::from_str(start);
        let number = decimal(size);
        text.append(number.as_str());
        text
    }
}

/// The bytes of an Initial packet of `size` bytes, before its destination
/// connection ID is filled in.
pub open spec fn initial_bytes(size: int) -> Seq<u8> {
    // Long header, fixed bit set, type Initial, 4-byte packet number.
    seq![0xc3u8]
    // Version 1.
     + seq![0u8, 0, 0, 1]
    // Destination connection ID behind its length.
     + seq![TOKEN_LEN as u8] + crate::bytes::filled(0, TOKEN_LEN as int)
    // Source connection ID behind its length.
     + seq![TOKEN_LEN as u8] + crate::bytes::filled(0x5a, TOKEN_LEN as int)
    // Token length: a varint zero.
     + seq![0u8]
    // Length of packet number and payload, as a 2-byte varint.
     + crate::bytes::be16((0x4000 + size - INITIAL_HEADER_LEN) as u16)
    // Packet number, then payload.
     + crate::bytes::filled(0, 4) + crate::bytes::filled(0x42, size - INITIAL_HEADER_LEN - 4)
}

/// A QUIC Initial packet with one mutable field.
///
/// The bytes are laid out once; only the destination connection ID is rewritten
/// in place, which is the only part a packet authenticator looks at before
/// deciding whether to drop the datagram.
pub struct InitialTemplate {
    pub bytes: Vec<u8>,
    pub dcid_offset: usize,
}

/// The connection ID made of the next three words of a generator in `state`,
/// their bytes in the given order, cut to the length of a token.
pub open spec fn dcid_from(state: u64, order: vstd::endian::Endian) -> Seq<u8> {
    (crate::bytes::bytes64(crate::rng::word(state, 0), order) + crate::bytes::bytes64(
        crate::rng::word(state, 1),
        order,
    ) + crate::bytes::bytes64(crate::rng::word(state, 2), order)).take(TOKEN_LEN as int)
}

impl InitialTemplate {
    /// Whether the template has room for a full-length connection ID.
    pub open spec fn has_dcid(self) -> bool {
        self.dcid_offset + TOKEN_LEN <= self.bytes@.len()
    }

    /// The destination connection ID as it stands.
    pub open spec fn dcid(self) -> Seq<u8> {
        self.bytes@.subrange(self.dcid_offset as int, self.dcid_offset + TOKEN_LEN)
    }

    /// Lays out an Initial of `size` bytes.
    pub fn new(size: usize) -> (template: Result<InitialTemplate, TemplateError>)
        requires
            size <= MAX_INITIAL_DATAGRAM || size > MAX_UDP_DATAGRAM,
        ensures
            match template {
                Ok(template) => MIN_INITIAL_DATAGRAM <= size <= MAX_UDP_DATAGRAM
                    && template.bytes@ == initial_bytes(size as int) && template.dcid_offset
                    == DCID_OFFSET && template.has_dcid(),
                Err(TemplateError::TooSmall(given)) => size < MIN_INITIAL_DATAGRAM && given == size,
                Err(TemplateError::TooLarge(given)) => size > MAX_UDP_DATAGRAM && given == size,
            },
    {
        if size < MIN_INITIAL_DATAGRAM {
            return Err(TemplateError::TooSmall(size));
        }
        if size > MAX_UDP_DATAGRAM {
            return Err(TemplateError::TooLarge(size));
        }
        let mut bytes: Vec<u8> = Vec::with_capacity(size);
        bytes.push(0xc3);
        append(&mut bytes, &[0u8, 0, 0, 1]);
        bytes.push(TOKEN_LEN as u8);
        let dcid_offset = bytes.len();
        append_filled(&mut bytes, 0, TOKEN_LEN);
        bytes.push(TOKEN_LEN as u8);
        append_filled(&mut bytes, 0x5a, TOKEN_LEN);
        bytes.push(0x00);
        let length: u16 = (size - INITIAL_HEADER_LEN) as u16;
        assert(length < 0x4000 ==> 0x4000u16 | length == 0x4000u16 + length) by (bit_vector);
        append(&mut bytes, &u16_to_be(0x4000 | length));
        append_filled(&mut bytes, 0, 4);
        append_filled(&mut bytes, 0x42, size - INITIAL_HEADER_LEN - 4);
        assert(bytes@ =~= initial_bytes(size as int));
        Ok(InitialTemplate { bytes, dcid_offset })
    }

    /// Overwrites the destination connection ID.
    pub fn set_dcid(&mut self, dcid: &[u8; TOKEN_LEN])
        requires
            old(self).has_dcid(),
        ensures
            final(self).dcid_offset == old(self).dcid_offset,
            final(self).bytes@ == crate::bytes::overwrite(
                old(self).bytes@,
                old(self).dcid_offset as int,
                dcid@,
            ),
    {
        let at = self.dcid_offset;
        write_vec(&mut self.bytes, at, dcid);
    }

    /// Overwrites the destination connection ID with fresh pseudorandom bytes.
    pub fn randomize_dcid(&mut self, rng: &mut SplitMix64)
        requires
            old(self).has_dcid(),
        ensures
            final(rng).0 == crate::rng::state_after(old(rng).0, 3),
            final(self).dcid_offset == old(self).dcid_offset,
            final(self).bytes@ == crate::bytes::overwrite(
                old(self).bytes@,
                old(self).dcid_offset as int,
                dcid_from(old(rng).0, vstd::endian::endianness()),
            ),
    {
        let ghost state = rng.0;
        proof {
            reveal_with_fuel(crate::rng::state_after, 4);
        }
        let mut dcid: [u8; TOKEN_LEN] = [0u8; TOKEN_LEN];
        write_array(&mut dcid, 0, &u64_to_native(rng.next()));
        write_array(&mut dcid, 8, &u64_to_native(rng.next()));
        let last = u64_to_native(rng.next());
        write_array(&mut dcid, 16, slice_subrange(&last, 0, 4));
        assert(dcid@ =~= dcid_from(state, vstd::endian::endianness()));
        self.set_dcid(&dcid);
    }
}

/// How many senders to start: as many as requested, or one for each processor
/// where none were.
pub fn sender_count(requested: Option<usize>, processors: usize) -> (count: usize)
    ensures
        count == (if requested is Some && requested != Some(0usize) {
            requested.unwrap()
        } else {
            processors
        }),
{
    match requested {
        Some(0) | None => processors,
        Some(n) => n,
    }
}

/// The rate of each of `senders`, in packets per second: an equal share of
/// `pps`, but never none of it. Zero stands for no limit.
pub fn sender_pps(pps: u64, senders: usize) -> (rate: u64)
    requires
        senders > 0,
    ensures
        rate == (if pps == 0 {
            0
        } else if pps < senders {
            1
        } else {
            pps as int / senders as int
        }),
{
    if pps == 0 {
        return 0;
    }
    let share = pps / senders as u64;
    proof {
        vstd::arithmetic::div_mod::lemma_fundamental_div_mod(pps as int, senders as int);
        if pps < senders {
            vstd::arithmetic::div_mod::lemma_basic_div(pps as int, senders as int);
        } else {
            vstd::arithmetic::div_mod::lemma_div_non_zero(pps as int, senders as int);
        }
    }
    if share < 1 {
        1
    } else {
        share
    }
}

/// The seeds of `senders` senders: the first words of one generator.
pub fn sender_seeds(senders: usize) -> (seeds: Vec<u64>)
    ensures
        seeds@ == Seq::new(senders as nat, |i: int| crate::rng::word(SEED, i as nat)),
{
    let mut rng = SplitMix64(SEED);
    let mut seeds: Vec<u64> = Vec::new();
    let mut i: usize = 0;
    while i < senders
        invariant
            i <= senders,
            rng.0 == crate::rng::state_after(SEED, i as nat),
            seeds@ == Seq::new(i as nat, |j: int| crate::rng::word(SEED, j as nat)),
        decreases senders - i,
    {
        let seed = rng.next();
        seeds.push(seed);
        i = i + 1;
        assert(seeds@ =~= Seq::new(i as nat, |j: int| crate::rng::word(SEED, j as nat)));
    }
    seeds
}

/// The address that a sender binds: any address and port of the family of its
/// target.
pub fn bind_address(target: IpAddr) -> (address: &'static str)
    ensures
        target is V4 ==> address@ == "0.0.0.0:0"@,
        target is V6 ==> address@ == "[::]:0"@,
{
    match target {
        IpAddr::V4(_) => "0.0.0.0:0",
        IpAddr::V6(_) => "[::]:0",
    }
}

/// What the senders have done so far. The counters wrap.
#[derive(Debug, Clone, Copy, PartialEq, Eq)]
pub struct BlastStats {
    pub sent: u64,
    pub bytes: u64,
    pub errors: u64,
}

impl BlastStats {
    /// `self` with one more send counted.
    pub open spec fn after(self, outcome: Option<usize>) -> BlastStats {
        match outcome {
            Some(n) => BlastStats {
                sent: wrapped(self.sent + 1),
                bytes: wrapped(self.bytes + n),
                ..self
            },
            None => BlastStats { errors: wrapped(self.errors + 1), ..self },
        }
    }

    /// Nothing done yet.
    pub fn new() -> (stats: BlastStats)
        ensures
            stats.sent == 0,
            stats.bytes == 0,
            stats.errors == 0,
    {
        BlastStats { sent: 0, bytes: 0, errors: 0 }
    }

    /// Counts one send: of `Some` number of bytes, or failed. A failure says
    /// nothing about the target and does not end the run.
    pub fn record(&mut self, outcome: Option<usize>)
        ensures
            *final(self) == old(self).after(outcome),
    {
        match outcome {
            Some(n) => {
                self.sent = self.sent.wrapping_add(1);
                self.bytes = self.bytes.wrapping_add(n as u64);
            },
            None => {
                self.errors = self.errors.wrapping_add(1);
            },
        }
    }
}

/// When a sender has to have sent how much.
#[derive(Debug, Clone, Copy, PartialEq, Eq)]
pub struct Schedule {
    /// Packets sent since the start.
    pub packets: u64,
    /// Packets per second that this may be at most.
    pub per_second: u64,
}

/// Paces one sender against an absolute schedule, so the rate does not drift.
#[derive(Debug, Clone, Copy, PartialEq, Eq)]
pub struct Pacer {
    /// Packets sent in the batches so far.
    pub sent: u64,
    /// The rate kept, in packets per second; zero is no limit.
    pub pps: u64,
}

impl Pacer {
    /// A pacer that has sent nothing and keeps `pps` packets per second, or as
    /// many as the machine allows where that is zero.
    pub fn new(pps: u64) -> (pacer: Pacer)
        ensures
            pacer.sent == 0,
            pacer.pps == pps,
    {
        Pacer { sent: 0, pps }
    }

    /// Counts one batch, and says what the sender has to wait for, if anything.
    pub fn batch_sent(&mut self) -> (wait: Option<Schedule>)
        requires
            old(self).sent + BATCH <= u64::MAX,
        ensures
            final(self).sent == old(self).sent + BATCH,
            final(self).pps == old(self).pps,
            wait == (if old(self).pps > 0 {
                Some(Schedule { packets: final(self).sent, per_second: old(self).pps })
            } else {
                None
            }),
    {
        self.sent = self.sent + BATCH;
        if self.pps > 0 {
            Some(Schedule { packets: self.sent, per_second: self.pps })
        } else {
            None
        }
    }
}

/// What a sender does next.
#[derive(Debug, Clone, Copy, PartialEq, Eq)]
pub enum BlastAction {
    /// Send the datagram as it stands, and report the outcome.
    Send,
    /// Wait until the schedule allows what was sent, then look at the stop flag.
    Wait(Schedule),
    /// Look at the stop flag.
    CheckStop,
    /// End the run.
    Stop,
}

/// One sender: batches of datagrams that differ in their destination connection
/// ID, with a look at the stop flag and the schedule between two batches.
pub struct Sender {
    pub template: InitialTemplate,
    pub rng: SplitMix64,
    pub pacer: Pacer,
    /// Datagrams of the current batch whose outcome is known.
    pub in_batch: u64,
}

impl Sender {
    /// Whether the datagram has a connection ID to rewrite and the batch is not
    /// over.
    pub open spec fn is_valid(self) -> bool {
        self.template.has_dcid() && self.in_batch < BATCH
    }

    /// Datagrams whose outcome is known, over the whole run.
    pub open spec fn attempts(self) -> int {
        self.pacer.sent + self.in_batch
    }

    /// Whether `self` is `before` with the next connection ID in its datagram.
    pub open spec fn is_redrawn_from(self, before: Sender) -> bool {
        &&& self.rng.0 == crate::rng::state_after(before.rng.0, 3)
        &&& self.template.dcid_offset == before.template.dcid_offset
        &&& self.template.bytes@ == crate::bytes::overwrite(
            before.template.bytes@,
            before.template.dcid_offset as int,
            dcid_from(before.rng.0, vstd::endian::endianness()),
        )
    }

    /// Whether `self` sends `size`-byte datagrams at `pps` packets per second, with
    /// connection IDs drawn from `seed`, and has sent nothing.
    pub open spec fn is_fresh(self, size: usize, pps: u64, seed: u64) -> bool {
        &&& self.template.bytes@ == initial_bytes(size as int)
        &&& self.template.dcid_offset == DCID_OFFSET
        &&& self.rng.0 == seed
        &&& self.pacer == (Pacer { sent: 0, pps })
        &&& self.in_batch == 0
    }

    /// Whether `self` is `before` at the begin of a batch, with its first datagram
    /// ready.
    pub open spec fn is_begun_from(self, before: Sender) -> bool {
        &&& self.pacer == before.pacer
        &&& self.in_batch == 0
        &&& self.is_redrawn_from(before)
    }

    /// Whether `self` is `before` with one more outcome known: with the next
    /// datagram of the batch ready, or with the batch over.
    pub open spec fn is_past(self, before: Sender) -> bool {
        &&& self.attempts() == before.attempts() + 1
        &&& self.pacer.pps == before.pacer.pps
        &&& if before.in_batch + 1 < BATCH {
            &&& self.pacer == before.pacer
            &&& self.is_redrawn_from(before)
        } else {
            &&& self.in_batch == 0
            &&& self.template == before.template
            &&& self.rng == before.rng
        }
    }

    /// A sender of `size`-byte datagrams at `pps` packets per second, that has
    /// sent nothing.
    pub fn new(size: usize, pps: u64, seed: u64) -> (sender: Result<Sender, TemplateError>)
        requires
            size <= MAX_INITIAL_DATAGRAM || size > MAX_UDP_DATAGRAM,
        ensures
            match sender {
                Ok(sender) => MIN_INITIAL_DATAGRAM <= size <= MAX_UDP_DATAGRAM && sender.is_valid()
                    && sender.is_fresh(size, pps, seed),
                Err(TemplateError::TooSmall(given)) => size < MIN_INITIAL_DATAGRAM && given == size,
                Err(TemplateError::TooLarge(given)) => size > MAX_UDP_DATAGRAM && given == size,
            },
    {
        match InitialTemplate::new(size) {
            Err(e) => Err(e),
            Ok(template) => Ok(
                Sender { template, rng: SplitMix64(seed), pacer: Pacer::new(pps), in_batch: 0 },
            ),
        }
    }

    /// Begins a batch while the run goes on, and ends the run once it does not.
    pub fn begin_batch(&mut self, running: bool) -> (action: BlastAction)
        requires
            old(self).is_valid(),
            old(self).in_batch == 0,
        ensures
            final(self).is_valid(),
            if running {
                &&& action == BlastAction::Send
                &&& final(self).is_begun_from(*old(self))
            } else {
                &&& action == BlastAction::Stop
                &&& *final(self) == *old(self)
            },
    {
        if !running {
            return BlastAction::Stop;
        }
        self.template.randomize_dcid(&mut self.rng);
        BlastAction::Send
    }

    /// Counts the outcome of one send, and goes on with the batch or with the
    /// schedule once the batch is over.
    pub fn sent(&mut self, outcome: Option<usize>, stats: &mut BlastStats) -> (action: BlastAction)
        requires
            old(self).is_valid(),
            old(self).in_batch + 1 == BATCH ==> old(self).pacer.sent + BATCH <= u64::MAX,
        ensures
            final(self).is_valid(),
            final(self).is_past(*old(self)),
            *final(stats) == old(stats).after(outcome),
            action == (if old(self).in_batch + 1 < BATCH {
                BlastAction::Send
            } else if old(self).pacer.pps > 0 {
                BlastAction::Wait(
                    Schedule { packets: final(self).pacer.sent, per_second: old(self).pacer.pps },
                )
            } else {
                BlastAction::CheckStop
            }),
    {
        stats.record(outcome);
        if self.in_batch + 1 < BATCH {
            self.in_batch = self.in_batch + 1;
            self.template.randomize_dcid(&mut self.rng);
            return BlastAction::Send;
        }
        self.in_batch = 0;
        match self.pacer.batch_sent() {
            Some(schedule) => BlastAction::Wait(schedule),
            None => BlastAction::CheckStop,
        }
    }
}

/// What happened between two looks at growing counters.
#[derive(Debug, Clone, Copy, PartialEq, Eq)]
pub struct RateMeter {
    /// The packets counted at the last look.
    pub sent: u64,
    /// The bytes counted at the last look.
    pub bytes: u64,
}

impl RateMeter {
    /// A meter that starts from zero.
    pub fn new() -> (meter: RateMeter)
        ensures
            meter.sent == 0,
            meter.bytes == 0,
    {
        RateMeter { sent: 0, bytes: 0 }
    }

    /// The packets and bytes since the last look.
    pub fn tick(&mut self, stats: BlastStats) -> (since: (u64, u64))
        requires
            old(self).sent <= stats.sent,
            old(self).bytes <= stats.bytes,
        ensures
            since.0 == stats.sent - old(self).sent,
            since.1 == stats.bytes - old(self).bytes,
            final(self).sent == stats.sent,
            final(self).bytes == stats.bytes,
    {
        let since = (stats.sent - self.sent, stats.bytes - self.bytes);
        self.sent = stats.sent;
        self.bytes = stats.bytes;
        since
    }
}

} // verus!
