//! What calls on the load generator give.
//!
//! Each law speaks of every result that a call can have, and of nothing but the
//! call's arguments and that result.

use vstd::endian::Endian;
use vstd::prelude::*;

use crate::blaster::{
    bind_address, initial_bytes, sender_count, sender_pps, sender_seeds, BlastAction, BlastStats,
    InitialTemplate, Pacer, RateMeter, Schedule, Sender, TemplateError,
};
use crate::bytes::{bytes64, bytes64_injective};
use crate::net::IpAddr;
use crate::rng::{
    mix_is_injective, state_after, state_after_is_linear, word, words_do_not_repeat, SplitMix64,
};

verus! {

/// Byte `i` of a 64-bit integer, counted from the least significant.
proof fn bytes_are_digits_to_base_256(value: u64)
    ensures
        crate::bytes::byte_of(value, 0) == value % 0x100,
        crate::bytes::byte_of(value, 1) == value / 0x100 % 0x100,
        crate::bytes::byte_of(value, 2) == value / 0x1_0000 % 0x100,
        crate::bytes::byte_of(value, 3) == value / 0x100_0000 % 0x100,
        crate::bytes::byte_of(value, 4) == value / 0x1_0000_0000 % 0x100,
        crate::bytes::byte_of(value, 5) == value / 0x100_0000_0000 % 0x100,
        crate::bytes::byte_of(value, 6) == value / 0x1_0000_0000_0000 % 0x100,
        crate::bytes::byte_of(value, 7) == value / 0x100_0000_0000_0000 % 0x100,
{
    assert((value >> 0u64) as u8 == value % 0x100) by (bit_vector);
    assert((value >> 8u64) as u8 == value / 0x100 % 0x100) by (bit_vector);
    assert((value >> 16u64) as u8 == value / 0x1_0000 % 0x100) by (bit_vector);
    assert((value >> 24u64) as u8 == value / 0x100_0000 % 0x100) by (bit_vector);
    assert((value >> 32u64) as u8 == value / 0x1_0000_0000 % 0x100) by (bit_vector);
    assert((value >> 40u64) as u8 == value / 0x100_0000_0000 % 0x100) by (bit_vector);
    assert((value >> 48u64) as u8 == value / 0x1_0000_0000_0000 % 0x100) by (bit_vector);
    assert((value >> 56u64) as u8 == value / 0x100_0000_0000_0000 % 0x100) by (bit_vector);
}

/// The eight bytes of an integer are its digits to base 256, from either end.
pub proof fn eight_bytes_are_digits(value: u64, order: Endian)
    ensures
        ({
            let bytes = bytes64(value, order);
            let digit = |i: int|
                if order == Endian::Little {
                    bytes[i]
                } else {
                    bytes[7 - i]
                };
            &&& bytes.len() == 8
            &&& digit(0) == value % 0x100
            &&& digit(1) == value / 0x100 % 0x100
            &&& digit(2) == value / 0x1_0000 % 0x100
            &&& digit(3) == value / 0x100_0000 % 0x100
            &&& digit(4) == value / 0x1_0000_0000 % 0x100
            &&& digit(5) == value / 0x100_0000_0000 % 0x100
            &&& digit(6) == value / 0x1_0000_0000_0000 % 0x100
            &&& digit(7) == value / 0x100_0000_0000_0000 % 0x100
        }),
{
    bytes_are_digits_to_base_256(value);
}

/// The generator adds its constant to its state, and puts out that state mixed by
/// three shifts and two multiplications.
pub proof fn words_are_mixed_states(rng: &mut SplitMix64, word: u64)
    requires
        call_ensures(SplitMix64::next, (rng,), word),
    ensures
        final(rng).0 == (old(rng).0 + 0x9e37_79b9_7f4a_7c15) % 0x1_0000_0000_0000_0000,
        ({
            let z = final(rng).0;
            let a = (((z ^ (z >> 30u64)) * 0xbf58_476d_1ce4_e5b9) % 0x1_0000_0000_0000_0000) as u64;
            let b = (((a ^ (a >> 27u64)) * 0x94d0_49bb_1331_11eb) % 0x1_0000_0000_0000_0000) as u64;
            word == b ^ (b >> 31u64)
        }),
{
}

/// A template of every size that can be built reads back as a version 1 Initial of
/// exactly that size, field by field; every other size is refused by its name.
#[verifier::spinoff_prover]
#[verifier::rlimit(40)]
pub proof fn templates_read_back_as_initials(
    size: usize,
    template: Result<InitialTemplate, TemplateError>,
)
    requires
        size <= 16433 || size > 65535,
        call_ensures(InitialTemplate::new, (size,), template),
    ensures
        template is Ok <==> 1200 <= size <= 16433,
        size < 1200 ==> template == Err::<InitialTemplate, TemplateError>(
            TemplateError::TooSmall(size),
        ),
        size > 65535 ==> template == Err::<InitialTemplate, TemplateError>(
            TemplateError::TooLarge(size),
        ),
        template matches Ok(built) ==> {
            let bytes = built.bytes@;
            &&& bytes.len() == size
            &&& built.dcid_offset == 6
            &&& bytes[0] == 0xc3
            &&& bytes[1] * 0x100_0000 + bytes[2] * 0x1_0000 + bytes[3] * 0x100 + bytes[4] == 1
            &&& bytes[5] == 20
            &&& forall|i: int| 6 <= i < 26 ==> #[trigger] bytes[i] == 0
            &&& bytes[26] == 20
            &&& forall|i: int| 27 <= i < 47 ==> #[trigger] bytes[i] == 0x5a
            &&& bytes[47] == 0
            &&& bytes[48] / 64 == 1
            &&& bytes[48] % 64 * 256 + bytes[49] == size - 50
            &&& forall|i: int| 50 <= i < 54 ==> #[trigger] bytes[i] == 0
            &&& forall|i: int| 54 <= i < size ==> #[trigger] bytes[i] == 0x42
        },
{
    if let Ok(built) = template {
        let bytes = built.bytes@;
        assert(bytes == initial_bytes(size as int));
        let length = (0x4000 + size - 50) as u16;
        assert(length == 0x4000 + size - 50);
        assert(bytes[48] == (length / 256) as u8);
        assert(bytes[49] == (length % 256) as u8);
        assert((length / 256) as u8 == length / 256);
        assert((length % 256) as u8 == length % 256);
    }
}

/// Writing a connection ID replaces the twenty bytes at the template's offset, each
/// by its own, and nothing else.
#[verifier::spinoff_prover]
#[verifier::rlimit(40)]
pub proof fn only_the_connection_id_is_written(template: &mut InitialTemplate, dcid: &[u8; 20])
    requires
        old(template).dcid_offset + 20 <= old(template).bytes@.len(),
        call_ensures(InitialTemplate::set_dcid, (template, dcid), ()),
    ensures
        final(template).dcid_offset == old(template).dcid_offset,
        final(template).bytes@.len() == old(template).bytes@.len(),
        forall|i: int|
            0 <= i < old(template).bytes@.len() ==> #[trigger] final(template).bytes@[i] == (
            if old(template).dcid_offset <= i < old(template).dcid_offset + 20 {
                dcid@[i - old(template).dcid_offset]
            } else {
                old(template).bytes@[i]
            }),
{
}

/// Redrawing a connection ID writes the bytes of the next three words of the
/// generator, the last one cut in half, over the twenty bytes at the template's
/// offset, and nothing else.
#[verifier::spinoff_prover]
#[verifier::rlimit(40)]
pub proof fn connection_ids_are_three_words(
    template: &mut InitialTemplate,
    rng: &mut SplitMix64,
    first: &mut SplitMix64,
    second: &mut SplitMix64,
    third: &mut SplitMix64,
    a: u64,
    b: u64,
    c: u64,
)
    requires
        old(template).dcid_offset + 20 <= old(template).bytes@.len(),
        call_ensures(InitialTemplate::randomize_dcid, (template, rng), ()),
        old(first).0 == old(rng).0,
        call_ensures(SplitMix64::next, (first,), a),
        old(second).0 == final(first).0,
        call_ensures(SplitMix64::next, (second,), b),
        old(third).0 == final(second).0,
        call_ensures(SplitMix64::next, (third,), c),
    ensures
        final(rng).0 == final(third).0,
        final(template).dcid_offset == old(template).dcid_offset,
        final(template).bytes@.len() == old(template).bytes@.len(),
        ({
            let order = vstd::endian::endianness();
            let start = old(template).dcid_offset as int;
            let bytes = final(template).bytes@;
            &&& bytes.subrange(start, start + 8) == bytes64(a, order)
            &&& bytes.subrange(start + 8, start + 16) == bytes64(b, order)
            &&& bytes.subrange(start + 16, start + 20) == bytes64(c, order).subrange(0, 4)
            &&& bytes.subrange(0, start) == old(template).bytes@.subrange(0, start)
            &&& bytes.subrange(start + 20, bytes.len() as int) == old(template).bytes@.subrange(
                start + 20,
                bytes.len() as int,
            )
        }),
{
    reveal_with_fuel(state_after, 4);
    let order = vstd::endian::endianness();
    let state = old(rng).0;
    assert(word(state, 0) == a);
    assert(word(state, 1) == b);
    assert(word(state, 2) == c);
    let start = old(template).dcid_offset as int;
    let bytes = final(template).bytes@;
    let before = old(template).bytes@;
    assert(bytes.subrange(start, start + 8) =~= bytes64(a, order));
    assert(bytes.subrange(start + 8, start + 16) =~= bytes64(b, order));
    assert(bytes.subrange(start + 16, start + 20) =~= bytes64(c, order).subrange(0, 4));
    assert(bytes.subrange(0, start) =~= before.subrange(0, start));
    assert(bytes.subrange(start + 20, bytes.len() as int) =~= before.subrange(
        start + 20,
        bytes.len() as int,
    ));
}

/// The first eight bytes of what is drawn tell the state it was drawn from.
proof fn first_words_tell_states_apart(s: u64, t: u64, order: Endian)
    requires
        bytes64(word(s, 0), order) == bytes64(word(t, 0), order),
    ensures
        s == t,
{
    bytes64_injective(word(s, 0), word(t, 0), order);
    reveal_with_fuel(state_after, 2);
    mix_is_injective(state_after(s, 1), state_after(t, 1));
    assert((s + crate::rng::GAMMA) % 0x1_0000_0000_0000_0000 == (t + crate::rng::GAMMA)
        % 0x1_0000_0000_0000_0000);
}

/// What is written starts with the first eight bytes of what was drawn.
proof fn writes_start_with_the_first_word(bytes: Seq<u8>, at: int, state: u64, order: Endian)
    requires
        0 <= at,
        at + 20 <= bytes.len(),
    ensures
        crate::bytes::overwrite(bytes, at, crate::blaster::dcid_from(state, order)).subrange(
            at,
            at + 8,
        ) == bytes64(word(state, 0), order),
{
    assert(crate::bytes::overwrite(bytes, at, crate::blaster::dcid_from(state, order)).subrange(
        at,
        at + 8,
    ) =~= bytes64(word(state, 0), order));
}

/// Generators in different states draw different connection IDs.
#[verifier::spinoff_prover]
pub proof fn different_states_draw_different_cids(
    a: &mut InitialTemplate,
    rng_a: &mut SplitMix64,
    b: &mut InitialTemplate,
    rng_b: &mut SplitMix64,
)
    requires
        *old(a) == *old(b),
        old(a).dcid_offset + 20 <= old(a).bytes@.len(),
        call_ensures(InitialTemplate::randomize_dcid, (a, rng_a), ()),
        call_ensures(InitialTemplate::randomize_dcid, (b, rng_b), ()),
        old(rng_a).0 != old(rng_b).0,
    ensures
        final(a).bytes@ != final(b).bytes@,
{
    let order = vstd::endian::endianness();
    let at = old(a).dcid_offset as int;
    writes_start_with_the_first_word(old(a).bytes@, at, old(rng_a).0, order);
    writes_start_with_the_first_word(old(b).bytes@, at, old(rng_b).0, order);
    if final(a).bytes@ == final(b).bytes@ {
        first_words_tell_states_apart(old(rng_a).0, old(rng_b).0, order);
    }
}

/// As many senders are started as were asked for, and one for each processor where
/// none were.
pub proof fn senders_are_as_many_as_asked(requested: Option<usize>, processors: usize, count: usize)
    requires
        call_ensures(sender_count, (requested, processors), count),
    ensures
        requested matches Some(n) ==> n > 0 ==> count == n,
        requested is None || requested == Some(0usize) ==> count == processors,
{
}

/// The senders share the rate equally: together they send no more than was asked
/// for, and fall short by less than one packet each, unless a share is below the
/// one packet that each sends at least. No limit stays no limit.
pub proof fn senders_share_the_rate(pps: u64, senders: usize, rate: u64)
    requires
        senders > 0,
        call_ensures(sender_pps, (pps, senders), rate),
    ensures
        rate == 0 <==> pps == 0,
        pps >= senders ==> rate * senders <= pps < (rate + 1) * senders,
        0 < pps < senders ==> rate == 1,
{
    if pps >= senders {
        vstd::arithmetic::div_mod::lemma_fundamental_div_mod(pps as int, senders as int);
        vstd::arithmetic::div_mod::lemma_div_non_zero(pps as int, senders as int);
        let remainder = pps as int % senders as int;
        assert(rate * senders <= pps && pps < (rate + 1) * senders) by (nonlinear_arith)
            requires
                pps == senders * rate + remainder,
                0 <= remainder < senders,
        ;
    }
}

/// Every sender gets a seed, no two the same, each the next word of one generator
/// that starts from a fixed state.
#[verifier::spinoff_prover]
#[verifier::rlimit(40)]
pub proof fn seeds_are_successive_words(
    senders: usize,
    seeds: Vec<u64>,
    i: int,
    j: int,
    rng: &mut SplitMix64,
    next: u64,
)
    requires
        call_ensures(sender_seeds, (senders,), seeds),
        0 <= i < senders,
        0 <= j < senders,
        old(rng).0 == (0x243f_6a88_85a3_08d3 + i * 0x9e37_79b9_7f4a_7c15)
            % 0x1_0000_0000_0000_0000,
        call_ensures(SplitMix64::next, (rng,), next),
    ensures
        seeds@.len() == senders,
        seeds@[i] == next,
        i != j ==> seeds@[i] != seeds@[j],
{
    let seed: u64 = 0x243f_6a88_85a3_08d3;
    state_after_is_linear(seed, i as nat);
    assert(state_after(seed, i as nat) == old(rng).0);
    if i < j {
        words_do_not_repeat(seed, i as nat, j as nat);
    } else if j < i {
        words_do_not_repeat(seed, j as nat, i as nat);
    }
}

/// A sender binds any address and port of the family of its target.
pub proof fn senders_bind_any_address(target: IpAddr, address: &'static str)
    requires
        call_ensures(bind_address, (target,), address),
    ensures
        target is V4 ==> address@ == seq!['0', '.', '0', '.', '0', '.', '0', ':', '0'],
        target is V6 ==> address@ == seq!['[', ':', ':', ']', ':', '0'],
{
    reveal_strlit("0.0.0.0:0");
    reveal_strlit("[::]:0");
    if target is V4 {
        assert(address@ =~= seq!['0', '.', '0', '.', '0', '.', '0', ':', '0']);
    } else {
        assert(address@ =~= seq!['[', ':', ':', ']', ':', '0']);
    }
}

/// A send that went out adds one and its bytes, and one that did not adds an error;
/// each counter begins anew at 2^64. A meter tells what came since the last look.
pub proof fn outcomes_are_counted_one_by_one(
    fresh: BlastStats,
    stats: &mut BlastStats,
    outcome: Option<usize>,
    unused: RateMeter,
    meter: &mut RateMeter,
    seen: BlastStats,
    since: (u64, u64),
)
    requires
        call_ensures(BlastStats::new, (), fresh),
        call_ensures(BlastStats::record, (stats, outcome), ()),
        call_ensures(RateMeter::new, (), unused),
        call_ensures(RateMeter::tick, (meter, seen), since),
    ensures
        fresh.sent == 0 && fresh.bytes == 0 && fresh.errors == 0,
        unused.sent == 0 && unused.bytes == 0,
        outcome matches Some(n) ==> {
            &&& final(stats).sent == (old(stats).sent + 1) % 0x1_0000_0000_0000_0000
            &&& final(stats).bytes == (old(stats).bytes + n) % 0x1_0000_0000_0000_0000
            &&& final(stats).errors == old(stats).errors
        },
        outcome is None ==> {
            &&& final(stats).sent == old(stats).sent
            &&& final(stats).bytes == old(stats).bytes
            &&& final(stats).errors == (old(stats).errors + 1) % 0x1_0000_0000_0000_0000
        },
        old(meter).sent + since.0 == seen.sent,
        old(meter).bytes + since.1 == seen.bytes,
        final(meter).sent == seen.sent,
        final(meter).bytes == seen.bytes,
{
}

/// A batch is 64 packets. Where a rate is kept, all that was sent so far has to
/// have taken its time at that rate; where none is, nothing is waited for.
pub proof fn batches_are_paced_from_the_start(
    pps: u64,
    fresh: Pacer,
    pacer: &mut Pacer,
    wait: Option<Schedule>,
)
    requires
        call_ensures(Pacer::new, (pps,), fresh),
        call_ensures(Pacer::batch_sent, (pacer,), wait),
    ensures
        fresh.sent == 0 && fresh.pps == pps,
        final(pacer).sent == old(pacer).sent + 64,
        final(pacer).pps == old(pacer).pps,
        wait is None <==> old(pacer).pps == 0,
        wait matches Some(schedule) ==> schedule.packets == old(pacer).sent + 64
            && schedule.per_second == old(pacer).pps,
{
}

/// A sender starts with the template of its size, its seed and its rate, or fails
/// as the template does.
pub proof fn senders_start_from_their_template(
    size: usize,
    pps: u64,
    seed: u64,
    sender: Result<Sender, TemplateError>,
    template: Result<InitialTemplate, TemplateError>,
)
    requires
        size <= 16433 || size > 65535,
        call_ensures(Sender::new, (size, pps, seed), sender),
        call_ensures(InitialTemplate::new, (size,), template),
    ensures
        sender is Ok <==> template is Ok,
        sender matches Err(e) ==> template == Err::<InitialTemplate, TemplateError>(e),
        sender matches Ok(started) ==> {
            &&& template matches Ok(built)
            &&& started.template.bytes@ == built.bytes@
            &&& started.template.dcid_offset == built.dcid_offset
            &&& started.rng.0 == seed
            &&& started.pacer.sent == 0
            &&& started.pacer.pps == pps
            &&& started.in_batch == 0
        },
{
}

/// A batch begins with a redrawn connection ID while the run goes on, and the run
/// stops without one more where it does not.
#[verifier::spinoff_prover]
#[verifier::rlimit(40)]
pub proof fn batches_begin_with_a_redraw(
    sender: &mut Sender,
    running: bool,
    action: BlastAction,
    template: &mut InitialTemplate,
    rng: &mut SplitMix64,
)
    requires
        call_ensures(Sender::begin_batch, (sender, running), action),
        old(sender).in_batch == 0,
        *old(template) == old(sender).template,
        old(rng).0 == old(sender).rng.0,
        call_ensures(InitialTemplate::randomize_dcid, (template, rng), ()),
    ensures
        running ==> {
            &&& action is Send
            &&& final(sender).template.bytes@ == final(template).bytes@
            &&& final(sender).template.dcid_offset == final(template).dcid_offset
            &&& final(sender).rng.0 == final(rng).0
        },
        !running ==> action is Stop && *final(sender) == *old(sender),
        final(sender).pacer == old(sender).pacer,
        final(sender).in_batch == 0,
{
}

/// The outcome of every send is counted. Within a batch of 64 the next connection
/// ID is drawn and sent at once; after the last of them the sender waits for its
/// schedule if it keeps a rate, and looks at the stop flag.
#[verifier::spinoff_prover]
#[verifier::rlimit(40)]
pub proof fn batches_are_64_redraws_long(
    sender: &mut Sender,
    outcome: Option<usize>,
    stats: &mut BlastStats,
    action: BlastAction,
    counted: &mut BlastStats,
    template: &mut InitialTemplate,
    rng: &mut SplitMix64,
)
    requires
        old(sender).in_batch < 64,
        call_ensures(Sender::sent, (sender, outcome, stats), action),
        *old(counted) == *old(stats),
        call_ensures(BlastStats::record, (counted, outcome), ()),
        *old(template) == old(sender).template,
        old(rng).0 == old(sender).rng.0,
        call_ensures(InitialTemplate::randomize_dcid, (template, rng), ()),
    ensures
        *final(stats) == *final(counted),
        final(sender).pacer.pps == old(sender).pacer.pps,
        old(sender).in_batch < 63 ==> {
            &&& action is Send
            &&& final(sender).in_batch == old(sender).in_batch + 1
            &&& final(sender).pacer.sent == old(sender).pacer.sent
            &&& final(sender).template.bytes@ == final(template).bytes@
            &&& final(sender).template.dcid_offset == final(template).dcid_offset
            &&& final(sender).rng.0 == final(rng).0
        },
        old(sender).in_batch == 63 ==> {
            &&& final(sender).in_batch == 0
            &&& final(sender).pacer.sent == old(sender).pacer.sent + 64
            &&& final(sender).template == old(sender).template
            &&& final(sender).rng == old(sender).rng
            &&& old(sender).pacer.pps == 0 ==> action is CheckStop
            &&& old(sender).pacer.pps > 0 ==> (action matches BlastAction::Wait(schedule)
                && schedule.packets == old(sender).pacer.sent + 64 && schedule.per_second
                == old(sender).pacer.pps)
        },
{
}

} // verus!
