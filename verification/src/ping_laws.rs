//! What calls on pings, on the set-up of the two ends and on messages give.
//!
//! Each law speaks of every result that a call can have, and of nothing but the
//! call's arguments and that result.

use vstd::endian::Endian;
use vstd::prelude::*;

use crate::auth::AuthError;
use crate::blast_laws::eight_bytes_are_digits;
use crate::blaster::TemplateError;
use crate::bytes::be64;
use crate::endpoint::{serve_step, AcceptOutcome, ServeAction};
use crate::ping::{
    check_echo, ping_payload, sum, summarize, total, EchoMismatch, PingRun, PingStep, RttSummary,
    ALPN, IDLE_TIMEOUT_SECS, KEEP_ALIVE_INTERVAL_SECS, MAX_PING_BYTES,
};
use crate::text::{decimal_of, digit_char, hex_of};
use crate::tls::{refusal, store_anchors, trust_anchor, trusted_roots, UnreadableCertificate};

verus! {

/// Both ends speak `pktauth-ping/1`, in payloads of at most 64 KiB, over
/// connections that are dropped after 30 idle seconds and kept alive every 5.
pub proof fn both_ends_agree_on_the_protocol()
    ensures
        ALPN@ == seq![
            'p' as u8, 'k' as u8, 't' as u8, 'a' as u8, 'u' as u8, 't' as u8, 'h' as u8,
            '-' as u8, 'p' as u8, 'i' as u8, 'n' as u8, 'g' as u8, '/' as u8, '1' as u8,
        ],
        MAX_PING_BYTES == 65536,
        IDLE_TIMEOUT_SECS == 30,
        KEEP_ALIVE_INTERVAL_SECS == 5,
{
    assert(ALPN@ =~= seq![
        'p' as u8, 'k' as u8, 't' as u8, 'a' as u8, 'u' as u8, 't' as u8, 'h' as u8,
        '-' as u8, 'p' as u8, 'i' as u8, 'n' as u8, 'g' as u8, '/' as u8, '1' as u8,
    ]);
}

/// A payload has the size asked for: first the digits of its sequence number to
/// base 256, the most significant first, as far as they fit; then a count from 0
/// that begins anew after 250.
pub proof fn payloads_are_sequence_number_and_count(seq: u64, size: usize, payload: Vec<u8>)
    requires
        size <= isize::MAX,
        call_ensures(ping_payload, (seq, size), payload),
    ensures
        payload@.len() == size,
        size > 0 ==> payload@[0] == seq / 0x100_0000_0000_0000 % 0x100,
        size > 1 ==> payload@[1] == seq / 0x1_0000_0000_0000 % 0x100,
        size > 2 ==> payload@[2] == seq / 0x100_0000_0000 % 0x100,
        size > 3 ==> payload@[3] == seq / 0x1_0000_0000 % 0x100,
        size > 4 ==> payload@[4] == seq / 0x100_0000 % 0x100,
        size > 5 ==> payload@[5] == seq / 0x1_0000 % 0x100,
        size > 6 ==> payload@[6] == seq / 0x100 % 0x100,
        size > 7 ==> payload@[7] == seq % 0x100,
        forall|i: int| 8 <= i < size ==> #[trigger] payload@[i] == (i - 8) % 251,
{
    eight_bytes_are_digits(seq, Endian::Big);
    assert(be64(seq) == crate::bytes::bytes64(seq, Endian::Big));
}

/// An echo is good exactly if it is as long as the payload and agrees with it
/// everywhere; a bad one is reported with both.
pub proof fn only_the_same_bytes_are_an_echo(
    payload: &[u8],
    echoed: Vec<u8>,
    result: Result<(), EchoMismatch>,
)
    requires
        call_ensures(check_echo, (payload, echoed), result),
    ensures
        result is Ok <==> echoed@.len() == payload@.len() && forall|i: int|
            0 <= i < payload@.len() ==> #[trigger] echoed@[i] == payload@[i],
        result matches Err(mismatch) ==> mismatch.sent@ == payload@ && mismatch.echoed@ == echoed@,
{
    if echoed@.len() == payload@.len() && forall|i: int|
        0 <= i < payload@.len() ==> #[trigger] echoed@[i] == payload@[i] {
        assert(echoed@ =~= payload@);
    }
}

/// A run starts with nothing sent. It goes on while fewer pings were sent than
/// asked for, or for ever where none were; the first ping goes out at once and each
/// other after the interval, if there is one. What came of a ping is either a time
/// that is noted behind the others or one more lost.
pub proof fn runs_send_what_was_asked_for(
    count: u64,
    interval: u64,
    fresh: PingRun,
    run: PingRun,
    step: Option<PingStep>,
    going: &mut PingRun,
    rtt: Option<u128>,
)
    requires
        call_ensures(PingRun::new, (count, interval), fresh),
        call_ensures(PingRun::next, (&run,), step),
        call_ensures(PingRun::record, (going, rtt), ()),
    ensures
        fresh.count == count && fresh.interval_ms == interval && fresh.seq == 0 && fresh.lost == 0
            && fresh.rtts@.len() == 0,
        step is None <==> run.count > 0 && run.seq >= run.count,
        step matches Some(ping) ==> {
            &&& ping.seq == run.seq
            &&& ping.delay_ms is None <==> run.seq == 0 || run.interval_ms == 0
            &&& ping.delay_ms matches Some(delay) ==> delay == run.interval_ms
        },
        final(going).count == old(going).count,
        final(going).interval_ms == old(going).interval_ms,
        final(going).seq == old(going).seq + 1,
        rtt is None ==> final(going).lost == old(going).lost + 1 && final(going).rtts@ == old(
            going,
        ).rtts@,
        rtt matches Some(time) ==> {
            &&& final(going).lost == old(going).lost
            &&& final(going).rtts@.len() == old(going).rtts@.len() + 1
            &&& final(going).rtts@[old(going).rtts@.len() as int] == time
            &&& forall|i: int|
                0 <= i < old(going).rtts@.len() ==> #[trigger] final(going).rtts@[i] == old(
                    going,
                ).rtts@[i]
        },
{
}

/// Sums of times: nothing of none, and each adds itself.
pub proof fn times_add_up(times: Seq<u128>, more: u128)
    ensures
        sum(Seq::<u128>::empty()) == 0,
        sum(times.push(more)) == sum(times) + more,
{
    assert(times.push(more).drop_last() =~= times);
}

/// A total is the sum of its times, unless that is longer than a `Duration` can
/// be.
pub proof fn totals_are_sums(times: &Vec<u128>, all: Option<u128>)
    requires
        call_ensures(total, (times,), all),
    ensures
        all is Some <==> sum(times@) < 0x1_0000_0000_0000_0000 * 1_000_000_000,
        all matches Some(sum_of_all) ==> sum_of_all == sum(times@),
{
}

/// What is reported of some times lies between them: the least and the greatest are
/// among them, no time lies outside, and as many times the mean is their sum, but
/// for less than one nanosecond each.
pub proof fn summaries_lie_between_the_times(times: &Vec<u128>, summary: Option<RttSummary>)
    requires
        sum(times@) < 0x1_0000_0000_0000_0000 * 1_000_000_000,
        call_ensures(summarize, (times,), summary),
    ensures
        summary is Some <==> times@.len() > 0,
        summary matches Some(told) ==> {
            &&& exists|i: int| 0 <= i < times@.len() && #[trigger] times@[i] == told.min
            &&& exists|i: int| 0 <= i < times@.len() && #[trigger] times@[i] == told.max
            &&& forall|i: int|
                0 <= i < times@.len() ==> told.min <= #[trigger] times@[i] <= told.max
            &&& told.avg * times@.len() <= sum(times@) < (told.avg + 1) * times@.len()
        },
{
    if let Some(told) = summary {
        let (all, n) = (sum(times@), times@.len() as int);
        assert(exists|i: int| 0 <= i < times@.len() && #[trigger] times@[i] == told.min);
        assert(exists|i: int| 0 <= i < times@.len() && #[trigger] times@[i] == told.max);
        vstd::arithmetic::div_mod::lemma_fundamental_div_mod(all, n);
        let (mean, rest) = (all / n, all % n);
        assert(mean * n <= all && all < (mean + 1) * n) by (nonlinear_arith)
            requires
                all == n * mean + rest,
                0 <= rest < n,
        ;
        assert(told.avg == mean);
    }
}

/// A connection is served stream by stream until it is closed: by either end that
/// is the end of the service, and by anything else a failure.
pub proof fn service_ends_with_the_connection(outcome: AcceptOutcome, action: ServeAction)
    requires
        call_ensures(serve_step, (outcome,), action),
    ensures
        outcome == AcceptOutcome::Opened ==> action == ServeAction::Echo,
        outcome == AcceptOutcome::ApplicationClosed ==> action == ServeAction::Stop,
        outcome == AcceptOutcome::ConnectionClosed ==> action == ServeAction::Stop,
        outcome == AcceptOutcome::LocallyClosed ==> action == ServeAction::Stop,
        outcome == AcceptOutcome::Failed ==> action == ServeAction::Fail,
{
}

/// A client trusts one anchor for each certificate it was given, that of the
/// certificate and in its place, and no other; the first certificate that cannot be
/// read is reported instead, with what it is refused with.
pub proof fn clients_trust_exactly_what_they_pin(
    certificates: &Vec<Vec<u8>>,
    roots: Result<rustls::RootCertStore, UnreadableCertificate>,
)
    requires
        call_ensures(trusted_roots, (certificates,), roots),
    ensures
        roots is Ok <==> forall|i: int|
            0 <= i < certificates@.len() ==> trust_anchor(#[trigger] certificates@[i]@) is Some,
        roots matches Ok(store) ==> {
            &&& store_anchors(store).len() == certificates@.len()
            &&& forall|i: int|
                0 <= i < certificates@.len() ==> #[trigger] trust_anchor(certificates@[i]@) == Some(
                    store_anchors(store)[i],
                )
        },
        roots matches Err(e) ==> {
            &&& e.index < certificates@.len()
            &&& trust_anchor(certificates@[e.index as int]@) is None
            &&& e.cause == refusal(certificates@[e.index as int]@)
            &&& forall|i: int|
                0 <= i < e.index ==> trust_anchor(#[trigger] certificates@[i]@) is Some
        },
{
    if let Ok(store) = roots {
        assert forall|i: int| 0 <= i < certificates@.len() implies #[trigger] trust_anchor(
            certificates@[i]@,
        ) == Some(store_anchors(store)[i]) by {
            assert(trust_anchor(certificates@[i]@) is Some);
        }
    }
}

/// What a character stands for as a digit, decimal or hexadecimal.
pub open spec fn digit_value(c: char) -> int {
    if '0' <= c && c <= '9' {
        c as int - '0' as int
    } else if 'a' <= c && c <= 'f' {
        10 + c as int - 'a' as int
    } else {
        -1
    }
}

/// The number that some digits stand for to a base.
pub open spec fn number(digits: Seq<char>, base: int) -> int
    decreases digits.len(),
{
    if digits.len() == 0 {
        0
    } else {
        number(digits.drop_last(), base) * base + digit_value(digits.last())
    }
}

/// Whether some characters are digits to a base and stand for `n`.
pub open spec fn is_written(digits: Seq<char>, base: int, n: int) -> bool {
    &&& digits.len() > 0
    &&& forall|i: int| 0 <= i < digits.len() ==> 0 <= digit_value(#[trigger] digits[i]) < base
    &&& number(digits, base) == n
}

/// A digit stands for its value.
proof fn digits_have_their_value(d: int)
    requires
        0 <= d < 16,
    ensures
        digit_value(digit_char(d)) == d,
{
}

/// A number in decimal stands for itself, and has no leading zero.
pub proof fn decimals_stand_for_themselves(n: nat)
    ensures
        is_written(decimal_of(n), 10, n as int),
        decimal_of(n).len() > 1 ==> decimal_of(n)[0] != '0',
        n > 0 ==> decimal_of(n)[0] != '0',
    decreases n,
{
    if n < 10 {
        digits_have_their_value(n as int);
        assert(decimal_of(n).drop_last() =~= Seq::<char>::empty());
        assert(number(Seq::<char>::empty(), 10) == 0);
    } else {
        decimals_stand_for_themselves(n / 10);
        digits_have_their_value((n % 10) as int);
        assert(decimal_of(n).drop_last() =~= decimal_of(n / 10));
        assert forall|i: int| 0 <= i < decimal_of(n).len() implies 0 <= digit_value(
            #[trigger] decimal_of(n)[i],
        ) < 10 by {
            if i < decimal_of(n / 10).len() {
                assert(decimal_of(n)[i] == decimal_of(n / 10)[i]);
            }
        }
        assert(decimal_of(n)[0] == decimal_of(n / 10)[0]);
    }
}

/// A number in hexadecimal stands for itself, in four digits.
pub proof fn hexadecimals_stand_for_themselves(n: u16)
    ensures
        is_written(hex_of(n), 16, n as int),
        hex_of(n).len() == 4,
{
    let text = hex_of(n);
    let (a, b, c, d) = (n as int / 4096, n as int / 256 % 16, n as int / 16 % 16, n as int % 16);
    digits_have_their_value(a);
    digits_have_their_value(b);
    digits_have_their_value(c);
    digits_have_their_value(d);
    reveal_with_fuel(number, 5);
    let three = text.drop_last();
    let two = three.drop_last();
    let one = two.drop_last();
    assert(one.drop_last() =~= Seq::<char>::empty());
    assert(one.last() == text[0] && two.last() == text[1] && three.last() == text[2]);
    assert(((a * 16 + b) * 16 + c) * 16 + d == n);
}

/// What the user is told of a refusal: in every case its own words, with the length
/// in decimal, the selector in four hexadecimal digits, or the address as it was
/// handed over.
pub proof fn refusals_have_their_words(error: AuthError, address: &str, text: String)
    requires
        call_ensures(AuthError::message, (&error, address), text),
    ensures
        match error {
            AuthError::BadLength(len) => exists|digits: Seq<char>|
                {
                    &&& #[trigger] is_written(digits, 10, len as int)
                    &&& digits.len() > 1 ==> digits[0] != '0'
                    &&& text@ == "expected a 20-byte token, got "@ + digits + " bytes"@
                },
            AuthError::UnknownSelector(selector) => exists|digits: Seq<char>|
                {
                    &&& #[trigger] is_written(digits, 16, selector as int)
                    &&& digits.len() == 4
                    &&& text@ == "unknown key selector 0x"@ + digits
                },
            AuthError::WrongDirection => text@ == "token authenticates the wrong direction"@,
            AuthError::BadTag => text@ == "tag does not authenticate this nonce and address pair"@,
            AuthError::NotQuic => text@ == "datagram is not recognizable as QUIC"@,
            AuthError::NotIpv4(_) => text@ == "only IPv4 peers can be authenticated, got "@
                + address@,
        },
{
    match error {
        AuthError::BadLength(len) => {
            decimals_stand_for_themselves(len as nat);
        },
        AuthError::UnknownSelector(selector) => {
            hexadecimals_stand_for_themselves(selector);
        },
        _ => {},
    }
}

/// What the user is told of a size that no Initial can have: the limit it breaks,
/// and the size in decimal.
pub proof fn unbuildable_sizes_have_their_words(error: TemplateError, text: String)
    requires
        call_ensures(TemplateError::message, (&error,), text),
    ensures
        match error {
            TemplateError::TooSmall(size) => exists|digits: Seq<char>|
                {
                    &&& #[trigger] is_written(digits, 10, size as int)
                    &&& digits.len() > 1 ==> digits[0] != '0'
                    &&& text@
                        == "--size must be at least 1200 bytes, the minimum RFC 9000 allows for a datagram carrying an Initial packet, got "@
                        + digits
                },
            TemplateError::TooLarge(size) => exists|digits: Seq<char>|
                {
                    &&& #[trigger] is_written(digits, 10, size as int)
                    &&& digits.len() > 1 ==> digits[0] != '0'
                    &&& text@ == "--size must fit in a UDP datagram, got "@ + digits
                },
        },
{
    match error {
        TemplateError::TooSmall(size) => {
            decimals_stand_for_themselves(size as nat);
        },
        TemplateError::TooLarge(size) => {
            decimals_stand_for_themselves(size as nat);
        },
    }
}

} // verus!
