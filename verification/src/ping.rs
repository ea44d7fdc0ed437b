//! The ping protocol: what a ping carries, when its echo is good, how long the
//! pinger keeps pinging, and what it reports at the end.

use vstd::prelude::*;
use vstd::slice::slice_to_vec;

use crate::bytes::{equal, u64_to_be};

verus! {

/// ALPN identifier negotiated by both ends of the ping protocol:
/// `pktauth-ping/1`.
pub const ALPN: [u8; 14] = [
    0x70, 0x6b, 0x74, 0x61, 0x75, 0x74, 0x68, 0x2d, 0x70, 0x69, 0x6e, 0x67, 0x2f, 0x31,
];

/// Upper bound on a single ping payload, applied when reading either direction
/// so a peer cannot force unbounded buffering.
pub const MAX_PING_BYTES: usize = 64 * 1024;

/// How long an idle connection is kept, in seconds.
pub const IDLE_TIMEOUT_SECS: u64 = 30;

/// How often a keep-alive is sent, in seconds.
pub const KEEP_ALIVE_INTERVAL_SECS: u64 = 5;

/// The byte at index `i` of the ping payload with sequence number `seq`: the
/// big-endian sequence number, then a count that wraps after 250.
pub open spec fn payload_byte(seq: u64, i: int) -> u8 {
    if i < 8 {
        crate::bytes::be64(seq)[i]
    } else {
        ((i - 8) % 251) as u8
    }
}

/// Builds a ping payload of `size` bytes whose first 8 bytes carry `seq`.
///
/// Payloads shorter than 8 bytes carry a truncated sequence number; the echo
/// check compares full payloads, so this only affects readability of a capture.
pub fn ping_payload(seq: u64, size: usize) -> (payload: Vec<u8>)
    requires
        size <= isize::MAX,
    ensures
        payload@ == Seq::new(size as nat, |i: int| payload_byte(seq, i)),
{
    let seq_bytes = u64_to_be(seq);
    let mut payload: Vec<u8> = Vec::with_capacity(size);
    let mut i: usize = 0;
    while i < size
        invariant
            i <= size,
            seq_bytes@ == crate::bytes::be64(seq),
            payload@ == Seq::new(i as nat, |j: int| payload_byte(seq, j)),
        decreases size - i,
    {
        if i < 8 {
            payload.push(seq_bytes[i]);
        } else {
            payload.push(((i - 8) % 251) as u8);
        }
        i = i + 1;
        assert(payload@ =~= Seq::new(i as nat, |j: int| payload_byte(seq, j)));
    }
    payload
}

/// An echo that differs from what was sent.
#[derive(Debug, PartialEq, Eq)]
pub struct EchoMismatch {
    pub sent: Vec<u8>,
    pub echoed: Vec<u8>,
}

/// Checks that the echo of a ping is its payload.
pub fn check_echo(payload: &[u8], echoed: Vec<u8>) -> (result: Result<(), EchoMismatch>)
    ensures
        match result {
            Ok(()) => echoed@ == payload@,
            Err(mismatch) => echoed@ != payload@ && mismatch.sent@ == payload@ && mismatch.echoed@
                == echoed@,
        },
{
    if equal(payload, echoed.as_slice()) {
        Ok(())
    } else {
        Err(EchoMismatch { sent: slice_to_vec(payload), echoed })
    }
}

/// One ping to send.
#[derive(Debug, Clone, Copy, PartialEq, Eq)]
pub struct PingStep {
    /// Its sequence number.
    pub seq: u64,
    /// How long to wait first, in milliseconds, if at all.
    pub delay_ms: Option<u64>,
}

/// A run of pings, each of which is echoed or lost.
#[derive(Debug)]
pub struct PingRun {
    /// Pings to send; 0 means until interrupted.
    pub count: u64,
    /// Delay between two pings, in milliseconds.
    pub interval_ms: u64,
    /// Pings sent so far.
    pub seq: u64,
    /// Pings among them that were lost.
    pub lost: u64,
    /// Round-trip times of the others, in nanoseconds, in the order they came.
    pub rtts: Vec<u128>,
}

impl PingRun {
    /// Whether every ping sent was echoed or lost, and no more were sent than
    /// asked for.
    pub open spec fn is_valid(self) -> bool {
        &&& self.seq == self.lost + self.rtts@.len()
        &&& self.count != 0 ==> self.seq <= self.count
    }

    /// Whether every ping asked for was sent.
    pub open spec fn is_over(self) -> bool {
        self.count != 0 && self.seq >= self.count
    }

    /// A run that has sent nothing.
    pub fn new(count: u64, interval_ms: u64) -> (run: PingRun)
        ensures
            run.is_valid(),
            run.count == count,
            run.interval_ms == interval_ms,
            run.seq == 0,
            run.lost == 0,
            run.rtts@ == Seq::<u128>::empty(),
    {
        PingRun { count, interval_ms, seq: 0, lost: 0, rtts: Vec::new() }
    }

    /// The next ping, unless the run is over. The first is sent at once, the
    /// others after the interval.
    pub fn next(&self) -> (step: Option<PingStep>)
        ensures
            step == (if self.is_over() {
                None
            } else {
                Some(
                    PingStep {
                        seq: self.seq,
                        delay_ms: if self.seq > 0 && self.interval_ms > 0 {
                            Some(self.interval_ms)
                        } else {
                            None
                        },
                    },
                )
            }),
    {
        if self.count == 0 || self.seq < self.count {
            let delay_ms = if self.seq > 0 && self.interval_ms != 0 {
                Some(self.interval_ms)
            } else {
                None
            };
            Some(PingStep { seq: self.seq, delay_ms })
        } else {
            None
        }
    }

    /// Records what came of the ping just sent: its round-trip time, or that it
    /// was lost, which is counted and never fatal.
    pub fn record(&mut self, rtt: Option<u128>)
        requires
            old(self).is_valid(),
            !old(self).is_over(),
            old(self).seq < u64::MAX,
        ensures
            final(self).is_valid(),
            final(self).count == old(self).count,
            final(self).interval_ms == old(self).interval_ms,
            final(self).seq == old(self).seq + 1,
            match rtt {
                Some(rtt) => final(self).rtts@ == old(self).rtts@.push(rtt) && final(self).lost
                    == old(self).lost,
                None => final(self).rtts@ == old(self).rtts@ && final(self).lost == old(self).lost
                    + 1,
            },
    {
        match rtt {
            Some(rtt) => {
                self.rtts.push(rtt);
            },
            None => {
                self.lost = self.lost + 1;
            },
        }
        self.seq = self.seq + 1;
    }
}

/// The longest time that can be told, in nanoseconds.
pub const MAX_NANOS: u128 = 18_446_744_073_709_551_615_999_999_999;

/// The sum of some times.
pub open spec fn sum(times: Seq<u128>) -> int
    decreases times.len(),
{
    if times.len() == 0 {
        0
    } else {
        sum(times.drop_last()) + times.last()
    }
}

/// A part of some times sums up to no more than all of them.
proof fn sum_grows(times: Seq<u128>, n: int)
    requires
        0 <= n <= times.len(),
    ensures
        0 <= sum(times.take(n)) <= sum(times),
    decreases times.len(),
{
    if n == times.len() {
        assert(times.take(n) =~= times);
        if n > 0 {
            sum_grows(times.drop_last(), n - 1);
        }
    } else {
        assert(times.drop_last().take(n) =~= times.take(n));
        sum_grows(times.drop_last(), n);
    }
}

/// The sum of some times, unless it is longer than can be told.
pub fn total(times: &Vec<u128>) -> (total: Option<u128>)
    ensures
        match total {
            Some(total) => total == sum(times@) && sum(times@) <= MAX_NANOS,
            None => sum(times@) > MAX_NANOS,
        },
{
    let mut total: u128 = 0;
    let mut i: usize = 0;
    while i < times.len()
        invariant
            i <= times@.len(),
            total == sum(times@.take(i as int)),
            total <= MAX_NANOS,
        decreases times@.len() - i,
    {
        assert(times@.take(i + 1).drop_last() =~= times@.take(i as int));
        proof {
            sum_grows(times@, i + 1);
        }
        if times[i] > MAX_NANOS - total {
            return None;
        }
        total = total + times[i];
        i = i + 1;
    }
    assert(times@.take(i as int) =~= times@);
    Some(total)
}

/// What is reported of the round-trip times, in nanoseconds.
#[derive(Debug, Clone, Copy, PartialEq, Eq)]
pub struct RttSummary {
    pub min: u128,
    pub avg: u128,
    pub max: u128,
}

/// The least, the mean and the greatest of some times, unless there are none.
/// The mean is rounded down.
pub fn summarize(times: &Vec<u128>) -> (summary: Option<RttSummary>)
    requires
        sum(times@) <= MAX_NANOS,
    ensures
        summary is None <==> times@.len() == 0,
        summary matches Some(summary) ==> {
            &&& times@.contains(summary.min)
            &&& times@.contains(summary.max)
            &&& forall|i: int|
                0 <= i < times@.len() ==> summary.min <= #[trigger] times@[i] <= summary.max
            &&& summary.avg == sum(times@) / (times@.len() as int)
        },
{
    if times.len() == 0 {
        return None;
    }
    let all = match total(times) {
        Some(all) => all,
        None => {
            return None;
        },
    };
    let mut min: u128 = times[0];
    let mut max: u128 = times[0];
    assert(times@.contains(min));
    let mut i: usize = 1;
    while i < times.len()
        invariant
            1 <= i <= times@.len(),
            times@.contains(min),
            times@.contains(max),
            forall|j: int| 0 <= j < i ==> min <= #[trigger] times@[j] <= max,
        decreases times@.len() - i,
    {
        let time = times[i];
        assert(times@.contains(time));
        if time < min {
            min = time;
        }
        if time > max {
            max = time;
        }
        i = i + 1;
    }
    let count: u128 = times.len() as u128;
    Some(RttSummary { min, avg: all / count, max })
}

} // verus!
