//! What the packet socket decides: which datagrams get through, where they go,
//! what is counted, and what becomes of a failed receive or send.
//!
//! Every datagram is checked on receipt and dropped on failure, so the QUIC
//! layer only ever parses packets carrying a valid token. A socket without an
//! authenticator skips the check and hands over everything it reads.

use vstd::prelude::*;

use crate::auth::{AuthError, Authenticator};
use crate::bytes::wrapped;
use crate::net::{IpAddr, SocketAddr};

verus! {

/// Cumulative packet counters, as observed at the syscall boundary.
///
/// `received` counts every datagram read off the wire, including the `rejected`
/// ones that failed authentication and were never handed over. The counters
/// wrap.
#[derive(Debug, Clone, Copy, PartialEq, Eq)]
pub struct PacketCounts {
    pub sent: u64,
    pub sent_bytes: u64,
    pub received: u64,
    pub received_bytes: u64,
    pub rejected: u64,
}

impl PacketCounts {
    /// Nothing sent or received yet.
    pub open spec fn nothing() -> PacketCounts {
        PacketCounts { sent: 0, sent_bytes: 0, received: 0, received_bytes: 0, rejected: 0 }
    }

    /// `self` with a datagram of `len` bytes sent.
    pub open spec fn after_send(self, len: int) -> PacketCounts {
        PacketCounts {
            sent: wrapped(self.sent + 1),
            sent_bytes: wrapped(self.sent_bytes + len),
            ..self
        }
    }

    /// `self` with a datagram of `len` bytes received, and rejected unless it is
    /// admitted.
    pub open spec fn after_receive(self, len: int, admitted: bool) -> PacketCounts {
        PacketCounts {
            received: wrapped(self.received + 1),
            received_bytes: wrapped(self.received_bytes + len),
            rejected: if admitted {
                self.rejected
            } else {
                wrapped(self.rejected + 1)
            },
            ..self
        }
    }

    /// Nothing sent or received yet.
    pub fn new() -> (counts: PacketCounts)
        ensures
            counts == PacketCounts::nothing(),
    {
        PacketCounts { sent: 0, sent_bytes: 0, received: 0, received_bytes: 0, rejected: 0 }
    }

    /// Counts the outcome of writing a datagram: one of `Some` number of bytes as
    /// sent, and a failed one not at all.
    pub fn record_send(&mut self, outcome: Option<usize>)
        ensures
            *final(self) == (match outcome {
                Some(len) => old(self).after_send(len as int),
                None => *old(self),
            }),
    {
        if let Some(len) = outcome {
            self.sent = self.sent.wrapping_add(1);
            self.sent_bytes = self.sent_bytes.wrapping_add(len as u64);
        }
    }

    /// Counts a datagram of `len` bytes as received, and as rejected unless it
    /// is admitted.
    pub fn record_received(&mut self, len: usize, admitted: bool)
        ensures
            *final(self) == old(self).after_receive(len as int, admitted),
    {
        self.received = self.received.wrapping_add(1);
        self.received_bytes = self.received_bytes.wrapping_add(len as u64);
        if !admitted {
            self.rejected = self.rejected.wrapping_add(1);
        }
    }
}

/// The kinds of I/O error that are told apart.
#[derive(Debug, Clone, Copy, PartialEq, Eq, Structural)]
pub enum IoErrorKind {
    WouldBlock,
    ConnectionRefused,
    ConnectionReset,
    HostUnreachable,
    NetworkUnreachable,
    Other,
}

/// Whether an error is a queued ICMP error from a previous send, which says
/// nothing about the socket's ability to receive.
pub fn is_transient(kind: IoErrorKind) -> (transient: bool)
    ensures
        transient == (kind is ConnectionRefused || kind is ConnectionReset || kind
            is HostUnreachable || kind is NetworkUnreachable),
{
    match kind {
        IoErrorKind::ConnectionRefused
        | IoErrorKind::ConnectionReset
        | IoErrorKind::HostUnreachable
        | IoErrorKind::NetworkUnreachable => true,
        IoErrorKind::WouldBlock | IoErrorKind::Other => false,
    }
}

/// Whether a datagram from `src` gets through: always without an authenticator,
/// and otherwise where the authenticator accepts it.
pub open spec fn is_admitted(
    authenticator: Option<Authenticator>,
    datagram: Seq<u8>,
    src: IpAddr,
) -> bool {
    authenticator matches Some(authenticator) ==> authenticator.datagram_verdict(datagram, src)
        == Ok::<(), AuthError>(())
}

/// Whether a datagram from `src` gets through.
pub fn admits(authenticator: &Option<Authenticator>, datagram: &[u8], src: IpAddr) -> (admitted:
    bool)
    ensures
        admitted == is_admitted(*authenticator, datagram@, src),
{
    match authenticator {
        None => true,
        Some(authenticator) => match authenticator.check(datagram, src) {
            Ok(()) => true,
            Err(_) => false,
        },
    }
}

/// A datagram handed over in a slot.
#[derive(Debug, Clone, Copy, PartialEq, Eq)]
pub struct Delivery {
    /// The buffer it lies in, and the metadata slot that describes it.
    pub slot: usize,
    /// Who sent it.
    pub addr: SocketAddr,
    /// Its length.
    pub len: usize,
    /// The length of each datagram in the buffer: there is one per buffer, so
    /// this is the whole.
    pub stride: usize,
}

/// What the receiver does next.
#[derive(Debug, Clone, Copy, PartialEq, Eq)]
pub enum ReceiveAction {
    /// Read a datagram into the buffer of this slot.
    Read(usize),
    /// Describe a datagram in its metadata slot, then go on with the pass.
    Deliver(Delivery),
    /// Hand over this many slots.
    Done(usize),
    /// Begin another pass once the socket is readable again.
    Wait,
    /// Report the error.
    Fail,
}

/// One pass over a readable socket, which fills slots from the first on.
///
/// A rejected datagram leaves its slot alone, so the slot is reused by whatever
/// comes next and nobody learns the packet existed.
#[derive(Debug, Clone, Copy, PartialEq, Eq)]
pub struct ReceivePass {
    /// Slots filled so far.
    pub filled: usize,
    /// Buffers there are.
    pub buffers: usize,
    /// Metadata slots there are.
    pub metas: usize,
}

impl ReceivePass {
    /// Whether every filled slot has a buffer and metadata.
    pub open spec fn is_valid(self) -> bool {
        self.filled <= self.buffers && self.filled <= self.metas
    }

    /// How a pass ends that reads nothing more.
    pub open spec fn ending(self) -> ReceiveAction {
        if self.filled > 0 {
            ReceiveAction::Done(self.filled)
        } else {
            ReceiveAction::Wait
        }
    }

    /// A pass over a socket that has just become readable.
    pub fn new(buffers: usize, metas: usize) -> (pass: ReceivePass)
        ensures
            pass == (ReceivePass { filled: 0, buffers, metas }),
            pass.is_valid(),
    {
        ReceivePass { filled: 0, buffers, metas }
    }

    /// Ends the pass.
    fn end(&self) -> (action: ReceiveAction)
        ensures
            action == self.ending(),
    {
        if self.filled > 0 {
            ReceiveAction::Done(self.filled)
        } else {
            ReceiveAction::Wait
        }
    }

    /// Goes on reading while there is a buffer left.
    pub fn next(&self) -> (action: ReceiveAction)
        ensures
            action == (if self.filled < self.buffers {
                ReceiveAction::Read(self.filled)
            } else {
                self.ending()
            }),
    {
        if self.filled < self.buffers {
            ReceiveAction::Read(self.filled)
        } else {
            self.end()
        }
    }

    /// What a datagram of `len` bytes from `addr` leads to, given whether it is
    /// admitted.
    pub open spec fn on_arrival(self, len: usize, addr: SocketAddr, admitted: bool) -> (
        ReceivePass,
        ReceiveAction,
    ) {
        if !admitted {
            (self, ReceiveAction::Read(self.filled))
        } else if self.filled >= self.metas {
            (self, self.ending())
        } else {
            (
                ReceivePass { filled: (self.filled + 1) as usize, ..self },
                ReceiveAction::Deliver(Delivery { slot: self.filled, addr, len, stride: len }),
            )
        }
    }

    /// Counts a datagram that was read into the current slot, and hands it over
    /// if it is admitted and has a metadata slot.
    pub fn arrived(
        &mut self,
        len: usize,
        addr: SocketAddr,
        admitted: bool,
        counts: &mut PacketCounts,
    ) -> (action: ReceiveAction)
        requires
            old(self).is_valid(),
            old(self).filled < old(self).buffers,
        ensures
            final(self).is_valid(),
            (*final(self), action) == old(self).on_arrival(len, addr, admitted),
            *final(counts) == old(counts).after_receive(len as int, admitted),
    {
        counts.record_received(len, admitted);
        if !admitted {
            return ReceiveAction::Read(self.filled);
        }
        if self.filled >= self.metas {
            return self.end();
        }
        let delivery = Delivery { slot: self.filled, addr, len, stride: len };
        self.filled = self.filled + 1;
        ReceiveAction::Deliver(delivery)
    }

    /// Authenticates a datagram that was read into the current slot, before
    /// anybody is given a chance to parse it, and counts it and hands it over
    /// accordingly.
    pub fn received(
        &mut self,
        authenticator: &Option<Authenticator>,
        datagram: &[u8],
        addr: SocketAddr,
        counts: &mut PacketCounts,
    ) -> (action: ReceiveAction)
        requires
            old(self).is_valid(),
            old(self).filled < old(self).buffers,
        ensures
            final(self).is_valid(),
            (*final(self), action) == old(self).on_arrival(
                datagram@.len() as usize,
                addr,
                is_admitted(*authenticator, datagram@, addr.ip),
            ),
            *final(counts) == old(counts).after_receive(
                datagram@.len() as int,
                is_admitted(*authenticator, datagram@, addr.ip),
            ),
    {
        let admitted = admits(authenticator, datagram, addr.ip);
        self.arrived(datagram.len(), addr, admitted, counts)
    }

    /// What a failed read leads to: the pass ends when the socket has drained or
    /// the error is transient, or when there is something to hand over first.
    pub fn failed(&self, kind: IoErrorKind) -> (action: ReceiveAction)
        ensures
            action == (if self.filled == 0 && kind is Other {
                ReceiveAction::Fail
            } else {
                self.ending()
            }),
    {
        if kind == IoErrorKind::WouldBlock || is_transient(kind) || self.filled > 0 {
            self.end()
        } else {
            ReceiveAction::Fail
        }
    }
}

/// The datagrams of `size` bytes that the bytes from `start` to `len` are cut
/// into, each as its start and end. The last may be shorter.
pub open spec fn cut_from(start: int, len: int, size: int) -> Seq<(int, int)>
    decreases len - start,
{
    if size <= 0 || start >= len {
        seq![]
    } else if len - start <= size {
        seq![(start, len)]
    } else {
        seq![(start, start + size)] + cut_from(start + size, len, size)
    }
}

/// The datagrams that a transmission of `len` bytes is cut into: one without a
/// segment size, and otherwise as many of that size as it takes.
pub open spec fn cut(len: int, segment_size: Option<usize>) -> Seq<(int, int)> {
    match segment_size {
        None => seq![(0, len)],
        Some(size) => cut_from(0, len, size as int),
    }
}

/// Some ranges as numbers without bounds.
pub open spec fn range_values(ranges: Seq<(usize, usize)>) -> Seq<(int, int)> {
    Seq::new(ranges.len(), |i: int| (ranges[i].0 as int, ranges[i].1 as int))
}

/// Cuts a transmission of `len` bytes into datagrams of `segment_size` bytes,
/// the last of which may be shorter; without a segment size it is one datagram.
pub fn segments(len: usize, segment_size: Option<usize>) -> (ranges: Vec<(usize, usize)>)
    requires
        segment_size != Some(0usize),
    ensures
        range_values(ranges@) == cut(len as int, segment_size),
{
    let mut ranges: Vec<(usize, usize)> = Vec::new();
    match segment_size {
        None => {
            ranges.push((0, len));
            assert(range_values(ranges@) =~= cut(len as int, segment_size));
        },
        Some(size) => {
            let mut start: usize = 0;
            assert(range_values(ranges@) + cut_from(0, len as int, size as int) =~= cut(
                len as int,
                segment_size,
            ));
            while start < len
                invariant
                    size > 0,
                    start <= len,
                    range_values(ranges@) + cut_from(start as int, len as int, size as int) == cut(
                        len as int,
                        segment_size,
                    ),
                decreases len - start,
            {
                let ghost before = ranges@;
                let end = if len - start <= size {
                    len
                } else {
                    start + size
                };
                ranges.push((start, end));
                assert(range_values(ranges@) =~= range_values(before).push(
                    (start as int, end as int),
                ));
                assert(cut_from(start as int, len as int, size as int) =~= seq![
                    (start as int, end as int),
                ] + cut_from(end as int, len as int, size as int));
                assert(range_values(ranges@) + cut_from(end as int, len as int, size as int)
                    =~= range_values(before) + cut_from(start as int, len as int, size as int));
                start = end;
            }
            assert(range_values(ranges@) + cut_from(start as int, len as int, size as int)
                =~= range_values(ranges@));
        },
    }
    ranges
}

/// What a sending task has just learned.
#[derive(Debug, Clone, Copy, PartialEq, Eq, Structural)]
pub enum SendEvent {
    /// It was asked to send.
    Asked,
    /// The socket became writable.
    Writable,
    /// Waiting for the socket failed.
    WaitFailed,
    /// The transmission went out.
    Sent,
    /// The transmission failed.
    Refused(IoErrorKind),
}

/// What a sending task does next.
#[derive(Debug, Clone, Copy, PartialEq, Eq, Structural)]
pub enum SendAction {
    /// Begin to wait for the socket to become writable.
    BeginWait,
    /// Go on with the wait begun earlier.
    KeepWaiting,
    /// Transmit.
    Transmit,
    /// Report success.
    Complete,
    /// Report the failed wait.
    Fail,
}

/// What a sending task does, given whether it has a wait in progress; and
/// whether it has one then.
///
/// A wait that has completed is over: it is never taken up again. A socket that
/// claimed to be writable but was not is waited for anew. Any other failure is
/// about this one transmission, not the endpoint: it is dropped.
pub fn send_step(waiting: bool, event: SendEvent) -> (step: (bool, SendAction))
    ensures
        step == match event {
            SendEvent::Asked => (
                true,
                if waiting {
                    SendAction::KeepWaiting
                } else {
                    SendAction::BeginWait
                },
            ),
            SendEvent::Writable => (false, SendAction::Transmit),
            SendEvent::WaitFailed => (false, SendAction::Fail),
            SendEvent::Sent => (waiting, SendAction::Complete),
            SendEvent::Refused(IoErrorKind::WouldBlock) => (true, SendAction::BeginWait),
            SendEvent::Refused(_) => (waiting, SendAction::Complete),
        },
{
    match event {
        SendEvent::Asked => if waiting {
            (true, SendAction::KeepWaiting)
        } else {
            (true, SendAction::BeginWait)
        },
        SendEvent::Writable => (false, SendAction::Transmit),
        SendEvent::WaitFailed => (false, SendAction::Fail),
        SendEvent::Sent => (waiting, SendAction::Complete),
        SendEvent::Refused(kind) => if kind == IoErrorKind::WouldBlock {
            (true, SendAction::BeginWait)
        } else {
            (waiting, SendAction::Complete)
        },
    }
}

} // verus!
