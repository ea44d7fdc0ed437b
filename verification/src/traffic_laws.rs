//! What calls on datagrams received and sent give.
//!
//! Each law speaks of every result that a call can have, and of nothing but the
//! call's arguments and that result.

use vstd::prelude::*;

use crate::auth::Authenticator;
use crate::laws::{admitted_among, pass_over, passes_deliver_the_admitted, Arrival};
use crate::net::SocketAddr;
use crate::socket::{
    admits, cut_from, is_transient, range_values, segments, send_step, IoErrorKind, PacketCounts,
    ReceiveAction, ReceivePass, SendAction, SendEvent,
};

verus! {

/// A socket starts with nothing counted. A sent datagram adds one and its bytes on
/// the sent side, a failed one nothing; a received one adds one and its bytes on
/// the received side, and one to the rejected unless it was admitted. Each counter
/// begins anew at 2^64, and none touches another.
pub proof fn counters_count_one_by_one(
    fresh: PacketCounts,
    sending: &mut PacketCounts,
    outcome: Option<usize>,
    receiving: &mut PacketCounts,
    len: usize,
    admitted: bool,
)
    requires
        call_ensures(PacketCounts::new, (), fresh),
        call_ensures(PacketCounts::record_send, (sending, outcome), ()),
        call_ensures(PacketCounts::record_received, (receiving, len, admitted), ()),
    ensures
        fresh.sent == 0 && fresh.sent_bytes == 0 && fresh.received == 0 && fresh.received_bytes
            == 0 && fresh.rejected == 0,
        outcome is None ==> *final(sending) == *old(sending),
        outcome matches Some(n) ==> {
            &&& final(sending).sent == (old(sending).sent + 1) % 0x1_0000_0000_0000_0000
            &&& final(sending).sent_bytes == (old(sending).sent_bytes + n)
                % 0x1_0000_0000_0000_0000
            &&& final(sending).received == old(sending).received
            &&& final(sending).received_bytes == old(sending).received_bytes
            &&& final(sending).rejected == old(sending).rejected
        },
        final(receiving).sent == old(receiving).sent,
        final(receiving).sent_bytes == old(receiving).sent_bytes,
        final(receiving).received == (old(receiving).received + 1) % 0x1_0000_0000_0000_0000,
        final(receiving).received_bytes == (old(receiving).received_bytes + len)
            % 0x1_0000_0000_0000_0000,
        admitted ==> final(receiving).rejected == old(receiving).rejected,
        !admitted ==> final(receiving).rejected == (old(receiving).rejected + 1)
            % 0x1_0000_0000_0000_0000,
{
}

/// Only the four errors that a queued ICMP message causes are transient.
pub proof fn transient_errors_are_queued_ones(kind: IoErrorKind, transient: bool)
    requires
        call_ensures(is_transient, (kind,), transient),
    ensures
        !transient <==> kind == IoErrorKind::WouldBlock || kind == IoErrorKind::Other,
{
}

/// A pass starts empty and reads into the first free slot for as long as there is
/// a buffer.
pub proof fn passes_read_into_free_slots(
    buffers: usize,
    metas: usize,
    fresh: ReceivePass,
    pass: ReceivePass,
    action: ReceiveAction,
)
    requires
        call_ensures(ReceivePass::new, (buffers, metas), fresh),
        call_ensures(ReceivePass::next, (&pass,), action),
    ensures
        fresh.filled == 0 && fresh.buffers == buffers && fresh.metas == metas,
        action is Read <==> pass.filled < pass.buffers,
        action matches ReceiveAction::Read(slot) ==> slot == pass.filled,
        action is Done <==> pass.filled >= pass.buffers && pass.filled > 0,
        action matches ReceiveAction::Done(slots) ==> slots == pass.filled,
        action is Wait <==> pass.filled >= pass.buffers && pass.filled == 0,
{
}

/// A failed read ends a pass: everything that was filled is handed over, an error
/// that is neither transient nor a drained socket is reported where nothing was,
/// and the socket is waited for otherwise.
pub proof fn failed_reads_hand_over_everything(
    pass: ReceivePass,
    kind: IoErrorKind,
    action: ReceiveAction,
)
    requires
        call_ensures(ReceivePass::failed, (&pass, kind), action),
    ensures
        action is Done <==> pass.filled > 0,
        action matches ReceiveAction::Done(slots) ==> slots == pass.filled,
        action is Fail <==> pass.filled == 0 && kind == IoErrorKind::Other,
        action is Wait <==> pass.filled == 0 && kind != IoErrorKind::Other,
{
}

/// A datagram that is not admitted leaves the pass as it is and its slot to the
/// next; an admitted one is handed over in the first free slot with its length and
/// sender, and fills that slot; and where no metadata is left for it the pass ends
/// with everything that was filled. Each is counted.
pub proof fn arrivals_fill_the_first_free_slot(
    pass: &mut ReceivePass,
    len: usize,
    addr: SocketAddr,
    admitted: bool,
    counts: &mut PacketCounts,
    action: ReceiveAction,
    receiving: &mut PacketCounts,
)
    requires
        call_ensures(ReceivePass::arrived, (pass, len, addr, admitted, counts), action),
        *old(receiving) == *old(counts),
        call_ensures(PacketCounts::record_received, (receiving, len, admitted), ()),
    ensures
        *final(counts) == *final(receiving),
        final(pass).buffers == old(pass).buffers && final(pass).metas == old(pass).metas,
        action is Read <==> !admitted,
        action matches ReceiveAction::Read(slot) ==> slot == old(pass).filled,
        action is Deliver <==> admitted && old(pass).filled < old(pass).metas,
        action matches ReceiveAction::Deliver(delivery) ==> {
            &&& delivery.slot == old(pass).filled
            &&& delivery.addr == addr
            &&& delivery.len == len
            &&& delivery.stride == len
            &&& final(pass).filled == old(pass).filled + 1
        },
        action !is Deliver ==> final(pass).filled == old(pass).filled,
        action is Done <==> admitted && old(pass).filled >= old(pass).metas && old(pass).filled > 0,
        action matches ReceiveAction::Done(slots) ==> slots == old(pass).filled,
        action !is Fail,
{
}

/// Receiving a datagram is authenticating it and then taking it in by what came of
/// that.
pub proof fn receiving_is_authenticating_first(
    authenticator: Option<Authenticator>,
    datagram: &[u8],
    addr: SocketAddr,
    admitted: bool,
    pass: &mut ReceivePass,
    counts: &mut PacketCounts,
    action: ReceiveAction,
    other_pass: &mut ReceivePass,
    other_counts: &mut PacketCounts,
    other_action: ReceiveAction,
)
    requires
        call_ensures(admits, (&authenticator, datagram, addr.ip), admitted),
        call_ensures(
            ReceivePass::received,
            (pass, &authenticator, datagram, addr, counts),
            action,
        ),
        *old(other_pass) == *old(pass),
        *old(other_counts) == *old(counts),
        call_ensures(
            ReceivePass::arrived,
            (other_pass, datagram@.len() as usize, addr, admitted, other_counts),
            other_action,
        ),
        datagram@.len() <= usize::MAX,
    ensures
        action == other_action,
        *final(pass) == *final(other_pass),
        *final(counts) == *final(other_counts),
{
}

/// A whole pass, step by step: before each datagram, and after the last.
pub struct PassTrace {
    pub passes: Seq<ReceivePass>,
    pub actions: Seq<ReceiveAction>,
}

impl PassTrace {
    /// Whether the passes follow each other by what was read.
    pub open spec fn follows(self, authenticator: Option<Authenticator>, arrivals: Seq<Arrival>) -> bool {
        &&& self.passes.len() == arrivals.len() + 1
        &&& self.actions.len() == arrivals.len()
        &&& forall|i: int|
            0 <= i < arrivals.len() ==> (#[trigger] self.passes[i]).on_arrival(
                arrivals[i].0.len() as usize,
                arrivals[i].1,
                crate::socket::is_admitted(authenticator, arrivals[i].0, arrivals[i].1.ip),
            ) == (self.passes[i + 1], self.actions[i])
    }
}

/// How many of some actions hand a datagram over.
pub open spec fn delivered(actions: Seq<ReceiveAction>) -> nat
    decreases actions.len(),
{
    if actions.len() == 0 {
        0
    } else {
        delivered(actions.drop_last()) + (if actions.last() is Deliver {
            1nat
        } else {
            0nat
        })
    }
}

/// A pass fills one slot for each datagram that it hands over.
#[verifier::spinoff_prover]
proof fn slots_are_filled_by_deliveries(
    trace: PassTrace,
    authenticator: Option<Authenticator>,
    arrivals: Seq<Arrival>,
)
    requires
        trace.follows(authenticator, arrivals),
        trace.passes[0].filled == 0,
    ensures
        trace.passes.last().filled == delivered(trace.actions),
        trace.passes.last().metas == trace.passes[0].metas,
        trace.passes.last().buffers == trace.passes[0].buffers,
    decreases arrivals.len(),
{
    if arrivals.len() > 0 {
        let n = arrivals.len() as int;
        let prior = PassTrace {
            passes: trace.passes.drop_last(),
            actions: trace.actions.drop_last(),
        };
        assert forall|i: int| 0 <= i < n - 1 implies (#[trigger] prior.passes[i]).on_arrival(
            arrivals.drop_last()[i].0.len() as usize,
            arrivals.drop_last()[i].1,
            crate::socket::is_admitted(
                authenticator,
                arrivals.drop_last()[i].0,
                arrivals.drop_last()[i].1.ip,
            ),
        ) == (prior.passes[i + 1], prior.actions[i]) by {
            assert(trace.passes[i] == prior.passes[i]);
        }
        slots_are_filled_by_deliveries(prior, authenticator, arrivals.drop_last());
        assert(trace.passes[n - 1] == prior.passes.last());
    }
}

/// However a pass ends after some datagrams, it hands over exactly as many slots
/// as datagrams were delivered; it waits only where none was.
#[verifier::spinoff_prover]
#[verifier::rlimit(40)]
pub proof fn ended_passes_hand_over_every_delivery(
    buffers: usize,
    metas: usize,
    fresh: ReceivePass,
    authenticator: Option<Authenticator>,
    arrivals: Seq<Arrival>,
    trace: PassTrace,
    kind: IoErrorKind,
    failed: ReceiveAction,
    went_on: ReceiveAction,
)
    requires
        call_ensures(ReceivePass::new, (buffers, metas), fresh),
        trace.follows(authenticator, arrivals),
        trace.passes[0] == fresh,
        call_ensures(ReceivePass::failed, (&trace.passes.last(), kind), failed),
        call_ensures(ReceivePass::next, (&trace.passes.last(),), went_on),
    ensures
        ({
            let n = delivered(trace.actions);
            &&& n > 0 ==> failed == ReceiveAction::Done(n as usize) && n <= usize::MAX
            &&& n == 0 ==> failed is Wait || failed is Fail
            &&& n >= buffers && n > 0 ==> went_on == ReceiveAction::Done(n as usize)
            &&& n < buffers ==> went_on == ReceiveAction::Read(n as usize)
            &&& n == 0 && buffers == 0 ==> went_on is Wait
            &&& forall|i: int|
                0 <= i < trace.actions.len() ==> (#[trigger] trace.actions[i] matches
                    ReceiveAction::Done(slots) ==> slots == delivered(trace.actions.take(i)))
        }),
{
    slots_are_filled_by_deliveries(trace, authenticator, arrivals);
    assert forall|i: int| 0 <= i < trace.actions.len() implies (#[trigger] trace.actions[i] matches
        ReceiveAction::Done(slots) ==> slots == delivered(trace.actions.take(i))) by {
        let begun = PassTrace { passes: trace.passes.take(i + 1), actions: trace.actions.take(i) };
        let read = arrivals.take(i);
        assert forall|k: int| 0 <= k < i implies (#[trigger] begun.passes[k]).on_arrival(
            read[k].0.len() as usize,
            read[k].1,
            crate::socket::is_admitted(authenticator, read[k].0, read[k].1.ip),
        ) == (begun.passes[k + 1], begun.actions[k]) by {
            assert(trace.passes[k] == begun.passes[k]);
        }
        slots_are_filled_by_deliveries(begun, authenticator, read);
        assert(trace.passes[i] == begun.passes.last());
    }
}

/// The same of a pass taken as a whole: its end hands over as many slots as there
/// were admitted datagrams, as far as there was metadata for them.
#[verifier::spinoff_prover]
#[verifier::rlimit(40)]
pub proof fn ended_passes_hand_over_the_admitted(
    buffers: usize,
    metas: usize,
    fresh: ReceivePass,
    authenticator: Option<Authenticator>,
    counts: PacketCounts,
    arrivals: Seq<Arrival>,
    kind: IoErrorKind,
    action: ReceiveAction,
)
    requires
        call_ensures(ReceivePass::new, (buffers, metas), fresh),
        forall|i: int| 0 <= i < arrivals.len() ==> (#[trigger] arrivals[i]).0.len() <= usize::MAX,
        call_ensures(
            ReceivePass::failed,
            (&pass_over(authenticator, fresh, counts, arrivals).0, kind),
            action,
        ),
    ensures
        ({
            let deliveries = pass_over(authenticator, fresh, counts, arrivals).2;
            let admitted = admitted_among(authenticator, arrivals).len();
            &&& deliveries.len() > 0 ==> action == ReceiveAction::Done(deliveries.len() as usize)
            &&& deliveries.len() == 0 ==> action is Wait || action is Fail
            &&& admitted <= metas ==> deliveries.len() == admitted
            &&& admitted > metas ==> deliveries.len() == metas
        }),
{
    passes_deliver_the_admitted(authenticator, buffers, metas, counts, arrivals);
}

/// The pieces that the bytes from `start` on are cut into: told by their bounds.
proof fn pieces_cover(start: int, len: int, size: int)
    requires
        0 <= start <= len,
        size > 0,
    ensures
        ({
            let pieces = cut_from(start, len, size);
            &&& start == len <==> pieces.len() == 0
            &&& pieces.len() > 0 ==> pieces[0].0 == start && pieces.last().1 == len
            &&& forall|i: int|
                0 <= i < pieces.len() ==> 0 < (#[trigger] pieces[i]).1 - pieces[i].0 <= size
            &&& forall|i: int|
                0 <= i < pieces.len() - 1 ==> (#[trigger] pieces[i]).1 == pieces[i + 1].0
                    && pieces[i].1 - pieces[i].0 == size
        }),
    decreases len - start,
{
    let pieces = cut_from(start, len, size);
    if len - start > size {
        let rest = cut_from(start + size, len, size);
        pieces_cover(start + size, len, size);
        assert(pieces[0] == (start, start + size));
        assert(pieces.last() == rest.last());
        assert forall|i: int| 0 <= i < pieces.len() implies 0 < (#[trigger] pieces[i]).1
            - pieces[i].0 <= size by {
            if i > 0 {
                assert(pieces[i] == rest[i - 1]);
            }
        }
        assert forall|i: int| 0 <= i < pieces.len() - 1 implies (#[trigger] pieces[i]).1
            == pieces[i + 1].0 && pieces[i].1 - pieces[i].0 == size by {
            assert(pieces[i + 1] == rest[i]);
            if i > 0 {
                assert(pieces[i] == rest[i - 1]);
            }
        }
    }
}

/// The datagrams of a transmission put all its bytes on the wire, in order and
/// none twice: the first starts at 0, each starts where the one before ends, and
/// the last ends at `len`. Without a segment size there is exactly one. With one,
/// no datagram is empty or longer, and all but the last are as long; nothing is
/// sent of an empty transmission.
#[verifier::spinoff_prover]
#[verifier::rlimit(40)]
pub proof fn segments_put_every_byte_on_the_wire(
    len: usize,
    segment_size: Option<usize>,
    ranges: Vec<(usize, usize)>,
)
    requires
        segment_size != Some(0usize),
        call_ensures(segments, (len, segment_size), ranges),
    ensures
        segment_size is None ==> ranges@.len() == 1,
        ranges@.len() == 0 <==> segment_size is Some && len == 0,
        ranges@.len() > 0 ==> ranges@[0].0 == 0 && ranges@[ranges@.len() - 1].1 == len,
        forall|i: int|
            0 <= i < ranges@.len() - 1 ==> (#[trigger] ranges@[i]).1 == ranges@[i + 1].0,
        forall|i: int| 0 <= i < ranges@.len() ==> (#[trigger] ranges@[i]).0 <= ranges@[i].1,
        segment_size matches Some(size) ==> {
            &&& forall|i: int|
                0 <= i < ranges@.len() ==> 0 < (#[trigger] ranges@[i]).1 - ranges@[i].0 <= size
            &&& forall|i: int|
                0 <= i < ranges@.len() - 1 ==> (#[trigger] ranges@[i]).1 - ranges@[i].0 == size
        },
{
    let values = range_values(ranges@);
    assert(values.len() == ranges@.len());
    assert forall|i: int| 0 <= i < ranges@.len() implies (#[trigger] ranges@[i]).0
        == values[i].0 && ranges@[i].1 == values[i].1 by {}
    match segment_size {
        None => {
            assert(values[0] == (0int, len as int));
            assert(ranges@[0].0 == values[0].0);
        },
        Some(size) => {
            pieces_cover(0, len as int, size as int);
            if ranges@.len() > 0 {
                assert(ranges@[0].0 == values[0].0);
                assert(ranges@[ranges@.len() - 1].1 == values.last().1);
            }
            assert forall|i: int| 0 <= i < ranges@.len() implies 0 < (#[trigger] ranges@[i]).1
                - ranges@[i].0 <= size by {
                assert(0 < values[i].1 - values[i].0 <= size);
            }
            assert forall|i: int| 0 <= i < ranges@.len() - 1 implies (#[trigger] ranges@[i]).1
                == ranges@[i + 1].0 && ranges@[i].1 - ranges@[i].0 == size by {
                assert(values[i].1 == values[i + 1].0);
                assert(ranges@[i + 1].0 == values[i + 1].0);
            }
        },
    }
}

/// A sending task transmits exactly when the socket became writable, and fails
/// exactly when waiting for it did. It begins a wait when it is asked to send with
/// none in progress, or when the socket was full after all; every other outcome of
/// a transmission completes it. A wait is in progress afterwards exactly where one
/// was begun, or one went on that no event ended.
pub proof fn sending_tasks_wait_only_for_the_socket(
    waiting: bool,
    event: SendEvent,
    step: (bool, SendAction),
)
    requires
        call_ensures(send_step, (waiting, event), step),
    ensures
        step.1 is Transmit <==> event is Writable,
        step.1 is Fail <==> event is WaitFailed,
        step.1 is KeepWaiting <==> event is Asked && waiting,
        step.1 is BeginWait <==> (event is Asked && !waiting) || event == SendEvent::Refused(
            IoErrorKind::WouldBlock,
        ),
        step.1 is Complete <==> event is Sent || (event is Refused && event != SendEvent::Refused(
            IoErrorKind::WouldBlock,
        )),
        step.1 is BeginWait || step.1 is KeepWaiting ==> step.0,
        step.1 is Transmit || step.1 is Fail ==> !step.0,
        step.1 is Complete ==> step.0 == waiting,
{
}

} // verus!
