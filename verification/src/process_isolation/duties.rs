//! What the worker that answers scanners, and its ledger, are for.
//!
//! Each law speaks of what a call is given and what it gives back: through
//! which socket an answer goes, how many answers go out, what the pipe between
//! the two processes carries, and what is counted of it.
use crate::bytes::{be_bytes, be_bytes_len, be_round_trip, be_value, byte_span};
use crate::channel::Offer;
use crate::clock::Moment;
use crate::net::{broadcast_or_multicast, ip_text, is_broadcast_or_multicast, IpAddr};
use crate::process_isolation::handle::{
    book_outcome, log_totals, reap_within, ChildState, HandleShared, KillRefused, KillTally,
    ReapStep, ScannerKillHandle, SendOutcome, SHUTDOWN_GRACE,
};
use crate::process_isolation::limits::{PerDstRateLimiter, RateLimiter};
use crate::process_isolation::send::{
    run_step, HeldSockets, LoopStep, RawOutcome, ScannerKillWorker, SendStep,
};
use crate::process_isolation::wire::{
    a_cut_frame_gives_no_message, a_frame_reads_back, read_frame, write_frame, FaultKind,
    FrameFault, FrameReader, FrameStep, ReadEvent,
};
use crate::process_isolation::{
    kill_responses_sent, KillCounts, KillRequest, KillResponse, SendCounters, SendPath,
};
use crate::text::decimal_text;
use vstd::prelude::*;

verus! {

/// The addresses that are never answered are the IPv4 broadcast address, IPv4
/// multicast from 224.0.0.0 to 239.255.255.255, and IPv6 multicast, whose first
/// byte is all ones; every other address may be.
pub proof fn only_groups_are_never_answered(a: IpAddr, r: bool)
    requires
        call_ensures(is_broadcast_or_multicast, (a,), r),
    ensures
        a matches IpAddr::V4(v) ==> (r <==> v == 0xFFFF_FFFF || 0xE000_0000 <= v <= 0xEFFF_FFFF),
        a matches IpAddr::V6(v) ==> (r <==> v >= 0xFF00_0000_0000_0000_0000_0000_0000_0000),
{
}

/// Whether the limit across all destinations lets a request through: fewer
/// answers than it permits went out in its second, or a second has passed.
pub open spec fn the_second_has_room(max: nat, count: nat, start: Moment, now: Moment) -> bool {
    max > 0 && (count < max || now.nanos >= start.nanos + 1_000_000_000)
}

/// Whether the limit of a destination lets a request through: it had fewer than
/// three answers in its minute, or a minute has passed.
pub open spec fn the_minute_has_room(w: &ScannerKillWorker, dst: IpAddr, now: Moment) -> bool {
    w.per_dst_limiter.bucket(dst) matches Some(b) ==> b.count < 3 || now.nanos >= b.start.nanos
        + 60_000_000_000
}

/// Whether a request is let through.
pub open spec fn let_through(
    w: &ScannerKillWorker,
    dst: IpAddr,
    response: Seq<u8>,
    now: Moment,
) -> bool {
    let g = w.rate_limiter@;
    &&& !broadcast_or_multicast(dst)
    &&& response.len() > 0
    &&& the_second_has_room(g.max, g.count, g.start, now)
    &&& the_minute_has_room(w, dst, now)
}

/// Whether a step is to send from the ephemeral socket of a destination's
/// family, or to say that there is none.
pub open spec fn leaves_from_an_ephemeral_port(
    step: SendStep,
    dst: IpAddr,
    sockets: HeldSockets,
) -> bool {
    let held = match dst {
        IpAddr::V4(_) => sockets.udp_v4,
        IpAddr::V6(_) => sockets.udp_v6,
    };
    &&& held ==> step == (SendStep::SendUdp { v6: dst is V6 })
    &&& !held ==> (step matches SendStep::Answer(KillResponse::Error { message }) && message@
        == "no UDP socket available for "@ + ip_text(dst))
}

/// An answer that is let through comes from the address that was asked, through
/// the raw socket, wherever the worker holds one and both addresses are of one
/// family: the ephemeral sockets have no part in that. It leaves from an
/// ephemeral port only where there is no raw socket or the families differ.
pub proof fn a_raw_socket_is_preferred(
    w: &mut ScannerKillWorker,
    before: &ScannerKillWorker,
    dst: IpAddr,
    src: IpAddr,
    response: &[u8],
    now: Moment,
    step: SendStep,
)
    requires
        call_ensures(ScannerKillWorker::process_send, (w, dst, src, response, now), step),
        *before == *old(w),
        let_through(before, dst, response@, now),
    ensures
        before.sockets.raw && (dst is V4 <==> src is V4) ==> step == (SendStep::SendRaw {
            v6: dst is V6,
        }),
        !before.sockets.raw || !(dst is V4 <==> src is V4) ==> leaves_from_an_ephemeral_port(
            step,
            dst,
            before.sockets,
        ),
{
}

/// A request that is not let through is answered at once: a group address and
/// an empty response are rejected and use up nothing, and a limit that is
/// reached is said to be. Nothing is sent.
pub proof fn what_is_not_let_through_is_answered_at_once(
    w: &mut ScannerKillWorker,
    before: &ScannerKillWorker,
    dst: IpAddr,
    src: IpAddr,
    response: &[u8],
    now: Moment,
    step: SendStep,
)
    requires
        call_ensures(ScannerKillWorker::process_send, (w, dst, src, response, now), step),
        *before == *old(w),
        !let_through(before, dst, response@, now),
    ensures
        broadcast_or_multicast(dst) || response@.len() == 0 ==> *final(w) == *old(w),
        broadcast_or_multicast(dst) ==> (step matches SendStep::Answer(
            KillResponse::Rejected { reason },
        ) && reason@ == "rejected broadcast/multicast destination: "@ + ip_text(dst)),
        !broadcast_or_multicast(dst) && response@.len() == 0 ==> (step matches SendStep::Answer(
            KillResponse::Rejected { reason },
        ) && reason@ == "empty response bytes"@),
        !broadcast_or_multicast(dst) && response@.len() > 0 ==> step == SendStep::Answer(
            KillResponse::RateLimited,
        ),
{
}

/// Each answer that is let through uses up one of its second and one of its
/// destination's minute, and no other destination's. A limit across all
/// destinations that stops a request leaves the destinations alone.
pub proof fn an_answer_uses_up_its_own_allowance(
    w: &mut ScannerKillWorker,
    dst: IpAddr,
    src: IpAddr,
    response: &[u8],
    now: Moment,
    step: SendStep,
    other: IpAddr,
)
    requires
        call_ensures(ScannerKillWorker::process_send, (w, dst, src, response, now), step),
        !broadcast_or_multicast(dst),
        response@.len() > 0,
        other != dst,
    ensures
        ({
            let g = old(w).rate_limiter@;
            let after = final(w).rate_limiter@;
            let room = the_second_has_room(g.max, g.count, g.start, now);
            let fresh = now.nanos >= g.start.nanos + 1_000_000_000;
            &&& after.max == g.max
            &&& after.start == if fresh {
                now
            } else {
                g.start
            }
            &&& room ==> after.count == if fresh {
                1
            } else {
                g.count + 1
            }
            &&& !room ==> final(w).per_dst_limiter == old(w).per_dst_limiter
            &&& !room && !fresh ==> after.count == g.count
        }),
        final(w).per_dst_limiter.bucket(other) matches Some(b) ==> old(w).per_dst_limiter.bucket(
            other,
        ) == Some(b),
        old(w).per_dst_limiter.bucket(other) matches Some(b) ==> final(w).per_dst_limiter.bucket(
            other,
        ) == Some(b) || now.nanos >= b.start.nanos + 120_000_000_000,
{
}

/// A destination's own window: it begins with its first answer and again once a
/// minute has passed, and counts each answer let through in between.
pub proof fn a_destination_has_a_window_of_its_own(
    l: &mut PerDstRateLimiter,
    dst: IpAddr,
    now: Moment,
    r: bool,
)
    requires
        call_ensures(PerDstRateLimiter::allow, (l, dst, now), r),
        old(l).valid(),
    ensures
        final(l).bucket(dst) is Some,
        final(l).bucket(dst)->0.dst == dst || old(l).bucket(dst) is Some,
        ({
            let after = final(l).bucket(dst)->0;
            match old(l).bucket(dst) {
                None => r && after.count == 1 && after.start == now,
                Some(b) => if now.nanos >= b.start.nanos + 60_000_000_000 {
                    r && after.count == 1 && after.start == now
                } else if b.count < 3 {
                    r && after.count == b.count + 1 && after.start == b.start
                } else {
                    !r && after == b
                },
            }
        }),
{
}

/// Windows that are two minutes old are forgotten, at most once a second, and
/// no younger ones.
pub proof fn only_old_windows_are_forgotten(
    l: &mut PerDstRateLimiter,
    now: Moment,
    dst: IpAddr,
)
    requires
        call_ensures(PerDstRateLimiter::cleanup_if_due, (l, now), ()),
    ensures
        ({
            let due = match old(l).last_cleanup() {
                None => true,
                Some(last) => now.nanos >= last.nanos + 1_000_000_000,
            };
            &&& !due ==> *final(l) == *old(l)
            &&& due ==> final(l).last_cleanup() == Some(now)
            &&& due ==> (old(l).bucket(dst) matches Some(b) ==> final(l).bucket(dst) == if now.nanos
                >= b.start.nanos + 120_000_000_000 {
                None
            } else {
                Some(b)
            })
            &&& old(l).bucket(dst) is None ==> final(l).bucket(dst) is None
        }),
{
}

/// The limit across all destinations: it begins a new second once one has
/// passed, and lets through what it permits in each.
pub proof fn a_second_lets_through_what_it_permits(l: &mut RateLimiter, now: Moment, r: bool)
    requires
        call_ensures(RateLimiter::allow, (l, now), r),
    ensures
        ({
            let was = old(l)@;
            let ends = final(l)@;
            let fresh = now.nanos >= was.start.nanos + 1_000_000_000;
            &&& r <==> the_second_has_room(was.max, was.count, was.start, now)
            &&& ends.max == was.max
            &&& fresh ==> ends.start == now && ends.count == if r {
                1int
            } else {
                0int
            }
            &&& !fresh ==> ends.start == was.start && ends.count == was.count + if r {
                1int
            } else {
                0int
            }
        }),
{
}

/// A new worker has sent nothing and holds what it was given.
pub proof fn a_new_worker_has_sent_nothing(
    max: u32,
    sockets: HeldSockets,
    now: Moment,
    w: ScannerKillWorker,
    dst: IpAddr,
)
    requires
        call_ensures(ScannerKillWorker::new, (max, sockets, now), w),
    ensures
        w.rate_limiter@.max == max,
        w.rate_limiter@.count == 0,
        w.rate_limiter@.start == now,
        w.per_dst_limiter.bucket(dst) is None,
        w.sockets == sockets,
{
}

/// A send through the raw socket that succeeded is the answer; one that did not
/// is tried from an ephemeral port rather than dropped.
pub proof fn a_failed_raw_send_is_tried_again(
    w: &ScannerKillWorker,
    dst: IpAddr,
    outcome: RawOutcome,
    step: SendStep,
)
    requires
        call_ensures(ScannerKillWorker::after_raw, (w, dst, outcome), step),
    ensures
        outcome == RawOutcome::Sent ==> step == SendStep::Answer(
            KillResponse::Sent { path: SendPath::Raw },
        ),
        outcome != RawOutcome::Sent ==> leaves_from_an_ephemeral_port(step, dst, w.sockets),
{
}

/// A send from an ephemeral port is answered as what came of it.
pub proof fn an_ephemeral_send_is_answered(
    w: &ScannerKillWorker,
    dst: IpAddr,
    port: u16,
    outcome: Result<(), String>,
    r: KillResponse,
)
    requires
        call_ensures(ScannerKillWorker::after_udp, (w, dst, port, outcome), r),
    ensures
        outcome is Ok ==> r == (KillResponse::Sent { path: SendPath::Ephemeral }),
        outcome matches Err(e) ==> (r matches KillResponse::Error { message } && message@
            == "send to "@ + ip_text(dst) + ":"@ + decimal_text(port as nat) + " failed: "@ + e@),
{
}

/// The loop handles every request with the addresses, ports and bytes it came
/// with, and ends at a shutdown and at the end of the requests.
pub proof fn every_request_is_handled_until_the_end(q: Option<KillRequest>, r: LoopStep)
    requires
        call_ensures(run_step, (q,), r),
    ensures
        q is None ==> r is Exit,
        q matches Some(KillRequest::Shutdown) ==> r is Exit,
        q matches Some(
            KillRequest::SendResponse { dst_addr, dst_port, src_addr, src_port, response_bytes },
        ) ==> (r matches LoopStep::Process {
            dst_addr: d,
            dst_port: dp,
            src_addr: s,
            src_port: sp,
            response_bytes: b,
        } && d == dst_addr && dp == dst_port && s == src_addr && sp == src_port && b
            == response_bytes),
{
}

/// A message is framed where it is no longer than a mebibyte: four bytes that
/// give its length, the most significant first, and then its own.
pub proof fn a_frame_is_its_length_and_its_message(body: &[u8], r: Result<Vec<u8>, FrameFault>)
    requires
        call_ensures(write_frame, (body,), r),
    ensures
        r is Ok <==> body@.len() <= 1_048_576,
        r matches Err(f) ==> f.kind == FaultKind::InvalidData,
        r matches Ok(frame) ==> {
            &&& frame@.len() == body@.len() + 4
            &&& frame@[0] * 0x100_0000 + frame@[1] * 0x1_0000 + frame@[2] * 0x100 + frame@[3]
                == body@.len()
            &&& frame@.skip(4) == body@
        },
{
    if let Ok(frame) = r {
        let h = be_bytes(body@.len(), 4);
        be_bytes_len(body@.len(), 4);
        assert(byte_span(4) == 0x1_0000_0000) by {
            reveal_with_fuel(byte_span, 5);
        }
        be_round_trip(body@.len(), 4);
        assert(frame@.skip(4) =~= body@);
        assert(frame@.take(4) =~= h);
        reveal_with_fuel(be_value, 5);
        assert(h.drop_last().drop_last().drop_last().last() == h[0]);
        assert(h.drop_last().drop_last().last() == h[1]);
        assert(h.drop_last().last() == h[2]);
        assert(h.last() == h[3]);
    }
}

/// What was written is read back, whatever follows it on the stream, and the
/// reader knows how far it has read.
pub proof fn what_was_written_is_read(
    body: &[u8],
    frame: Vec<u8>,
    rest: Seq<u8>,
    stream: &[u8],
    r: Result<Option<(Vec<u8>, usize)>, FrameFault>,
)
    requires
        call_ensures(write_frame, (body,), Ok(frame)),
        call_ensures(read_frame, (stream,), r),
        stream@ == frame@ + rest,
    ensures
        r matches Ok(Some((message, n))) && message@ == body@ && n == frame@.len(),
{
    a_frame_reads_back(body@, rest);
    be_bytes_len(body@.len(), 4);
}

/// A stream that ends inside a frame is a fault and never a message, and one
/// that ends between two frames is a clean end. A length over a mebibyte is a
/// fault, whatever follows.
pub proof fn a_cut_stream_is_a_fault(
    body: &[u8],
    frame: Vec<u8>,
    at: int,
    stream: &[u8],
    r: Result<Option<(Vec<u8>, usize)>, FrameFault>,
)
    requires
        call_ensures(write_frame, (body,), Ok(frame)),
        call_ensures(read_frame, (stream,), r),
        0 <= at < frame@.len(),
        stream@ == frame@.take(at),
    ensures
        at == 0 ==> (r matches Ok(None)),
        at > 0 ==> (r matches Err(f) && f.kind == FaultKind::UnexpectedEof),
{
    a_cut_frame_gives_no_message(body@, at);
}

/// A length over a mebibyte is a fault, whatever follows it.
pub proof fn a_length_over_the_limit_is_a_fault(
    stream: &[u8],
    r: Result<Option<(Vec<u8>, usize)>, FrameFault>,
)
    requires
        call_ensures(read_frame, (stream,), r),
        stream@.len() >= 4,
        stream@[0] * 0x100_0000 + stream@[1] * 0x1_0000 + stream@[2] * 0x100 + stream@[3]
            > 1_048_576,
    ensures
        r matches Err(f) && f.kind == FaultKind::InvalidData,
{
    let h = stream@.take(4);
    reveal_with_fuel(be_value, 5);
    assert(h.drop_last().drop_last().drop_last().last() == h[0]);
    assert(h.drop_last().drop_last().last() == h[1]);
    assert(h.drop_last().last() == h[2]);
    assert(h.last() == h[3]);
}

/// A frame that arrives in pieces is the message it was written from once its
/// last piece is there, and nothing before.
pub proof fn a_frame_in_pieces_is_the_message(
    body: &[u8],
    frame: Vec<u8>,
    at: int,
    reader: &mut FrameReader,
    piece: Vec<u8>,
    step: FrameStep,
)
    requires
        call_ensures(write_frame, (body,), Ok(frame)),
        call_ensures(FrameReader::feed, (reader, ReadEvent::Bytes(piece)), step),
        0 <= at <= frame@.len(),
        old(reader)@ + piece@ == frame@.take(at),
    ensures
        at < frame@.len() ==> step is More && final(reader)@ == frame@.take(at),
        at == frame@.len() ==> (step matches FrameStep::Frame(m) && m@ == body@) && final(
            reader)@.len() == 0,
{
    a_frame_reads_back(body@, seq![]);
    assert(frame@ + seq![] =~= frame@);
    if at < frame@.len() {
        a_cut_frame_gives_no_message(body@, at);
    } else {
        assert(frame@.take(at) =~= frame@);
    }
}

/// The end of a stream is clean exactly between two frames; an interrupted read
/// changes nothing; a broken one is a fault with its own words.
pub proof fn an_end_inside_a_frame_is_no_clean_end(
    reader: &mut FrameReader,
    event: ReadEvent,
    step: FrameStep,
)
    requires
        call_ensures(FrameReader::feed, (reader, event), step),
    ensures
        event is End ==> (step is CleanEnd <==> old(reader)@.len() == 0),
        event is End && old(reader)@.len() > 0 ==> (step matches FrameStep::Fault(f) && f.kind
            == FaultKind::UnexpectedEof),
        event is Interrupted ==> step is More && final(reader)@ == old(reader)@,
        event matches ReadEvent::Failed(e) ==> (step matches FrameStep::Fault(f) && f.kind
            == FaultKind::Broken && f.message == e),
{
}

/// Whether one count is one further than another, or both wrap.
pub open spec fn one_further(before: u64, after: u64) -> bool {
    if before == 0xFFFF_FFFF_FFFF_FFFF {
        after == 0
    } else {
        after == before + 1
    }
}

/// Each path has a count of its own, and reading gives both in their order.
pub proof fn each_path_is_counted_by_itself(
    c: &mut SendCounters,
    path: SendPath,
    after: &SendCounters,
    r: (u64, u64),
    before: &SendCounters,
    q: (u64, u64),
)
    requires
        call_ensures(SendCounters::bump, (c, path), ()),
        *before == *old(c),
        *after == *final(c),
        call_ensures(kill_responses_sent, (before,), q),
        call_ensures(kill_responses_sent, (after,), r),
    ensures
        path == SendPath::Raw ==> one_further(q.0, r.0) && r.1 == q.1,
        path == SendPath::Ephemeral ==> one_further(q.1, r.1) && r.0 == q.0,
{
}

/// An outcome is booked in its own class and in no other, and a send on the
/// path it took.
pub proof fn an_outcome_is_booked_in_its_class(
    tally: &mut KillTally,
    counters: &mut SendCounters,
    outcome: &KillResponse,
)
    requires
        call_ensures(book_outcome, (tally, counters, outcome), ()),
        old(tally).ready(),
    ensures
        ({
            let was = old(tally).counts();
            let ends = final(tally).counts();
            let sent = *outcome is Sent;
            &&& ends.sent == was.sent + if sent {
                1int
            } else {
                0int
            }
            &&& ends.rate_limited == was.rate_limited + if *outcome is RateLimited {
                1int
            } else {
                0int
            }
            &&& ends.rejected == was.rejected + if *outcome is Rejected {
                1int
            } else {
                0int
            }
            &&& ends.errored == was.errored + if *outcome is Error {
                1int
            } else {
                0int
            }
            &&& ends.accepted == was.accepted
            &&& ends.dropped_requests == was.dropped_requests
            &&& ends.unobserved_outcomes == was.unobserved_outcomes
            &&& !sent ==> final(counters).raw() == old(counters).raw()
                && final(counters).ephemeral() == old(counters).ephemeral()
            &&& *outcome == (KillResponse::Sent { path: SendPath::Raw }) ==> one_further(
                old(counters).raw(),
                final(counters).raw(),
            ) && final(counters).ephemeral() == old(counters).ephemeral()
            &&& *outcome == (KillResponse::Sent { path: SendPath::Ephemeral }) ==> one_further(
                old(counters).ephemeral(),
                final(counters).ephemeral(),
            ) && final(counters).raw() == old(counters).raw()
        }),
{
}

/// A request is offered exactly once while the handle is open and the worker
/// there, and comes back where it was not queued. A queued send is accepted; a
/// full queue is a drop, said once, and no death; a closed queue disarms the
/// defense, said once.
pub proof fn a_request_is_queued_or_comes_back(
    h: &mut ScannerKillHandle,
    request: KillRequest,
    r: SendOutcome,
)
    requires
        call_ensures(ScannerKillHandle::send_kill, (h, request), r),
        old(h).shared.tally.ready(),
        old(h).shared.tally.counts().accepted + 1 < u64::MAX,
    ensures
        ({
            let was = old(h).shared.tally.counts();
            let ends = final(h).shared.tally.counts();
            let offered = old(h).open() && !old(h).shared.tally.worker_gone();
            let fate = final(h).offers().last().1;
            &&& offered ==> final(h).offers().len() == old(h).offers().len() + 1
                && final(h).offers().last().0 == request
            &&& !offered ==> final(h).offers() == old(h).offers()
            &&& ends.sent == was.sent && ends.rate_limited == was.rate_limited && ends.rejected
                == was.rejected && ends.errored == was.errored
            &&& offered && fate is Taken ==> {
                &&& r.result is Ok && r.notice is None
                &&& ends.dropped_requests == was.dropped_requests
                &&& ends.accepted == was.accepted + if request is SendResponse {
                    1int
                } else {
                    0int
                }
                &&& final(h).shared.defense_disabled == old(h).shared.defense_disabled
            }
            &&& offered && fate is Full ==> {
                &&& r.result == Err::<(), KillRefused>(KillRefused::Full(request))
                &&& r.notice is Some <==> !old(h).shared.tally.drop_reported()
                &&& final(h).shared.tally.drop_reported()
                &&& ends.dropped_requests == was.dropped_requests + 1
                &&& ends.accepted == was.accepted
                &&& final(h).shared.defense_disabled == old(h).shared.defense_disabled
            }
            &&& !offered || fate is Closed ==> {
                &&& r.result == Err::<(), KillRefused>(KillRefused::Disconnected(request))
                &&& r.notice is Some <==> !old(h).shared.defense_disabled
                &&& final(h).shared.defense_disabled
                &&& ends.dropped_requests == was.dropped_requests
                &&& ends.accepted == was.accepted
                &&& final(h).shared.tally.drop_reported() == old(h).shared.tally.drop_reported()
            }
            &&& ends.unobserved_outcomes == was.unobserved_outcomes
            &&& final(h).shared.tally.worker_gone() == old(h).shared.tally.worker_gone()
            &&& final(h).shared.tally.unobserved_reported() == old(
                h).shared.tally.unobserved_reported()
        }),
{
}

/// A snapshot gives what was counted; once the worker is gone, what was
/// accepted and has no outcome is lost, and nothing is before.
pub proof fn what_has_no_outcome_is_lost_with_the_worker(t: &KillTally, r: KillCounts)
    requires
        call_ensures(KillTally::snapshot, (t,), r),
        t.counts().sent + t.counts().rate_limited + t.counts().rejected + t.counts().errored
            <= t.counts().accepted,
    ensures
        r.sent == t.counts().sent,
        r.rate_limited == t.counts().rate_limited,
        r.rejected == t.counts().rejected,
        r.errored == t.counts().errored,
        r.accepted == t.counts().accepted,
        r.dropped_requests == t.counts().dropped_requests,
        r.unobserved_outcomes == t.counts().unobserved_outcomes,
        !t.worker_gone() ==> r.lost_to_worker_exit == 0,
        t.worker_gone() ==> r.sent + r.rate_limited + r.rejected + r.errored
            + r.lost_to_worker_exit == r.accepted,
{
}

/// The outcomes of a ledger are its four classes together, and it is a cause
/// for a warning where anything was dropped, unobserved or lost.
pub proof fn a_ledger_adds_up_its_four_classes(
    c: &KillCounts,
    n: u64,
    any: bool,
    line: (String, bool),
)
    requires
        call_ensures(KillCounts::outcomes, (c,), n),
        call_ensures(KillCounts::any_dropped, (c,), any),
        call_ensures(log_totals, (c,), line),
    ensures
        n == c.sent + c.rate_limited + c.rejected + c.errored,
        !any <==> c.dropped_requests == 0 && c.unobserved_outcomes == 0 && c.lost_to_worker_exit
            == 0,
        line.1 == any,
        line.0@ == "Scanner-kill totals: "@ + decimal_text(c.sent as nat) + " sent, "@
            + decimal_text(c.rate_limited as nat) + " rate-limited, "@ + decimal_text(
            c.rejected as nat,
        ) + " rejected, "@ + decimal_text(c.errored as nat) + " failed"@ + if any {
            "; "@ + decimal_text(c.dropped_requests as nat)
                + " request(s) dropped because the worker was behind, "@ + decimal_text(
                c.lost_to_worker_exit as nat,
            ) + " lost with the worker process, "@ + decimal_text(c.unobserved_outcomes as nat)
                + " outcome(s) unobserved because nothing was reading the outcome channel"@
        } else {
            seq![]
        },
{
}

/// The process that answers is waited for until the deadline, killed from then
/// on, and never left behind.
pub proof fn the_worker_process_is_never_left_behind(
    child: ChildState,
    now: Moment,
    deadline: Moment,
    r: ReapStep,
)
    requires
        call_ensures(reap_within, (child, now, deadline), r),
    ensures
        r == ReapStep::Done <==> child == ChildState::Exited,
        r == ReapStep::LookAgain <==> child == ChildState::Running && now.nanos < deadline.nanos,
        r == ReapStep::Kill <==> child == ChildState::Unknown || (child == ChildState::Running
            && now.nanos >= deadline.nanos),
{
}

/// Each thing that happens to the ledger moves its own counter by one and
/// leaves every other as it was.
pub proof fn each_event_moves_one_counter(
    dropped: &mut KillTally,
    said: Option<String>,
    unobserved: &mut KillTally,
    told: Option<String>,
    accepted: &mut KillTally,
    refused: &mut KillTally,
)
    requires
        call_ensures(KillTally::note_dropped_request, (dropped,), said),
        call_ensures(KillTally::note_unobserved_outcome, (unobserved,), told),
        call_ensures(KillTally::note_accepted, (accepted,), ()),
        call_ensures(KillTally::unaccept, (refused,), ()),
        old(dropped).ready(),
        old(unobserved).ready(),
        old(accepted).ready(),
        old(refused).counts().accepted > 0,
    ensures
        ({
            let was = old(dropped).counts();
            let ends = final(dropped).counts();
            &&& ends.dropped_requests == was.dropped_requests + 1
            &&& same_outcomes(was, ends)
            &&& ends.accepted == was.accepted
            &&& ends.unobserved_outcomes == was.unobserved_outcomes
            &&& final(dropped).drop_reported()
            &&& said is Some <==> !old(dropped).drop_reported()
            &&& final(dropped).unobserved_reported() == old(dropped).unobserved_reported()
            &&& final(dropped).worker_gone() == old(dropped).worker_gone()
        }),
        ({
            let was = old(unobserved).counts();
            let ends = final(unobserved).counts();
            &&& ends.unobserved_outcomes == was.unobserved_outcomes + 1
            &&& same_outcomes(was, ends)
            &&& ends.accepted == was.accepted
            &&& ends.dropped_requests == was.dropped_requests
            &&& final(unobserved).unobserved_reported()
            &&& told is Some <==> !old(unobserved).unobserved_reported()
            &&& final(unobserved).drop_reported() == old(unobserved).drop_reported()
            &&& final(unobserved).worker_gone() == old(unobserved).worker_gone()
        }),
        ({
            let was = old(accepted).counts();
            let ends = final(accepted).counts();
            &&& ends.accepted == was.accepted + 1
            &&& same_outcomes(was, ends)
            &&& ends.dropped_requests == was.dropped_requests
            &&& ends.unobserved_outcomes == was.unobserved_outcomes
        }),
        ({
            let was = old(refused).counts();
            let ends = final(refused).counts();
            &&& ends.accepted == was.accepted - 1
            &&& same_outcomes(was, ends)
            &&& ends.dropped_requests == was.dropped_requests
            &&& ends.unobserved_outcomes == was.unobserved_outcomes
        }),
{
}

/// Whether two ledgers say the same of each of the four outcomes.
pub open spec fn same_outcomes(a: KillCounts, b: KillCounts) -> bool {
    &&& a.sent == b.sent
    &&& a.rate_limited == b.rate_limited
    &&& a.rejected == b.rejected
    &&& a.errored == b.errored
}

/// That the worker is gone stays known, moves no counter and is what a reader is
/// told.
pub proof fn a_worker_that_is_gone_is_known_to_be(
    t: &mut KillTally,
    after: &KillTally,
    seen: bool,
    before: &KillTally,
    there: bool,
)
    requires
        call_ensures(KillTally::note_worker_gone, (t,), ()),
        *after == *final(t),
        call_ensures(KillTally::is_worker_gone, (after,), seen),
        call_ensures(KillTally::is_worker_gone, (before,), there),
    ensures
        seen,
        there == before.worker_gone(),
        after.counts() == old(t).counts(),
{
}

/// A dead defense is reported the first time only, and stays dead.
pub proof fn a_dead_defense_is_reported_once(
    h: &mut HandleShared,
    first: Option<String>,
    between: &mut HandleShared,
    again: Option<String>,
)
    requires
        call_ensures(HandleShared::report_defense_disabled, (h,), first),
        *old(between) == *final(h),
        call_ensures(HandleShared::report_defense_disabled, (between,), again),
        old(h).tally.counts().outcomes_spec() <= u64::MAX,
    ensures
        first is Some <==> !old(h).defense_disabled,
        again is None,
        final(h).defense_disabled && final(between).defense_disabled,
        final(between).tally == old(h).tally,
        final(between).shutting_down == old(h).shutting_down,
{
}

/// What the queue did with a request decides what the caller is told: one that
/// was taken is taken; one that found the queue full comes back as such and is
/// counted as dropped; one that found the queue closed comes back as such and
/// shows the defense to be dead. One that comes back was not accepted.
pub proof fn an_offer_is_settled_as_it_ended(
    h: &mut HandleShared,
    was_send: bool,
    offer: Offer<KillRequest>,
    r: SendOutcome,
)
    requires
        call_ensures(HandleShared::settle_offer, (h, was_send, offer), r),
        old(h).tally.ready(),
        was_send ==> old(h).tally.counts().accepted > 0,
    ensures
        ({
            let was = old(h).tally.counts();
            let ends = final(h).tally.counts();
            let taken_back = if was_send {
                1int
            } else {
                0int
            };
            &&& same_outcomes(was, ends)
            &&& ends.unobserved_outcomes == was.unobserved_outcomes
            &&& offer is Sent ==> {
                &&& r.result is Ok && r.notice is None
                &&& ends.accepted == was.accepted && ends.dropped_requests
                    == was.dropped_requests
                &&& final(h).defense_disabled == old(h).defense_disabled
            }
            &&& offer matches Offer::Full(request) ==> {
                &&& r.result == Err::<(), KillRefused>(KillRefused::Full(request))
                &&& r.notice is Some <==> !old(h).tally.drop_reported()
                &&& ends.accepted == was.accepted - taken_back
                &&& ends.dropped_requests == was.dropped_requests + 1
                &&& final(h).defense_disabled == old(h).defense_disabled
            }
            &&& offer matches Offer::Closed(request) ==> {
                &&& r.result == Err::<(), KillRefused>(KillRefused::Disconnected(request))
                &&& r.notice is Some <==> !old(h).defense_disabled
                &&& ends.accepted == was.accepted - taken_back
                &&& ends.dropped_requests == was.dropped_requests
                &&& final(h).defense_disabled
            }
        }),
{
}

/// An outcome that is taken off the stream is the next one of it, and nothing
/// else changes; where there is none, nothing changes at all.
pub proof fn an_outcome_is_taken_off_the_stream(
    h: &mut ScannerKillHandle,
    r: Option<KillResponse>,
)
    requires
        call_ensures(ScannerKillHandle::try_recv_response, (h,), r),
    ensures
        r matches Some(outcome) ==> final(h).resp_rx.log() == old(h).resp_rx.log().push(outcome),
        r is None ==> final(h).resp_rx.log() == old(h).resp_rx.log(),
        final(h).offers() == old(h).offers(),
        final(h).open() == old(h).open(),
        final(h).shared == old(h).shared,
{
}

/// A handle tells what its ledger says, whether its defense is dead, and which
/// descriptors the worker was given.
pub proof fn a_handle_tells_what_it_holds(
    h: &ScannerKillHandle,
    dead: bool,
    counts: KillCounts,
    ledger: KillCounts,
)
    requires
        call_ensures(ScannerKillHandle::defense_disabled, (h,), dead),
        call_ensures(ScannerKillHandle::counts, (h,), counts),
        call_ensures(KillTally::snapshot, (&h.shared.tally,), ledger),
        h.shared.tally.counts().outcomes_spec() <= u64::MAX,
    ensures
        dead == h.shared.defense_disabled,
        counts == ledger,
{
}

/// The counters of the two paths begin at zero.
pub proof fn nothing_was_sent_at_first(c: SendCounters, r: (u64, u64))
    requires
        call_ensures(SendCounters::new, (), c),
        call_ensures(kill_responses_sent, (&c,), r),
    ensures
        r.0 == 0 && r.1 == 0,
{
}

/// A worker that was asked to stop has five seconds for it, and is killed then.
pub proof fn a_worker_has_five_seconds_to_stop(
    start: Moment,
    now: Moment,
    deadline: Moment,
    r: ReapStep,
)
    requires
        deadline.nanos == start.nanos + SHUTDOWN_GRACE,
        call_ensures(reap_within, (ChildState::Running, now, deadline), r),
    ensures
        r == ReapStep::LookAgain <==> now.nanos < start.nanos + 5_000_000_000,
        r == ReapStep::Kill <==> now.nanos >= start.nanos + 5_000_000_000,
{
}

/// The ledger, and what is shared with it, begin with nothing counted, nothing
/// said, and the worker there.
pub proof fn a_ledger_begins_with_nothing(t: KillTally, h: HandleShared)
    requires
        call_ensures(KillTally::new, (), t),
        call_ensures(HandleShared::new, (), h),
    ensures
        t.counts().sent == 0 && t.counts().rate_limited == 0 && t.counts().rejected == 0
            && t.counts().errored == 0,
        t.counts().accepted == 0 && t.counts().dropped_requests == 0
            && t.counts().unobserved_outcomes == 0 && t.counts().lost_to_worker_exit == 0,
        !t.drop_reported() && !t.unobserved_reported() && !t.worker_gone(),
        h.tally.counts() == t.counts() && !h.tally.worker_gone(),
        !h.tally.drop_reported() && !h.tally.unobserved_reported(),
        !h.defense_disabled && !h.shutting_down,
{
}

/// A limit begins with all of its room, and the limit of each destination with no
/// window at all.
pub proof fn limits_begin_with_all_their_room(
    max: u32,
    now: Moment,
    all: RateLimiter,
    each: PerDstRateLimiter,
    dst: IpAddr,
)
    requires
        call_ensures(RateLimiter::new, (max, now), all),
        call_ensures(PerDstRateLimiter::new, (), each),
    ensures
        all@.max == max && all@.count == 0 && all@.start == now,
        each.bucket(dst) is None,
{
}

/// A reader begins between two frames and wants the four bytes of a length first;
/// it never wants more than is missing of them.
pub proof fn a_reader_wants_the_length_first(new: FrameReader, reader: &FrameReader, n: usize)
    requires
        call_ensures(FrameReader::new, (), new),
        call_ensures(FrameReader::wants, (reader,), n),
        reader.valid(),
    ensures
        new@.len() == 0,
        reader@.len() < 4 ==> n == 4 - reader@.len(),
        reader@.len() >= 4 && be_value(reader@.take(4)) <= 1_048_576 ==> n == 4 + be_value(
            reader@.take(4),
        ) - reader@.len(),
{
}

} // verus!
