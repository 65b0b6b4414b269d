//! The worker's decision on each request.
//!
//! A request is refused, limited, or sent: through the raw socket where there
//! is one and the families agree, and otherwise, or where that fails, from an
//! ephemeral port. The sends themselves are made by whoever drives this.
use crate::clock::Moment;
use crate::net::{broadcast_or_multicast, ip_text, is_broadcast_or_multicast, IpAddr};
use crate::process_isolation::limits::{
    sweep_due, swept, window_after, window_at, PerDstRateLimiter, RateLimiter, WindowState,
    MAX_PER_DST_PER_MINUTE,
};
use crate::process_isolation::{KillRequest, KillResponse, SendPath};
use crate::text::{decimal, decimal_text};
use vstd::prelude::*;
use vstd::string::*;

verus! {

/// What is to be done about a request.
#[derive(Debug)]
pub enum SendStep {
    /// Answer it.
    Answer(KillResponse),
    /// Build a datagram with the victim's address as source, send it through
    /// the raw socket of this family, and say what came of it.
    SendRaw {
        /// Whether it is the IPv6 socket.
        v6: bool,
    },
    /// Send the response from the ephemeral socket of this family, and say
    /// what came of it.
    SendUdp {
        /// Whether it is the IPv6 socket.
        v6: bool,
    },
}

/// What came of a send through the raw socket.
#[derive(Debug, Clone, Copy, PartialEq, Eq, Structural)]
pub enum RawOutcome {
    /// It was sent.
    Sent,
    /// It failed.
    Failed,
    /// No datagram could be built.
    NotBuilt,
}

/// What an answer says, as plain text.
pub ghost enum AnswerView {
    /// Sent, through this socket.
    Sent(SendPath),
    /// Dropped by a limit.
    RateLimited,
    /// Refused, for this reason.
    Rejected(Seq<char>),
    /// Failed, like this.
    Error(Seq<char>),
}

impl View for KillResponse {
    type V = AnswerView;

    open spec fn view(&self) -> AnswerView {
        match *self {
            KillResponse::Sent { path } => AnswerView::Sent(path),
            KillResponse::RateLimited => AnswerView::RateLimited,
            KillResponse::Rejected { reason } => AnswerView::Rejected(reason@),
            KillResponse::Error { message } => AnswerView::Error(message@),
        }
    }
}

/// What is to be done, as plain values.
pub ghost enum StepView {
    /// Answer.
    Answer(AnswerView),
    /// Send through the raw socket.
    SendRaw(bool),
    /// Send from the ephemeral socket.
    SendUdp(bool),
}

impl View for SendStep {
    type V = StepView;

    open spec fn view(&self) -> StepView {
        match *self {
            SendStep::Answer(a) => StepView::Answer(a@),
            SendStep::SendRaw { v6 } => StepView::SendRaw(v6),
            SendStep::SendUdp { v6 } => StepView::SendUdp(v6),
        }
    }
}

/// Which sockets the worker holds.
#[derive(Debug, Clone, Copy, PartialEq, Eq, Structural)]
pub struct HeldSockets {
    /// Whether there is a raw socket of either family.
    pub raw: bool,
    /// Whether there is an ephemeral IPv4 socket.
    pub udp_v4: bool,
    /// Whether there is an ephemeral IPv6 socket.
    pub udp_v6: bool,
}

/// The worker: its limits, and what it can send through.
#[derive(Debug)]
pub struct ScannerKillWorker {
    /// Limits responses across all destinations.
    pub rate_limiter: RateLimiter,
    /// Limits responses to each destination.
    pub per_dst_limiter: PerDstRateLimiter,
    /// What it can send through.
    pub sockets: HeldSockets,
}

/// Whether a request is refused whatever the limits, and why.
pub open spec fn refused(dst: IpAddr, response: Seq<u8>) -> Option<Seq<char>> {
    if broadcast_or_multicast(dst) {
        Some("rejected broadcast/multicast destination: "@ + ip_text(dst))
    } else if response.len() == 0 {
        Some("empty response bytes"@)
    } else {
        None
    }
}

/// Where a response goes without spoofing: from the ephemeral socket of the
/// destination's family, or nowhere.
pub open spec fn fallback(dst: IpAddr, sockets: HeldSockets) -> StepView {
    if dst is V4 && sockets.udp_v4 {
        StepView::SendUdp(false)
    } else if dst is V6 && sockets.udp_v6 {
        StepView::SendUdp(true)
    } else {
        StepView::Answer(AnswerView::Error("no UDP socket available for "@ + ip_text(dst)))
    }
}

/// Where a response goes that may go.
pub open spec fn dispatched(dst: IpAddr, src: IpAddr, sockets: HeldSockets) -> StepView {
    if sockets.raw && dst is V4 && src is V4 {
        StepView::SendRaw(false)
    } else if sockets.raw && dst is V6 && src is V6 {
        StepView::SendRaw(true)
    } else {
        fallback(dst, sockets)
    }
}

/// What is said of an ephemeral send that failed.
pub open spec fn failed_text(dst: IpAddr, port: u16, error: Seq<char>) -> Seq<char> {
    "send to "@ + ip_text(dst) + ":"@ + decimal_text(port as nat) + " failed: "@ + error
}

/// Where a response goes without spoofing.
fn fall_back(dst: IpAddr, sockets: HeldSockets) -> (r: SendStep)
    ensures
        r@ == fallback(dst, sockets),
{
    let held: bool = match dst {
        IpAddr::V4(_) => sockets.udp_v4,
        IpAddr::V6(_) => sockets.udp_v6,
    };
    if held {
        return SendStep::SendUdp { v6: dst.is_v6() };
    }
    let mut message = String::from_str("no UDP socket available for ");
    message.append(dst.to_text().as_str());
    SendStep::Answer(KillResponse::Error { message })
}

impl ScannerKillWorker {
    /// A worker with this limit and these sockets, at this time.
    pub fn new(rate_limit: u32, sockets: HeldSockets, now: Moment) -> (r: Self)
        ensures
            r.rate_limiter@ == (WindowState { max: rate_limit as nat, count: 0, start: now }),
            r.per_dst_limiter.valid(),
            forall|d: IpAddr| #[trigger] r.per_dst_limiter.bucket(d) is None,
            r.per_dst_limiter.last_cleanup() is None,
            r.sockets == sockets,
    {
        ScannerKillWorker {
            rate_limiter: RateLimiter::new(rate_limit, now),
            per_dst_limiter: PerDstRateLimiter::new(),
            sockets,
        }
    }

    /// Decide on one request.
    ///
    /// A broadcast or multicast destination and an empty response are refused
    /// before any limit is touched. Then the limit across all destinations
    /// decides, then the one of this destination, and the sweep of old windows
    /// runs where it is due.
    pub fn process_send(
        &mut self,
        dst_addr: IpAddr,
        src_addr: IpAddr,
        response_bytes: &[u8],
        now: Moment,
    ) -> (r: SendStep)
        requires
            old(self).per_dst_limiter.valid(),
        ensures
            final(self).per_dst_limiter.valid(),
            final(self).sockets == old(self).sockets,
            match refused(dst_addr, response_bytes@) {
                Some(reason) => r@ == StepView::Answer(AnswerView::Rejected(reason))
                    && *final(self) == *old(self),
                None => {
                    let room = old(self).rate_limiter@.at(now).has_room();
                    let window = window_at(
                        old(self).per_dst_limiter.bucket(dst_addr),
                        dst_addr,
                        now,
                    );
                    &&& final(self).rate_limiter@ == old(self).rate_limiter@.at(now).after()
                    &&& !room ==> r@ == StepView::Answer(AnswerView::RateLimited) && final(
                        self).per_dst_limiter == old(self).per_dst_limiter
                    &&& room && window.count >= MAX_PER_DST_PER_MINUTE ==> r@ == StepView::Answer(
                        AnswerView::RateLimited,
                    )
                    &&& room && window.count < MAX_PER_DST_PER_MINUTE ==> r@ == dispatched(
                        dst_addr,
                        src_addr,
                        old(self).sockets,
                    )
                    &&& room ==> final(self).per_dst_limiter.bucket(dst_addr) == Some(
                        window_after(window),
                    )
                    &&& room ==> final(self).per_dst_limiter.last_cleanup() == if window.count
                        < MAX_PER_DST_PER_MINUTE && sweep_due(
                        old(self).per_dst_limiter.last_cleanup(),
                        now,
                    ) {
                        Some(now)
                    } else {
                        old(self).per_dst_limiter.last_cleanup()
                    }
                    &&& room ==> forall|other: IpAddr|
                        other != dst_addr ==> #[trigger] final(self).per_dst_limiter.bucket(other)
                            == if window.count < MAX_PER_DST_PER_MINUTE && sweep_due(
                            old(self).per_dst_limiter.last_cleanup(),
                            now,
                        ) {
                            swept(old(self).per_dst_limiter.bucket(other), now)
                        } else {
                            old(self).per_dst_limiter.bucket(other)
                        }
                },
            },
    {
        if is_broadcast_or_multicast(dst_addr) {
            let mut reason = String::from_str("rejected broadcast/multicast destination: ");
            reason.append(dst_addr.to_text().as_str());
            return SendStep::Answer(KillResponse::Rejected { reason });
        }
        if response_bytes.len() == 0 {
            return SendStep::Answer(
                KillResponse::Rejected { reason: String::from_str("empty response bytes") },
            );
        }
        if !self.rate_limiter.allow(now) {
            return SendStep::Answer(KillResponse::RateLimited);
        }
        if !self.per_dst_limiter.allow(dst_addr, now) {
            return SendStep::Answer(KillResponse::RateLimited);
        }
        self.per_dst_limiter.cleanup_if_due(now);
        if self.sockets.raw {
            match (dst_addr, src_addr) {
                (IpAddr::V4(_), IpAddr::V4(_)) => {
                    return SendStep::SendRaw { v6: false };
                },
                (IpAddr::V6(_), IpAddr::V6(_)) => {
                    return SendStep::SendRaw { v6: true };
                },
                _ => {},
            }
        }
        fall_back(dst_addr, self.sockets)
    }

    /// Go on after a send through the raw socket: where it failed, or no
    /// datagram could be built, the ephemeral socket is tried rather than the
    /// response dropped.
    pub fn after_raw(&self, dst_addr: IpAddr, outcome: RawOutcome) -> (r: SendStep)
        ensures
            r@ == if outcome == RawOutcome::Sent {
                StepView::Answer(AnswerView::Sent(SendPath::Raw))
            } else {
                fallback(dst_addr, self.sockets)
            },
    {
        match outcome {
            RawOutcome::Sent => SendStep::Answer(KillResponse::Sent { path: SendPath::Raw }),
            _ => fall_back(dst_addr, self.sockets),
        }
    }

    /// The answer after a send from the ephemeral socket.
    pub fn after_udp(&self, dst_addr: IpAddr, dst_port: u16, outcome: Result<(), String>) -> (r:
        KillResponse)
        ensures
            match outcome {
                Ok(()) => r@ == AnswerView::Sent(SendPath::Ephemeral),
                Err(e) => r@ == AnswerView::Error(failed_text(dst_addr, dst_port, e@)),
            },
    {
        match outcome {
            Ok(()) => KillResponse::Sent { path: SendPath::Ephemeral },
            Err(e) => {
                let mut message = String::from_str("send to ");
                message.append(dst_addr.to_text().as_str());
                message.append(":");
                message.append(decimal(dst_port as u64).as_str());
                message.append(" failed: ");
                message.append(e.as_str());
                KillResponse::Error { message }
            },
        }
    }
}

/// What the worker's loop does with what it received.
#[derive(Debug)]
pub enum LoopStep {
    /// Stop.
    Exit,
    /// Decide on this request and answer it.
    Process {
        /// Destination address.
        dst_addr: IpAddr,
        /// Destination port.
        dst_port: u16,
        /// Source address to show.
        src_addr: IpAddr,
        /// Source port to show.
        src_port: u16,
        /// The response.
        response_bytes: Vec<u8>,
    },
}

/// What the worker's loop does next: it stops at a shutdown, and where nobody
/// can send it anything any more.
pub fn run_step(request: Option<KillRequest>) -> (r: LoopStep)
    ensures
        match request {
            Some(KillRequest::SendResponse { dst_addr, dst_port, src_addr, src_port, response_bytes }) =>
                r == LoopStep::Process { dst_addr, dst_port, src_addr, src_port, response_bytes },
            _ => r is Exit,
        },
{
    match request {
        Some(
            KillRequest::SendResponse { dst_addr, dst_port, src_addr, src_port, response_bytes },
        ) => LoopStep::Process { dst_addr, dst_port, src_addr, src_port, response_bytes },
        _ => LoopStep::Exit,
    }
}

/// How a request that the limits let through ends, given what each send came
/// to.
pub open spec fn ending(
    dst: IpAddr,
    port: u16,
    src: IpAddr,
    sockets: HeldSockets,
    raw: RawOutcome,
    udp: Result<(), Seq<char>>,
) -> AnswerView {
    let last = match udp {
        Ok(()) => AnswerView::Sent(SendPath::Ephemeral),
        Err(e) => AnswerView::Error(failed_text(dst, port, e)),
    };
    match dispatched(dst, src, sockets) {
        StepView::Answer(a) => a,
        StepView::SendUdp(_) => last,
        StepView::SendRaw(_) => if raw == RawOutcome::Sent {
            AnswerView::Sent(SendPath::Raw)
        } else {
            match fallback(dst, sockets) {
                StepView::Answer(a) => a,
                _ => last,
            }
        },
    }
}

/// A worker without a socket for a destination never claims to have sent to
/// it, whatever is said of sends it cannot make.
pub proof fn nothing_is_sent_without_a_socket(
    dst: IpAddr,
    port: u16,
    src: IpAddr,
    sockets: HeldSockets,
    raw: RawOutcome,
    udp: Result<(), Seq<char>>,
)
    requires
        !sockets.raw,
        dst is V4 ==> !sockets.udp_v4,
        dst is V6 ==> !sockets.udp_v6,
    ensures
        ending(dst, port, src, sockets, raw, udp) is Error,
{
}

/// Addresses of different families are never spoofed: such a request takes the
/// ephemeral path.
pub proof fn mixed_families_are_not_spoofed(dst: IpAddr, src: IpAddr, sockets: HeldSockets)
    requires
        dst is V4 != src is V4,
    ensures
        dispatched(dst, src, sockets) == fallback(dst, sockets),
{
}

} // verus!
