//! The one part of the tool that transmits, in a process of its own.
//!
//! A detected scanner is answered with a real response on a real socket, by a
//! worker that runs as a separate process and holds nothing but the descriptors
//! it was given. The thread that captures packets only ever offers a request to
//! a bounded queue: it never waits on the worker, and what cannot be handed
//! over is counted and dropped.
pub mod adoption;
pub mod duties;
pub mod handle;
pub mod handover;
pub mod limits;
pub mod send;
pub mod spawn;
pub mod wire;
pub mod worker_process;

use crate::net::IpAddr;
use vstd::prelude::*;

verus! {

/// How many requests may wait for the worker before further ones are dropped.
pub const KILL_REQUEST_CAPACITY: usize = 256;

/// How many outcomes may wait to be observed before further ones are counted
/// and not streamed.
pub const KILL_OUTCOME_CAPACITY: usize = 256;

/// Which socket a response left through.
#[derive(Debug, Clone, Copy, PartialEq, Eq, Structural)]
pub enum SendPath {
    /// The raw socket, with the victim's address and port as source.
    Raw,
    /// An ephemeral UDP port, unspoofed.
    Ephemeral,
}

/// A message to the worker.
#[derive(Debug)]
pub enum KillRequest {
    /// Send a SIP response to a scanner.
    SendResponse {
        /// Destination address (the scanner).
        dst_addr: IpAddr,
        /// Destination port (the scanner's source port).
        dst_port: u16,
        /// The address the scanner targeted.
        src_addr: IpAddr,
        /// The port the scanner targeted.
        src_port: u16,
        /// The response to send.
        response_bytes: Vec<u8>,
    },
    /// Stop in order.
    Shutdown,
}

/// The worker's answer to one request.
#[derive(Debug, PartialEq, Eq)]
pub enum KillResponse {
    /// The response was sent.
    Sent {
        /// Which socket it left through.
        path: SendPath,
    },
    /// The request was dropped by a rate limit.
    RateLimited,
    /// The request was refused on policy grounds.
    Rejected {
        /// The reason.
        reason: String,
    },
    /// The request failed.
    Error {
        /// What failed.
        message: String,
    },
}

/// Responses put on the wire, per path. The counters wrap.
#[derive(Debug, Clone, Copy, PartialEq, Eq, Structural)]
pub struct SendCounters {
    raw: u64,
    ephemeral: u64,
}

/// A counter that wraps, one further.
pub open spec fn bumped(n: u64) -> u64 {
    if n == u64::MAX {
        0
    } else {
        (n + 1) as u64
    }
}

impl SendCounters {
    /// Responses sent through the raw socket.
    pub closed spec fn raw(self) -> u64 {
        self.raw
    }

    /// Responses sent from an ephemeral port.
    pub closed spec fn ephemeral(self) -> u64 {
        self.ephemeral
    }

    /// Nothing sent.
    pub fn new() -> (r: Self)
        ensures
            r.raw() == 0,
            r.ephemeral() == 0,
    {
        SendCounters { raw: 0, ephemeral: 0 }
    }

    /// Count one response sent through `path`.
    pub fn bump(&mut self, path: SendPath)
        ensures
            final(self).raw() == if path == SendPath::Raw {
                bumped(old(self).raw())
            } else {
                old(self).raw()
            },
            final(self).ephemeral() == if path == SendPath::Ephemeral {
                bumped(old(self).ephemeral())
            } else {
                old(self).ephemeral()
            },
    {
        match path {
            SendPath::Raw => {
                self.raw = self.raw.wrapping_add(1);
            },
            SendPath::Ephemeral => {
                self.ephemeral = self.ephemeral.wrapping_add(1);
            },
        }
    }

    /// Responses sent, raw and ephemeral.
    pub fn read(&self) -> (r: (u64, u64))
        ensures
            r.0 == self.raw(),
            r.1 == self.ephemeral(),
    {
        (self.raw, self.ephemeral)
    }
}

/// Responses sent, raw and ephemeral, for a metrics exporter.
pub fn kill_responses_sent(counters: &SendCounters) -> (r: (u64, u64))
    ensures
        r.0 == counters.raw(),
        r.1 == counters.ephemeral(),
{
    counters.read()
}

/// What the defense did: the ledger. It is complete whether or not anybody
/// reads the stream of outcomes.
#[derive(Debug, Clone, Copy, PartialEq, Eq, Structural)]
pub struct KillCounts {
    /// Responses put on the wire.
    pub sent: u64,
    /// Requests suppressed by a rate limit.
    pub rate_limited: u64,
    /// Requests refused on policy grounds.
    pub rejected: u64,
    /// Requests that failed.
    pub errored: u64,
    /// Requests dropped because the worker's queue was full.
    pub dropped_requests: u64,
    /// Outcomes that did not fit on the stream; they are counted above all the
    /// same.
    pub unobserved_outcomes: u64,
    /// Requests accepted for the worker.
    pub accepted: u64,
    /// Accepted requests that will never have an outcome because the worker is
    /// gone. Zero while it lives: until then they are in flight.
    pub lost_to_worker_exit: u64,
}

impl KillCounts {
    /// Requests with an outcome, of any class.
    pub open spec fn outcomes_spec(self) -> int {
        self.sent + self.rate_limited + self.rejected + self.errored
    }

    /// Requests with an outcome: sent, rate-limited, rejected and errored
    /// together.
    pub fn outcomes(&self) -> (r: u64)
        requires
            self.outcomes_spec() <= u64::MAX,
        ensures
            r == self.outcomes_spec(),
    {
        self.sent + self.rate_limited + self.rejected + self.errored
    }

    /// Whether anything was dropped, went unobserved, or was lost.
    pub fn any_dropped(&self) -> (r: bool)
        ensures
            r == (self.dropped_requests > 0 || self.unobserved_outcomes > 0
                || self.lost_to_worker_exit > 0),
    {
        self.dropped_requests > 0 || self.unobserved_outcomes > 0 || self.lost_to_worker_exit > 0
    }
}

/// A send descriptor that the worker was given, by its socket's inode.
#[derive(Debug, Clone, PartialEq, Eq)]
pub struct HandedOver {
    /// The descriptor's name on the worker's command line.
    pub kind: &'static str,
    /// The socket's inode.
    pub inode: u64,
}

} // verus!
