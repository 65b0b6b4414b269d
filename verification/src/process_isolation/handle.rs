//! The side of the process that captures: offering requests, and the ledger of
//! what became of them.
use crate::channel::{
    channel_offer, channel_pair, channel_poll, Fate, Inbox, Offer, Outbox,
};
use crate::clock::Moment;
use crate::process_isolation::{
    bumped, HandedOver, KillCounts, KillRequest, KillResponse, SendCounters, SendPath,
    KILL_OUTCOME_CAPACITY, KILL_REQUEST_CAPACITY,
};
use crate::text::{decimal, decimal_text};
use crossbeam_channel::Receiver;
use vstd::prelude::*;
use vstd::string::*;

verus! {

/// How long the worker is given to exit at shutdown before it is killed, in
/// nanoseconds.
pub const SHUTDOWN_GRACE: u64 = 5_000_000_000;

/// The live counters behind the ledger.
#[derive(Debug)]
pub struct KillTally {
    counts: KillCounts,
    drop_reported: bool,
    unobserved_reported: bool,
    worker_gone: bool,
}

/// The class of an outcome: one of four.
pub open spec fn class_of(outcome: KillResponse) -> nat {
    match outcome {
        KillResponse::Sent { path } => 0,
        KillResponse::RateLimited => 1,
        KillResponse::Rejected { reason } => 2,
        KillResponse::Error { message } => 3,
    }
}

/// The counts with one more outcome of a class.
pub open spec fn counted(c: KillCounts, class: nat) -> KillCounts {
    if class == 0 {
        KillCounts { sent: (c.sent + 1) as u64, ..c }
    } else if class == 1 {
        KillCounts { rate_limited: (c.rate_limited + 1) as u64, ..c }
    } else if class == 2 {
        KillCounts { rejected: (c.rejected + 1) as u64, ..c }
    } else {
        KillCounts { errored: (c.errored + 1) as u64, ..c }
    }
}

/// What is said, once, when requests begin to be dropped.
pub open spec fn dropping_text() -> Seq<char> {
    "scanner-kill: the worker's request queue is full (256 pending) and kill responses are now being DROPPED. They are dropped rather than queued because the capture thread offers them while holding the dialog and stream locks, and waiting there would stop the capture and every reader of those locks. Detection, alerting and reporting are unaffected; the running total is logged when the worker shuts down."@
}

/// What is said, once, when outcomes begin to go unobserved.
pub open spec fn unobserved_text() -> Seq<char> {
    "scanner-kill: nothing is draining the kill-outcome channel, so individual outcomes are no longer observable through it. They are still counted — see ScannerKillHandle::counts() and the totals logged at shutdown."@
}

impl KillTally {
    /// What has been counted; what is lost is worked out when it is asked for.
    pub closed spec fn counts(self) -> KillCounts {
        self.counts
    }

    /// Whether it was said that requests are dropped.
    pub closed spec fn drop_reported(self) -> bool {
        self.drop_reported
    }

    /// Whether it was said that outcomes go unobserved.
    pub closed spec fn unobserved_reported(self) -> bool {
        self.unobserved_reported
    }

    /// Whether the worker can produce no further outcome.
    pub closed spec fn worker_gone(self) -> bool {
        self.worker_gone
    }

    /// Whether nothing is counted as lost yet, and every counter can move once
    /// more.
    pub open spec fn ready(self) -> bool {
        let c = self.counts();
        &&& c.lost_to_worker_exit == 0
        &&& c.outcomes_spec() < u64::MAX
        &&& c.accepted < u64::MAX
        &&& c.dropped_requests < u64::MAX
        &&& c.unobserved_outcomes < u64::MAX
    }

    /// Whether nothing has been counted or said, and the worker is there.
    pub open spec fn is_new(self) -> bool {
        &&& self.counts() == (KillCounts {
            sent: 0,
            rate_limited: 0,
            rejected: 0,
            errored: 0,
            dropped_requests: 0,
            unobserved_outcomes: 0,
            accepted: 0,
            lost_to_worker_exit: 0,
        })
        &&& !self.drop_reported()
        &&& !self.unobserved_reported()
        &&& !self.worker_gone()
    }

    /// Nothing counted.
    pub fn new() -> (r: Self)
        ensures
            r.is_new(),
            r.ready(),
    {
        KillTally {
            counts: KillCounts {
                sent: 0,
                rate_limited: 0,
                rejected: 0,
                errored: 0,
                dropped_requests: 0,
                unobserved_outcomes: 0,
                accepted: 0,
                lost_to_worker_exit: 0,
            },
            drop_reported: false,
            unobserved_reported: false,
            worker_gone: false,
        }
    }

    /// Whether two tallies differ in their counts alone.
    pub open spec fn same_flags(self, other: KillTally) -> bool {
        &&& self.drop_reported() == other.drop_reported()
        &&& self.unobserved_reported() == other.unobserved_reported()
        &&& self.worker_gone() == other.worker_gone()
    }

    /// Record one decision of the worker, in its own class.
    pub fn record(&mut self, outcome: &KillResponse)
        requires
            old(self).ready(),
        ensures
            final(self).counts() == counted(old(self).counts(), class_of(*outcome)),
            final(self).same_flags(*old(self)),
    {
        match outcome {
            KillResponse::Sent { path } => {
                self.counts.sent += 1;
            },
            KillResponse::RateLimited => {
                self.counts.rate_limited += 1;
            },
            KillResponse::Rejected { reason } => {
                self.counts.rejected += 1;
            },
            KillResponse::Error { message } => {
                self.counts.errored += 1;
            },
        }
    }

    /// Count a request dropped because the queue was full. The first one is to
    /// be said.
    pub fn note_dropped_request(&mut self) -> (r: Option<String>)
        requires
            old(self).ready(),
        ensures
            final(self).counts() == (KillCounts {
                dropped_requests: (old(self).counts().dropped_requests + 1) as u64,
                ..old(self).counts()
            }),
            final(self).drop_reported(),
            final(self).unobserved_reported() == old(self).unobserved_reported(),
            final(self).worker_gone() == old(self).worker_gone(),
            r is Some <==> !old(self).drop_reported(),
            r matches Some(text) ==> text@ == dropping_text(),
    {
        self.counts.dropped_requests += 1;
        if self.drop_reported {
            return None;
        }
        self.drop_reported = true;
        Some(
            String::from_str(
                "scanner-kill: the worker's request queue is full (256 pending) and kill responses are now being DROPPED. They are dropped rather than queued because the capture thread offers them while holding the dialog and stream locks, and waiting there would stop the capture and every reader of those locks. Detection, alerting and reporting are unaffected; the running total is logged when the worker shuts down.",
            ),
        )
    }

    /// Count an outcome that did not fit on the stream. The first one is to be
    /// said.
    pub fn note_unobserved_outcome(&mut self) -> (r: Option<String>)
        requires
            old(self).ready(),
        ensures
            final(self).counts() == (KillCounts {
                unobserved_outcomes: (old(self).counts().unobserved_outcomes + 1) as u64,
                ..old(self).counts()
            }),
            final(self).unobserved_reported(),
            final(self).drop_reported() == old(self).drop_reported(),
            final(self).worker_gone() == old(self).worker_gone(),
            r is Some <==> !old(self).unobserved_reported(),
            r matches Some(text) ==> text@ == unobserved_text(),
    {
        self.counts.unobserved_outcomes += 1;
        if self.unobserved_reported {
            return None;
        }
        self.unobserved_reported = true;
        Some(
            String::from_str(
                "scanner-kill: nothing is draining the kill-outcome channel, so individual outcomes are no longer observable through it. They are still counted — see ScannerKillHandle::counts() and the totals logged at shutdown.",
            ),
        )
    }

    /// Count a request accepted for the worker. Called before it is queued, so
    /// that no outcome is booked for a request not yet counted.
    pub fn note_accepted(&mut self)
        requires
            old(self).ready(),
        ensures
            final(self).counts() == (KillCounts {
                accepted: (old(self).counts().accepted + 1) as u64,
                ..old(self).counts()
            }),
            final(self).same_flags(*old(self)),
    {
        self.counts.accepted += 1;
    }

    /// Take back a request that the queue refused.
    pub fn unaccept(&mut self)
        requires
            old(self).counts().accepted > 0,
        ensures
            final(self).counts() == (KillCounts {
                accepted: (old(self).counts().accepted - 1) as u64,
                ..old(self).counts()
            }),
            final(self).same_flags(*old(self)),
    {
        self.counts.accepted -= 1;
    }

    /// Record that the worker can produce no further outcome.
    pub fn note_worker_gone(&mut self)
        ensures
            final(self).counts() == old(self).counts(),
            final(self).drop_reported() == old(self).drop_reported(),
            final(self).unobserved_reported() == old(self).unobserved_reported(),
            final(self).worker_gone(),
    {
        self.worker_gone = true;
    }

    /// Whether the worker can produce no further outcome.
    pub fn is_worker_gone(&self) -> (r: bool)
        ensures
            r == self.worker_gone(),
    {
        self.worker_gone
    }

    /// What a snapshot says: the counts, and once the worker is gone every
    /// accepted request without an outcome as lost.
    pub open spec fn snapshot_spec(self) -> KillCounts {
        let c = self.counts();
        KillCounts {
            lost_to_worker_exit: if self.worker_gone() && c.accepted > c.outcomes_spec() {
                (c.accepted - c.outcomes_spec()) as u64
            } else {
                0
            },
            ..c
        }
    }

    /// Take a snapshot for reporting.
    pub fn snapshot(&self) -> (r: KillCounts)
        requires
            self.counts().outcomes_spec() <= u64::MAX,
        ensures
            r == self.snapshot_spec(),
    {
        let mut counts: KillCounts = self.counts;
        counts.lost_to_worker_exit = 0;
        if self.worker_gone {
            let outcomes: u64 = counts.outcomes();
            if counts.accepted > outcomes {
                counts.lost_to_worker_exit = counts.accepted - outcomes;
            }
        }
        counts
    }
}

/// Book one outcome that the worker reported: its class, and for a send the
/// path it took.
pub fn book_outcome(tally: &mut KillTally, counters: &mut SendCounters, outcome: &KillResponse)
    requires
        old(tally).ready(),
    ensures
        final(tally).counts() == counted(old(tally).counts(), class_of(*outcome)),
        final(tally).same_flags(*old(tally)),
        final(counters).raw() == if outcome matches KillResponse::Sent { path } && path
            == SendPath::Raw {
            bumped(old(counters).raw())
        } else {
            old(counters).raw()
        },
        final(counters).ephemeral() == if outcome matches KillResponse::Sent { path } && path
            == SendPath::Ephemeral {
            bumped(old(counters).ephemeral())
        } else {
            old(counters).ephemeral()
        },
{
    tally.record(outcome);
    if let KillResponse::Sent { path } = outcome {
        counters.bump(*path);
    }
}

/// State that the handle shares with the threads that serve the worker's
/// pipes.
#[derive(Debug)]
pub struct HandleShared {
    /// What the worker did.
    pub tally: KillTally,
    /// Whether the defense was found dead.
    pub defense_disabled: bool,
    /// Whether a shutdown was asked for.
    pub shutting_down: bool,
}

/// What is said, once, when the defense is found dead.
pub open spec fn disabled_text(lost: nat) -> Seq<char> {
    "the scanner-kill worker process is gone (it exited, was killed, or stopped answering); the --kill-scanner defense is DISABLED for the rest of this run -- scanners will be detected but no longer answered, and nothing restarts the worker. "@
        + decimal_text(lost) + " request(s) in flight were lost with it."@
}

impl HandleShared {
    /// A defense that is armed and has done nothing.
    pub fn new() -> (r: Self)
        ensures
            r.tally.is_new(),
            r.tally.ready(),
            !r.defense_disabled,
            !r.shutting_down,
    {
        HandleShared { tally: KillTally::new(), defense_disabled: false, shutting_down: false }
    }

    /// Mark the defense as no longer armed. The first time, it is to be said.
    pub fn report_defense_disabled(&mut self) -> (r: Option<String>)
        requires
            old(self).tally.counts().outcomes_spec() <= u64::MAX,
        ensures
            *final(self) == (HandleShared { defense_disabled: true, ..*old(self) }),
            r is Some <==> !old(self).defense_disabled,
            r matches Some(text) ==> text@ == disabled_text(
                old(self).tally.snapshot_spec().lost_to_worker_exit as nat,
            ),
    {
        if self.defense_disabled {
            return None;
        }
        self.defense_disabled = true;
        let lost: u64 = self.tally.snapshot().lost_to_worker_exit;
        let mut text = String::from_str(
            "the scanner-kill worker process is gone (it exited, was killed, or stopped answering); the --kill-scanner defense is DISABLED for the rest of this run -- scanners will be detected but no longer answered, and nothing restarts the worker. ",
        );
        text.append(decimal(lost).as_str());
        text.append(" request(s) in flight were lost with it.");
        Some(text)
    }
}

/// Why a request was not queued. It comes back.
#[derive(Debug)]
pub enum KillRefused {
    /// The worker is behind; the request was dropped and counted.
    Full(KillRequest),
    /// The worker is gone or has been shut down.
    Disconnected(KillRequest),
}

/// What became of an offered request, and what is to be said of it.
#[derive(Debug)]
pub struct SendOutcome {
    /// Whether it was queued.
    pub result: Result<(), KillRefused>,
    /// What is to be said, where this is the first time.
    pub notice: Option<String>,
}

/// What is left of the ledger after an offer: a send counts as accepted only
/// where it was queued, and a full queue counts as a drop.
pub open spec fn after_offer(c: KillCounts, request: KillRequest, offer: Offer<KillRequest>) -> KillCounts {
    match offer {
        Offer::Sent => if request is SendResponse {
            KillCounts { accepted: (c.accepted + 1) as u64, ..c }
        } else {
            c
        },
        Offer::Full(_) => KillCounts { dropped_requests: (c.dropped_requests + 1) as u64, ..c },
        Offer::Closed(_) => c,
    }
}

impl HandleShared {
    /// Whether a request is turned away before it is offered: the worker can
    /// produce nothing more.
    pub open spec fn turns_away(self) -> bool {
        self.tally.worker_gone()
    }

    /// Settle an offer: what the channel did with a request decides what the
    /// ledger says and what the caller is told.
    pub fn settle_offer(&mut self, counted_send: bool, offer: Offer<KillRequest>) -> (r:
        SendOutcome)
        requires
            old(self).tally.ready(),
            counted_send ==> old(self).tally.counts().accepted > 0,
        ensures
            match offer {
                Offer::Sent => {
                    &&& r.result is Ok
                    &&& r.notice is None
                    &&& *final(self) == *old(self)
                },
                Offer::Full(back) => {
                    &&& r.result matches Err(KillRefused::Full(q)) && q == back
                    &&& r.notice is Some <==> !old(self).tally.drop_reported()
                    &&& r.notice matches Some(text) ==> text@ == dropping_text()
                    &&& final(self).tally.drop_reported()
                    &&& final(self).tally.unobserved_reported() == old(
                        self,
                    ).tally.unobserved_reported()
                    &&& final(self).tally.counts() == (KillCounts {
                        accepted: if counted_send {
                            (old(self).tally.counts().accepted - 1) as u64
                        } else {
                            old(self).tally.counts().accepted
                        },
                        dropped_requests: (old(self).tally.counts().dropped_requests + 1) as u64,
                        ..old(self).tally.counts()
                    })
                    &&& final(self).tally.worker_gone() == old(self).tally.worker_gone()
                    &&& final(self).defense_disabled == old(self).defense_disabled
                    &&& final(self).shutting_down == old(self).shutting_down
                },
                Offer::Closed(back) => {
                    &&& r.result matches Err(KillRefused::Disconnected(q)) && q == back
                    &&& r.notice is Some <==> !old(self).defense_disabled
                    &&& r.notice matches Some(text) ==> text@ == disabled_text(
                        final(self).tally.snapshot_spec().lost_to_worker_exit as nat,
                    )
                    &&& final(self).tally.counts() == (KillCounts {
                        accepted: if counted_send {
                            (old(self).tally.counts().accepted - 1) as u64
                        } else {
                            old(self).tally.counts().accepted
                        },
                        ..old(self).tally.counts()
                    })
                    &&& final(self).tally.same_flags(old(self).tally)
                    &&& final(self).defense_disabled
                    &&& final(self).shutting_down == old(self).shutting_down
                },
            },
    {
        match offer {
            Offer::Sent => SendOutcome { result: Ok(()), notice: None },
            Offer::Full(request) => {
                if counted_send {
                    self.tally.unaccept();
                }
                let notice = self.tally.note_dropped_request();
                SendOutcome { result: Err(KillRefused::Full(request)), notice }
            },
            Offer::Closed(request) => {
                if counted_send {
                    self.tally.unaccept();
                }
                let notice = self.report_defense_disabled();
                SendOutcome { result: Err(KillRefused::Disconnected(request)), notice }
            },
        }
    }

    /// Take in one outcome that the worker reported: book it, then offer it to
    /// whoever observes the stream, without waiting. The ledger is the record.
    pub fn take_outcome(
        &mut self,
        counters: &mut SendCounters,
        stream: &mut Outbox<KillResponse>,
        outcome: KillResponse,
    ) -> (r: Option<String>)
        requires
            old(self).tally.ready(),
            old(self).tally.counts().outcomes_spec() + 1 < u64::MAX,
        ensures
            final(stream).log().len() == old(stream).log().len() + 1,
            final(stream).log().drop_last() == old(stream).log(),
            final(stream).log().last().0 == outcome,
            ({
                let booked = counted(old(self).tally.counts(), class_of(outcome));
                final(self).tally.counts() == if final(stream).log().last().1 == Fate::Full {
                    KillCounts {
                        unobserved_outcomes: (booked.unobserved_outcomes + 1) as u64,
                        ..booked
                    }
                } else {
                    booked
                }
            }),
            final(self).tally.worker_gone() == old(self).tally.worker_gone(),
            final(self).defense_disabled == old(self).defense_disabled,
            final(self).shutting_down == old(self).shutting_down,
            final(counters).raw() == if outcome matches KillResponse::Sent { path } && path
                == SendPath::Raw {
                bumped(old(counters).raw())
            } else {
                old(counters).raw()
            },
            final(counters).ephemeral() == if outcome matches KillResponse::Sent { path } && path
                == SendPath::Ephemeral {
                bumped(old(counters).ephemeral())
            } else {
                old(counters).ephemeral()
            },
            final(self).tally.drop_reported() == old(self).tally.drop_reported(),
            final(self).tally.unobserved_reported() == (old(self).tally.unobserved_reported()
                || final(stream).log().last().1 == Fate::Full),
            r is Some <==> !old(self).tally.unobserved_reported() && final(stream).log().last().1
                == Fate::Full,
            r matches Some(text) ==> text@ == unobserved_text(),
    {
        let ghost before = stream.log();
        book_outcome(&mut self.tally, counters, &outcome);
        let offer = channel_offer(stream, outcome);
        assert(stream.log().drop_last() =~= before);
        match offer {
            Offer::Full(_) => self.tally.note_unobserved_outcome(),
            _ => None,
        }
    }

    /// The stream of outcomes is over: what is still unanswered is lost. Only
    /// an end that nobody asked for is to be said.
    pub fn outcomes_ended(&mut self) -> (r: Option<String>)
        requires
            old(self).tally.counts().outcomes_spec() <= u64::MAX,
        ensures
            final(self).tally.worker_gone(),
            final(self).tally.counts() == old(self).tally.counts(),
            final(self).tally.drop_reported() == old(self).tally.drop_reported(),
            final(self).tally.unobserved_reported() == old(self).tally.unobserved_reported(),
            final(self).shutting_down == old(self).shutting_down,
            final(self).defense_disabled == (old(self).defense_disabled || !old(self).shutting_down),
            r is Some <==> !old(self).shutting_down && !old(self).defense_disabled,
            r matches Some(text) ==> text@ == disabled_text(
                final(self).tally.snapshot_spec().lost_to_worker_exit as nat,
            ),
    {
        self.tally.note_worker_gone();
        if self.shutting_down {
            None
        } else {
            self.report_defense_disabled()
        }
    }

    /// What became of writing one request to the worker's pipe: whether to go
    /// on. A request that cannot be framed is booked as the error it is, or
    /// the ledger would carry it as in flight for ever.
    pub fn forwarded(&mut self, is_send: bool, written: Written) -> (r: bool)
        requires
            old(self).tally.ready(),
        ensures
            r == !(written is PipeClosed),
            final(self).tally.counts() == if is_send && written is Unframeable {
                counted(old(self).tally.counts(), 3)
            } else {
                old(self).tally.counts()
            },
            final(self).tally.same_flags(old(self).tally),
            final(self).defense_disabled == old(self).defense_disabled,
            final(self).shutting_down == old(self).shutting_down,
    {
        match written {
            Written::Whole => true,
            Written::Unframeable(reason) => {
                if is_send {
                    let mut message = String::from_str(
                        "request could not be framed for the worker: ",
                    );
                    message.append(reason.as_str());
                    self.tally.record(&KillResponse::Error { message });
                }
                true
            },
            Written::PipeClosed => false,
        }
    }
}

/// What became of writing one request to the worker's pipe.
#[derive(Debug)]
pub enum Written {
    /// It was written.
    Whole,
    /// It could not be framed, for this reason; nothing was written.
    Unframeable(String),
    /// The pipe is closed.
    PipeClosed,
}

/// The handle through which requests are offered to the worker.
pub struct ScannerKillHandle {
    /// Where requests are queued; `None` once a shutdown has begun.
    pub tx: Option<Outbox<KillRequest>>,
    /// What was offered until the shutdown began, once it has.
    pub past: Ghost<Seq<(KillRequest, Fate)>>,
    /// Where outcomes can be observed, best effort.
    pub resp_rx: Inbox<KillResponse>,
    /// Counters and flags shared with the threads that serve the pipes.
    pub shared: HandleShared,
    /// The send descriptors the worker was given.
    pub handed_over: Vec<HandedOver>,
}

/// The halves of the two channels that the serving threads take.
pub struct ServingEnds {
    /// Requests for the thread that writes them to the worker.
    pub requests: Receiver<KillRequest>,
    /// Where the thread that reads outcomes offers them.
    pub outcomes: Outbox<KillResponse>,
}

/// Whether a request came back because the worker is gone: nothing is counted,
/// the defense is disabled, and that is said the first time.
pub open spec fn refused_as_gone(
    before: ScannerKillHandle,
    after: ScannerKillHandle,
    request: KillRequest,
    r: SendOutcome,
) -> bool {
    &&& r.result == Err::<(), KillRefused>(KillRefused::Disconnected(request))
    &&& r.notice is Some <==> !before.shared.defense_disabled
    &&& r.notice matches Some(text) ==> text@ == disabled_text(
        before.shared.tally.snapshot_spec().lost_to_worker_exit as nat,
    )
    &&& after.shared.tally.counts() == before.shared.tally.counts()
    &&& after.shared.tally.same_flags(before.shared.tally)
    &&& after.shared.defense_disabled
}

impl ScannerKillHandle {
    /// Whether requests can still be queued.
    pub open spec fn open(self) -> bool {
        self.tx is Some
    }

    /// Every request that was offered to the worker's queue, in order, and what
    /// became of it.
    pub open spec fn offers(self) -> Seq<(KillRequest, Fate)> {
        match self.tx {
            Some(out) => out.log(),
            None => self.past@,
        }
    }

    /// Whether a request is offered to the queue: requests can still be
    /// queued, and the worker is not gone.
    pub open spec fn takes_requests(self) -> bool {
        self.open() && !self.shared.turns_away()
    }

    /// What the worker was given.
    pub open spec fn given(self) -> Seq<HandedOver> {
        self.handed_over@
    }

    /// A handle for a worker that was given these descriptors, and the channel
    /// ends that serve it.
    pub fn attach(handed_over: Vec<HandedOver>) -> (r: (Self, ServingEnds))
        ensures
            r.0.open(),
            r.0.given() == handed_over@,
            r.0.offers() == Seq::<(KillRequest, Fate)>::empty(),
            r.0.resp_rx.log() == Seq::<KillResponse>::empty(),
            r.1.outcomes.log() == Seq::<(KillResponse, Fate)>::empty(),
            r.0.tx is Some && r.0.tx->0.capacity() == Some(KILL_REQUEST_CAPACITY),
            r.0.resp_rx.capacity() == Some(KILL_OUTCOME_CAPACITY),
            r.1.outcomes.capacity() == Some(KILL_OUTCOME_CAPACITY),
            r.0.shared.tally.is_new(),
            r.0.shared.tally.ready(),
            !r.0.shared.defense_disabled,
            !r.0.shared.shutting_down,
    {
        let (tx, requests) = channel_pair(KILL_REQUEST_CAPACITY);
        let (outcomes, resp_rx) = channel_pair(KILL_OUTCOME_CAPACITY);
        (
            ScannerKillHandle {
                tx: Some(tx),
                past: Ghost(Seq::empty()),
                resp_rx,
                shared: HandleShared::new(),
                handed_over,
            },
            ServingEnds { requests: requests.into_receiver(), outcomes },
        )
    }

    /// Offer a request to the worker. Never waits.
    ///
    /// A full queue drops the request and counts it. A worker that is gone or
    /// has been shut down refuses it, and the defense is disabled from then
    /// on. Either way the request comes back. Only a send is counted as
    /// accepted, because only a send is owed an outcome.
    pub fn send_kill(&mut self, request: KillRequest) -> (r: SendOutcome)
        requires
            old(self).shared.tally.ready(),
            old(self).shared.tally.counts().accepted + 1 < u64::MAX,
        ensures
            final(self).open() == old(self).open(),
            final(self).given() == old(self).given(),
            final(self).resp_rx == old(self).resp_rx,
            final(self).shared.shutting_down == old(self).shared.shutting_down,
            final(self).shared.tally.worker_gone() == old(self).shared.tally.worker_gone(),
            final(self).shared.tally.unobserved_reported() == old(
                self,
            ).shared.tally.unobserved_reported(),
            !old(self).takes_requests() ==> {
                &&& final(self).offers() == old(self).offers()
                &&& refused_as_gone(*old(self), *final(self), request, r)
            },
            old(self).takes_requests() ==> {
                &&& final(self).offers().len() == old(self).offers().len() + 1
                &&& final(self).offers().drop_last() == old(self).offers()
                &&& final(self).offers().last().0 == request
                &&& match final(self).offers().last().1 {
                    Fate::Taken => {
                        &&& r.result is Ok
                        &&& r.notice is None
                        &&& final(self).shared.tally.counts() == after_offer(
                            old(self).shared.tally.counts(),
                            request,
                            Offer::Sent,
                        )
                        &&& final(self).shared.tally.same_flags(old(self).shared.tally)
                        &&& final(self).shared.defense_disabled == old(
                            self,
                        ).shared.defense_disabled
                    },
                    Fate::Full => {
                        &&& r.result == Err::<(), KillRefused>(KillRefused::Full(request))
                        &&& r.notice is Some <==> !old(self).shared.tally.drop_reported()
                        &&& r.notice matches Some(text) ==> text@ == dropping_text()
                        &&& final(self).shared.tally.counts() == after_offer(
                            old(self).shared.tally.counts(),
                            request,
                            Offer::Full(request),
                        )
                        &&& final(self).shared.tally.drop_reported()
                        &&& final(self).shared.defense_disabled == old(
                            self,
                        ).shared.defense_disabled
                    },
                    Fate::Closed => refused_as_gone(*old(self), *final(self), request, r),
                }
            },
    {
        let counted_send: bool = match &request {
            KillRequest::SendResponse { .. } => true,
            KillRequest::Shutdown => false,
        };
        let gone: bool = self.shared.tally.is_worker_gone();
        let ghost before = self.offers();
        match &mut self.tx {
            None => {
                let notice = self.shared.report_defense_disabled();
                SendOutcome { result: Err(KillRefused::Disconnected(request)), notice }
            },
            Some(tx) => {
                if gone {
                    let notice = self.shared.report_defense_disabled();
                    return SendOutcome {
                        result: Err(KillRefused::Disconnected(request)),
                        notice,
                    };
                }
                if counted_send {
                    self.shared.tally.note_accepted();
                }
                let offer = channel_offer(tx, request);
                assert(tx.log().drop_last() =~= before);
                self.shared.settle_offer(counted_send, offer)
            },
        }
    }

    /// Whether the worker is still running. `child` says so where there is a
    /// process to ask; else the end of its outcomes is the only evidence.
    pub fn is_alive(&self, child: Option<bool>, reading: bool) -> (r: bool)
        ensures
            r == match child {
                Some(running) => running,
                None => reading && !self.shared.tally.worker_gone(),
            },
    {
        match child {
            Some(running) => running,
            None => reading && !self.shared.tally.is_worker_gone(),
        }
    }

    /// Whether the defense has been marked dead. Once true, it stays true.
    pub fn defense_disabled(&self) -> (r: bool)
        ensures
            r == self.shared.defense_disabled,
    {
        self.shared.defense_disabled
    }

    /// What the worker has done so far.
    pub fn counts(&self) -> (r: KillCounts)
        requires
            self.shared.tally.counts().outcomes_spec() <= u64::MAX,
        ensures
            r == self.shared.tally.snapshot_spec(),
    {
        self.shared.tally.snapshot()
    }

    /// The send descriptors that the worker was given and this process closed.
    pub fn handed_over(&self) -> (r: &Vec<HandedOver>)
        ensures
            r@ == self.given(),
    {
        &self.handed_over
    }

    /// Take one outcome off the stream, without waiting. The stream is best
    /// effort; the counts are the record. Which outcome comes is up to the
    /// worker.
    pub fn try_recv_response(&mut self) -> (r: Option<KillResponse>)
        ensures
            match r {
                Some(outcome) => final(self).resp_rx.log() == old(self).resp_rx.log().push(outcome),
                None => final(self).resp_rx.log() == old(self).resp_rx.log(),
            },
            final(self).tx == old(self).tx,
            final(self).past == old(self).past,
            final(self).shared == old(self).shared,
            final(self).given() == old(self).given(),
    {
        channel_poll(&mut self.resp_rx)
    }

    /// Ask the worker to stop: a best-effort request, and then no more
    /// requests at all, which is what ends it. A second time it does nothing.
    pub fn begin_shutdown(&mut self)
        ensures
            !old(self).open() && old(self).shared.shutting_down ==> *final(self) == *old(self),
            !final(self).open(),
            old(self).open() ==> {
                &&& final(self).offers().len() == old(self).offers().len() + 1
                &&& final(self).offers().drop_last() == old(self).offers()
                &&& final(self).offers().last().0 == KillRequest::Shutdown
            },
            !old(self).open() ==> final(self).offers() == old(self).offers(),
            final(self).shared.shutting_down,
            final(self).shared.tally == old(self).shared.tally,
            final(self).shared.defense_disabled == old(self).shared.defense_disabled,
            final(self).resp_rx == old(self).resp_rx,
            final(self).given() == old(self).given(),
    {
        self.shared.shutting_down = true;
        let mut tx: Option<Outbox<KillRequest>> = None;
        core::mem::swap(&mut self.tx, &mut tx);
        if let Some(out) = tx {
            let mut out = out;
            let ghost before = out.log();
            let _ = channel_offer(&mut out, KillRequest::Shutdown);
            self.past = Ghost(out.log());
            assert(out.log().drop_last() =~= before);
        }
    }
}

/// The line that sums up what the defense did.
pub open spec fn totals_text(c: KillCounts) -> Seq<char> {
    "Scanner-kill totals: "@ + decimal_text(c.sent as nat) + " sent, "@ + decimal_text(
        c.rate_limited as nat,
    ) + " rate-limited, "@ + decimal_text(c.rejected as nat) + " rejected, "@ + decimal_text(
        c.errored as nat,
    ) + " failed"@ + if c.dropped_requests > 0 || c.unobserved_outcomes > 0
        || c.lost_to_worker_exit > 0 {
        "; "@ + decimal_text(c.dropped_requests as nat)
            + " request(s) dropped because the worker was behind, "@ + decimal_text(
            c.lost_to_worker_exit as nat,
        ) + " lost with the worker process, "@ + decimal_text(c.unobserved_outcomes as nat)
            + " outcome(s) unobserved because nothing was reading the outcome channel"@
    } else {
        seq![]
    }
}

/// The line that sums up what the defense did, and whether it is a warning:
/// anything dropped, unobserved or lost makes it one.
pub fn log_totals(c: &KillCounts) -> (r: (String, bool))
    ensures
        r.0@ == totals_text(*c),
        r.1 == (c.dropped_requests > 0 || c.unobserved_outcomes > 0 || c.lost_to_worker_exit > 0),
{
    let mut s = String::from_str("Scanner-kill totals: ");
    s.append(decimal(c.sent).as_str());
    s.append(" sent, ");
    s.append(decimal(c.rate_limited).as_str());
    s.append(" rate-limited, ");
    s.append(decimal(c.rejected).as_str());
    s.append(" rejected, ");
    s.append(decimal(c.errored).as_str());
    s.append(" failed");
    let ghost upto = s@;
    let warn: bool = c.any_dropped();
    if warn {
        s.append("; ");
        s.append(decimal(c.dropped_requests).as_str());
        s.append(" request(s) dropped because the worker was behind, ");
        s.append(decimal(c.lost_to_worker_exit).as_str());
        s.append(" lost with the worker process, ");
        s.append(decimal(c.unobserved_outcomes).as_str());
        s.append(" outcome(s) unobserved because nothing was reading the outcome channel");
    }
    assert(s@ =~= totals_text(*c));
    (s, warn)
}

/// What a look at the worker process shows.
#[derive(Debug, Clone, Copy, PartialEq, Eq, Structural)]
pub enum ChildState {
    /// It has exited.
    Exited,
    /// It is running.
    Running,
    /// It cannot be told.
    Unknown,
}

/// What to do about the worker process at shutdown.
#[derive(Debug, Clone, Copy, PartialEq, Eq, Structural)]
pub enum ReapStep {
    /// It has exited and is reaped.
    Done,
    /// Look again in a few milliseconds.
    LookAgain,
    /// Kill it, and reap it.
    Kill,
}

/// Decide what to do about the worker process at shutdown: wait until the
/// deadline for it to exit, then kill it. It is always reaped.
pub fn reap_within(child: ChildState, now: Moment, deadline: Moment) -> (r: ReapStep)
    ensures
        r == match child {
            ChildState::Exited => ReapStep::Done,
            ChildState::Running => if now.nanos < deadline.nanos {
                ReapStep::LookAgain
            } else {
                ReapStep::Kill
            },
            ChildState::Unknown => ReapStep::Kill,
        },
{
    match child {
        ChildState::Exited => ReapStep::Done,
        ChildState::Running => if now.nanos < deadline.nanos {
            ReapStep::LookAgain
        } else {
            ReapStep::Kill
        },
        ChildState::Unknown => ReapStep::Kill,
    }
}

/// Every outcome is counted in exactly one class: the total moves by one and
/// nothing else does.
pub proof fn every_outcome_is_in_one_class(c: KillCounts, outcome: KillResponse)
    requires
        c.outcomes_spec() < u64::MAX,
    ensures
        counted(c, class_of(outcome)).outcomes_spec() == c.outcomes_spec() + 1,
        counted(c, class_of(outcome)).accepted == c.accepted,
        counted(c, class_of(outcome)).dropped_requests == c.dropped_requests,
        counted(c, class_of(outcome)).unobserved_outcomes == c.unobserved_outcomes,
{
}

/// One step of the ledger's life.
pub ghost enum LedgerStep {
    /// A request was offered, and the channel did this with it.
    Offered(KillRequest, Offer<KillRequest>),
    /// The worker reported an outcome.
    Outcome(KillResponse),
}

/// The counts after a run of steps.
pub open spec fn ledger_after(c: KillCounts, steps: Seq<LedgerStep>) -> KillCounts
    decreases steps.len(),
{
    if steps.len() == 0 {
        c
    } else {
        let before = ledger_after(c, steps.drop_last());
        match steps.last() {
            LedgerStep::Offered(request, offer) => after_offer(before, request, offer),
            LedgerStep::Outcome(outcome) => counted(before, class_of(outcome)),
        }
    }
}

/// Sends that were queued in a run of steps.
pub open spec fn queued(steps: Seq<LedgerStep>) -> nat
    decreases steps.len(),
{
    if steps.len() == 0 {
        0
    } else {
        queued(steps.drop_last()) + match steps.last() {
            LedgerStep::Offered(request, offer) => if request is SendResponse && offer is Sent {
                1nat
            } else {
                0nat
            },
            LedgerStep::Outcome(_) => 0nat,
        }
    }
}

/// Outcomes in a run of steps.
pub open spec fn reported(steps: Seq<LedgerStep>) -> nat
    decreases steps.len(),
{
    if steps.len() == 0 {
        0
    } else {
        reported(steps.drop_last()) + if steps.last() is Outcome {
            1nat
        } else {
            0nat
        }
    }
}

/// The ledger counts what happened: accepted is what was queued, and the four
/// classes together are what was reported, whatever the order.
pub proof fn the_ledger_counts_what_happened(c: KillCounts, steps: Seq<LedgerStep>)
    requires
        c.accepted + steps.len() < u64::MAX,
        c.outcomes_spec() + steps.len() < u64::MAX,
        c.dropped_requests + steps.len() < u64::MAX,
    ensures
        ledger_after(c, steps).accepted == c.accepted + queued(steps),
        ledger_after(c, steps).outcomes_spec() == c.outcomes_spec() + reported(steps),
        ledger_after(c, steps).dropped_requests <= c.dropped_requests + steps.len(),
        queued(steps) + reported(steps) <= steps.len(),
    decreases steps.len(),
{
    if steps.len() > 0 {
        the_ledger_counts_what_happened(c, steps.drop_last());
    }
}

/// The ledger closes: once the worker is gone, every accepted request has an
/// outcome or is lost with the worker, never both and never neither. While it
/// lives nothing is lost.
pub proof fn the_ledger_closes(t: KillTally)
    requires
        t.counts().outcomes_spec() <= t.counts().accepted,
    ensures
        t.worker_gone() ==> t.snapshot_spec().accepted == t.snapshot_spec().outcomes_spec()
            + t.snapshot_spec().lost_to_worker_exit,
        !t.worker_gone() ==> t.snapshot_spec().lost_to_worker_exit == 0,
{
}

/// A full queue is not a death: it drops the request and leaves the defense
/// armed, the accepted count as it was, and the outcomes untouched.
pub proof fn a_full_queue_is_not_a_death(c: KillCounts, request: KillRequest)
    ensures
        after_offer(c, request, Offer::Full(request)).accepted == c.accepted,
        after_offer(c, request, Offer::Full(request)).outcomes_spec() == c.outcomes_spec(),
{
}

} // verus!
