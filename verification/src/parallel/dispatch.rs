//! Reading a set of files into the worker pool, in file order.
//!
//! A worker must see its packets in capture order, so the readers of a set do
//! not send to the workers: each fills a queue, and the dispatcher releases
//! them file by file. What becomes of each file is settled in file order too,
//! by the same rules whether one thread reads the set or several do.
use crate::channel::{channel_send, Fate, Outbox};
use crate::net::IpAddr;
use crate::packet::{later, Packet, SweepClock, Timestamp};
use crate::parallel::reader::{
    file_batches, packets_for, packets_for_concat, routed, shard_of, FileRead, BATCH, ReadProgress,
    SeenFrame, ShardBatch,
};
use crate::parallel::reader::every_frame_reaches_its_worker_in_order;
use crate::parallel::runway::{DISPATCH_RESERVE_BYTES, READ_AHEAD_BYTES};
use crate::parallel::shard::shard_for;
use vstd::prelude::*;
use vstd::string::*;

verus! {

/// Packets lost by one send: none where a worker took it, all it carried where
/// the worker is gone.
pub open spec fn lost_by(taken: bool, weight: u64) -> u64 {
    if taken {
        0
    } else {
        weight
    }
}

/// Packets lost by one send, given whether a worker took it.
pub fn lost_weight(taken: bool, weight: u64) -> (r: u64)
    ensures
        r == lost_by(taken, weight),
{
    if taken {
        0
    } else {
        weight
    }
}

/// Whether exactly one item was handed to a channel, by waiting for room: it
/// was taken, or the worker is gone.
pub open spec fn handed_one<T>(before: Outbox<T>, after: Outbox<T>, item: T) -> bool {
    ||| after.log() == before.log().push((item, Fate::Taken))
    ||| after.log() == before.log().push((item, Fate::Closed))
}

/// Whether the last thing handed to a channel was taken.
pub open spec fn last_was_taken<T>(out: Outbox<T>) -> bool {
    out.log().last().1 == Fate::Taken
}

/// Send one item to a worker's channel, and say how many packets were lost:
/// none where the worker lives, `weight` where its receiver is gone. The
/// channel waits when it is merely full, so a loss is always a dead worker.
pub fn shard_send<T>(out: &mut Outbox<T>, item: T, weight: u64) -> (r: u64)
    ensures
        handed_one(*old(out), *final(out), item),
        r == lost_by(last_was_taken(*final(out)), weight),
{
    let sent = channel_send(out, item);
    lost_weight(sent.is_ok(), weight)
}

/// Where a finished batch goes once the reader has filled it.
pub trait ShardSink {
    /// Whether there is a worker that owns a shard.
    spec fn owns(&self, shard: nat) -> bool;

    /// Hand a batch to the worker that owns its shard. `false` means stop
    /// reading.
    fn emit(&mut self, batch: ShardBatch) -> bool
        requires
            old(self).owns(batch.shard as nat),
    ;
}

/// The single-file sink: one hop, straight to the worker.
pub struct DirectSink {
    /// One channel per worker, indexed by shard.
    pub txs: Vec<Outbox<Vec<Packet>>>,
    /// Packets lost because a worker's channel had closed; it stays at the
    /// largest number once it has reached it.
    pub dropped: u64,
}

/// A sum that stays at the largest number where it would pass it.
pub open spec fn saturated(a: u64, b: u64) -> u64 {
    if a + b > u64::MAX {
        u64::MAX
    } else {
        (a + b) as u64
    }
}

impl ShardSink for DirectSink {
    open spec fn owns(&self, shard: nat) -> bool {
        shard < self.txs@.len()
    }

    /// Send the batch to its worker. A dead worker does not stop the read: the
    /// loss is counted, and the other workers still get theirs.
    fn emit(&mut self, batch: ShardBatch) -> (r: bool)
        ensures
            r,
            final(self).txs@.len() == old(self).txs@.len(),
            forall|i: int|
                0 <= i < old(self).txs@.len() && i != batch.shard ==> #[trigger] final(
                    self).txs@[i] == old(self).txs@[i],
            handed_one(
                old(self).txs@[batch.shard as int],
                final(self).txs@[batch.shard as int],
                batch.packets,
            ),
            final(self).dropped == saturated(
                old(self).dropped,
                lost_by(
                    last_was_taken(final(self).txs@[batch.shard as int]),
                    batch.packets@.len() as u64,
                ),
            ),
    {
        let weight: u64 = batch.packets.len() as u64;
        let out = &mut self.txs[batch.shard];
        let lost: u64 = shard_send(out, batch.packets, weight);
        self.dropped = self.dropped.saturating_add(lost);
        true
    }
}

/// What one batch costs while it waits: its frames, plus the packets that
/// carry them. The second half gives the charge a floor.
pub open spec fn charge_of(packets: Seq<Packet>) -> nat
    decreases packets.len(),
{
    if packets.len() == 0 {
        0
    } else {
        charge_of(packets.drop_last()) + packets.last().data@.len() + vstd::layout::size_of::<
            Packet,
        >()
    }
}

/// A shorter run of packets never costs more.
proof fn charge_grows(packets: Seq<Packet>, i: int)
    requires
        0 <= i <= packets.len(),
    ensures
        charge_of(packets.take(i)) <= charge_of(packets),
    decreases packets.len() - i,
{
    if i == packets.len() {
        assert(packets.take(i) =~= packets);
    } else {
        charge_grows(packets, i + 1);
        assert(packets.take(i + 1).drop_last() =~= packets.take(i));
    }
}

/// What one batch is charged against the read-ahead.
pub fn read_ahead_charge(batch: &[Packet]) -> (r: usize)
    requires
        charge_of(batch@) <= usize::MAX,
    ensures
        r == charge_of(batch@),
{
    let each: usize = core::mem::size_of::<Packet>();
    let mut sum: usize = 0;
    let mut i: usize = 0;
    while i < batch.len()
        invariant
            i <= batch.len(),
            each == vstd::layout::size_of::<Packet>(),
            charge_of(batch@) <= usize::MAX,
            sum == charge_of(batch@.take(i as int)),
        decreases batch.len() - i,
    {
        proof {
            charge_grows(batch@, i + 1);
            assert(batch@.take(i + 1).drop_last() =~= batch@.take(i as int));
        }
        sum = sum + batch[i].data.len() + each;
        i += 1;
    }
    assert(batch@.take(i as int) =~= batch@);
    sum
}

/// What became of one file, reported by its reader.
#[derive(Debug)]
pub enum FileOutcome {
    /// The file could not be opened.
    OpenFailed(String),
    /// The packet filter would not compile against this file's link type.
    FilterFailed(String),
    /// The file was opened and read.
    Read(FileRead),
}

/// What was read of a set.
#[derive(Debug, Clone, Copy, PartialEq, Eq, Structural)]
pub struct ReadTally {
    /// Files in the set.
    pub given: usize,
    /// Files read to their end.
    pub complete: usize,
    /// Files whose read stopped short of their end.
    pub stopped_early: usize,
    /// Files that were not read at all.
    pub skipped: usize,
    /// Whether anything is missing that was asked for.
    pub lost: bool,
}

/// What a file's outcome means for the set.
#[derive(Debug)]
pub enum Settled {
    /// The file was read to its end.
    Complete,
    /// The packet budget ran out inside this file: the set is done.
    BudgetSpent,
    /// The file's read stopped on this error; the set goes on.
    StoppedEarly(String),
    /// The file could not be opened, for this reason; the set goes on.
    Skipped(String),
    /// The set is refused, for this reason.
    Refused(String),
}

impl Settled {
    /// Whether no further file of the set is read.
    pub open spec fn ends_the_set(self) -> bool {
        self is BudgetSpent || self is Refused
    }
}

/// The totals of a set so far.
pub ghost struct SetState {
    /// Files settled.
    pub settled: nat,
    /// Whether the set is over before its last file.
    pub ended: bool,
    /// What was read.
    pub progress: ReadProgress,
    /// What became of the files.
    pub tally: ReadTally,
}

impl SetState {
    /// What the next file's outcome means. The first file owns the verdict on
    /// whether the set can be read at all; a filter that will not compile
    /// refuses the set wherever it happens.
    pub open spec fn verdict(self, outcome: FileOutcome) -> Settled {
        match outcome {
            FileOutcome::OpenFailed(e) => if self.settled == 0 {
                Settled::Refused(e)
            } else {
                Settled::Skipped(e)
            },
            FileOutcome::FilterFailed(e) => Settled::Refused(e),
            FileOutcome::Read(read) => match read.stopped {
                Some(e) => Settled::StoppedEarly(e),
                None => if read.budget_spent {
                    Settled::BudgetSpent
                } else {
                    Settled::Complete
                },
            },
        }
    }

    /// The tally after the next file's outcome.
    pub open spec fn tallied(self, outcome: FileOutcome) -> ReadTally {
        match outcome {
            FileOutcome::OpenFailed(e) => if self.settled == 0 {
                self.tally
            } else {
                ReadTally {
                    skipped: (self.tally.skipped + 1) as usize,
                    lost: true,
                    ..self.tally
                }
            },
            FileOutcome::FilterFailed(e) => ReadTally {
                skipped: (self.tally.skipped + 1) as usize,
                lost: true,
                ..self.tally
            },
            FileOutcome::Read(read) => if read.stopped is Some {
                ReadTally {
                    stopped_early: (self.tally.stopped_early + 1) as usize,
                    lost: true,
                    ..self.tally
                }
            } else if read.budget_spent {
                ReadTally {
                    stopped_early: (self.tally.stopped_early + 1) as usize,
                    ..self.tally
                }
            } else {
                ReadTally { complete: (self.tally.complete + 1) as usize, ..self.tally }
            },
        }
    }

    /// The totals after the next file's outcome.
    pub open spec fn settles(self, outcome: FileOutcome) -> SetState {
        SetState {
            settled: self.settled + 1,
            ended: self.verdict(outcome).ends_the_set(),
            progress: match outcome {
                FileOutcome::Read(read) => self.progress.absorbed(read),
                _ => self.progress,
            },
            tally: self.tallied(outcome),
        }
    }

    /// The totals after the outcomes of the files in file order; nothing after
    /// the end of the set counts.
    pub open spec fn settles_all(self, outcomes: Seq<FileOutcome>) -> SetState
        decreases outcomes.len(),
    {
        if outcomes.len() == 0 {
            self
        } else {
            let before = self.settles_all(outcomes.drop_last());
            if before.ended {
                before
            } else {
                before.settles(outcomes.last())
            }
        }
    }

    /// Whether the files are all accounted for: each settled one is complete,
    /// stopped or skipped, except a first one that could not be opened.
    pub open spec fn valid(self) -> bool {
        let t = self.tally;
        let counted = t.complete + t.stopped_early + t.skipped;
        &&& self.settled <= t.given
        &&& counted == self.settled || (self.ended && self.settled == 1 && counted == 0)
        &&& t.skipped > 0 ==> t.lost
    }
}

/// Reads a set: it is told what became of each file, in file order.
#[derive(Debug)]
pub struct SetRun {
    next: usize,
    ended: bool,
    progress: ReadProgress,
    tally: ReadTally,
}

impl View for SetRun {
    type V = SetState;

    closed spec fn view(&self) -> SetState {
        SetState {
            settled: self.next as nat,
            ended: self.ended,
            progress: self.progress,
            tally: self.tally,
        }
    }
}

/// Room that is left of a packet budget.
pub open spec fn budget_left(limit: Option<u64>, read: u64) -> Option<u64> {
    match limit {
        Some(max) => Some(
            if max >= read {
                (max - read) as u64
            } else {
                0
            },
        ),
        None => None,
    }
}

impl SetRun {
    /// A set of `files` files, none of them read.
    pub fn new(files: usize) -> (r: Self)
        ensures
            r@.settled == 0,
            !r@.ended,
            r@.progress.count == 0,
            r@.progress.dropped == 0,
            r@.progress.unshardable == 0,
            r@.progress.clock.latest is None,
            r@.tally == (ReadTally {
                given: files,
                complete: 0,
                stopped_early: 0,
                skipped: 0,
                lost: false,
            }),
            r@.valid(),
    {
        SetRun {
            next: 0,
            ended: false,
            progress: ReadProgress::new(),
            tally: ReadTally { given: files, complete: 0, stopped_early: 0, skipped: 0, lost: false },
        }
    }

    /// The file to read next, or `None` where the set is done.
    pub fn next_file(&self) -> (r: Option<usize>)
        requires
            self@.valid(),
        ensures
            r is Some <==> !self@.ended && self@.settled < self@.tally.given,
            r matches Some(file) ==> file == self@.settled,
    {
        if self.ended || self.next >= self.tally.given {
            None
        } else {
            Some(self.next)
        }
    }

    /// How many packets the next file may still give: what is left of the
    /// limit across the set.
    pub fn budget(&self, limit: Option<u64>) -> (r: Option<u64>)
        ensures
            r == budget_left(limit, self@.progress.count),
    {
        match limit {
            Some(max) => if max >= self.progress.count {
                Some(max - self.progress.count)
            } else {
                Some(0)
            },
            None => None,
        }
    }

    /// The totals so far.
    pub fn totals(&self) -> (r: (ReadProgress, ReadTally))
        ensures
            r.0 == self@.progress,
            r.1 == self@.tally,
    {
        (self.progress, self.tally)
    }

    /// Count packets that a dead worker did not take.
    pub fn note_lost(&mut self, lost: u64)
        requires
            old(self)@.progress.dropped + lost <= u64::MAX,
        ensures
            final(self)@ == (SetState {
                progress: ReadProgress {
                    dropped: (old(self)@.progress.dropped + lost) as u64,
                    ..old(self)@.progress
                },
                ..old(self)@
            }),
    {
        self.progress.dropped += lost;
    }

    /// Settle the next file of the set by what became of it.
    pub fn settle(&mut self, outcome: FileOutcome) -> (r: Settled)
        requires
            old(self)@.valid(),
            !old(self)@.ended,
            old(self)@.settled < old(self)@.tally.given,
            outcome matches FileOutcome::Read(read) ==> old(self)@.progress.count + read.count
                <= u64::MAX && old(self)@.progress.unshardable + read.unshardable <= u64::MAX,
        ensures
            r == old(self)@.verdict(outcome),
            final(self)@ == old(self)@.settles(outcome),
            final(self)@.valid(),
    {
        let first: bool = self.next == 0;
        self.next += 1;
        match outcome {
            FileOutcome::OpenFailed(e) => {
                if first {
                    self.ended = true;
                    Settled::Refused(e)
                } else {
                    self.tally.skipped += 1;
                    self.tally.lost = true;
                    Settled::Skipped(e)
                }
            },
            FileOutcome::FilterFailed(e) => {
                self.tally.skipped += 1;
                self.tally.lost = true;
                self.ended = true;
                Settled::Refused(e)
            },
            FileOutcome::Read(read) => {
                let budget_spent: bool = read.budget_spent;
                match self.progress.absorb(read) {
                    Some(e) => {
                        self.tally.stopped_early += 1;
                        self.tally.lost = true;
                        Settled::StoppedEarly(e)
                    },
                    None => {
                        if budget_spent {
                            self.tally.stopped_early += 1;
                            self.ended = true;
                            Settled::BudgetSpent
                        } else {
                            self.tally.complete += 1;
                            Settled::Complete
                        }
                    },
                }
            },
        }
    }
}

/// Once a set is over, no later file changes what is reported of it: the
/// verdict is the first one in file order, however the reads interleaved.
pub proof fn the_first_verdict_in_file_order_stands(
    s: SetState,
    a: Seq<FileOutcome>,
    b: Seq<FileOutcome>,
)
    requires
        s.settles_all(a).ended,
    ensures
        s.settles_all(a + b) == s.settles_all(a),
    decreases b.len(),
{
    if b.len() == 0 {
        assert(a + b =~= a);
    } else {
        the_first_verdict_in_file_order_stands(s, a, b.drop_last());
        assert((a + b).drop_last() =~= a + b.drop_last());
    }
}

/// Whether each file was read within what was left of the limit when its turn
/// came.
pub open spec fn within_limit(s: SetState, limit: u64, outcomes: Seq<FileOutcome>) -> bool {
    forall|i: int|
        0 <= i < outcomes.len() ==> match #[trigger] outcomes[i] {
            FileOutcome::Read(read) => read.count <= budget_left(
                Some(limit),
                s.settles_all(outcomes.take(i)).progress.count,
            )->0,
            _ => true,
        }
}

/// A packet limit is one for the whole set: where each file is read within what
/// is left of it, the set never gives more packets than the limit.
pub proof fn the_limit_spans_the_set(s: SetState, limit: u64, outcomes: Seq<FileOutcome>)
    requires
        s.progress.count <= limit,
        within_limit(s, limit, outcomes),
    ensures
        s.settles_all(outcomes).progress.count <= limit,
    decreases outcomes.len(),
{
    if outcomes.len() > 0 {
        let front = outcomes.drop_last();
        let last = outcomes.len() - 1;
        assert forall|i: int| 0 <= i < front.len() implies match #[trigger] front[i] {
            FileOutcome::Read(read) => read.count <= budget_left(
                Some(limit),
                s.settles_all(front.take(i)).progress.count,
            )->0,
            _ => true,
        } by {
            assert(outcomes[i] == front[i]);
            assert(outcomes.take(i) =~= front.take(i));
        }
        the_limit_spans_the_set(s, limit, front);
        assert(outcomes.take(last) =~= front);
        assert(outcomes[last] == outcomes.last());
    }
}

/// A message from one file's reader to the dispatcher.
#[derive(Debug)]
pub enum ReaderMsg {
    /// One worker's packets, in capture order.
    Batch {
        /// What this batch was charged against the read-ahead.
        charge: usize,
        /// The batch.
        batch: ShardBatch,
    },
    /// This file is finished: always the last message a file sends.
    Done(FileOutcome),
}

/// What the dispatcher is to do next.
#[derive(Debug)]
pub enum DispatchAction {
    /// Send the batch to its worker, then give back its charge. Where
    /// `announce` is set, say first that this file is being read.
    Forward {
        /// Whether to say that this file is being read.
        announce: bool,
        /// The charge to give back after the send.
        charge: usize,
        /// The batch to send.
        batch: ShardBatch,
    },
    /// The file is settled.
    FileDone {
        /// Whether to say that this file is being read.
        announce: bool,
        /// What its outcome means.
        settled: Settled,
    },
    /// The file's reader is gone without a verdict; the set is refused with
    /// this message.
    ReaderVanished(String),
}

/// Releases what the readers produced into the worker pool, file by file.
#[derive(Debug)]
pub struct Dispatcher {
    queues: usize,
    announced: bool,
    run: SetRun,
}

/// The message for a reader that is gone without a verdict.
pub open spec fn vanished_text(path: Seq<char>) -> Seq<char> {
    "the reader thread for '"@ + path + "' stopped without reporting"@
}

impl Dispatcher {
    /// The totals of the set.
    pub closed spec fn set(self) -> SetState {
        self.run@
    }

    /// Queues that the readers fill.
    pub closed spec fn queues(self) -> nat {
        self.queues as nat
    }

    /// Whether the current file was said to be read.
    pub closed spec fn announced(self) -> bool {
        self.announced
    }

    /// A dispatcher for a set of `files` files that `queues` readers fill.
    pub fn new(files: usize, queues: usize) -> (r: Self)
        requires
            queues > 0,
        ensures
            r.set().valid(),
            r.set().settled == 0,
            !r.set().ended,
            r.set().progress.count == 0,
            r.set().progress.dropped == 0,
            r.set().progress.unshardable == 0,
            r.set().progress.clock.latest is None,
            r.set().tally == (ReadTally {
                given: files,
                complete: 0,
                stopped_early: 0,
                skipped: 0,
                lost: false,
            }),
            r.queues() == queues,
            !r.announced(),
    {
        Dispatcher { queues, announced: false, run: SetRun::new(files) }
    }

    /// The file being released and the queue its reader fills, or `None` where
    /// the set is done.
    pub fn listens_to(&self) -> (r: Option<(usize, usize)>)
        requires
            self.set().valid(),
            self.queues() > 0,
        ensures
            r is Some <==> !self.set().ended && self.set().settled < self.set().tally.given,
            r matches Some((file, queue)) ==> file == self.set().settled && queue
                == self.set().settled % self.queues() && queue < self.queues(),
    {
        match self.run.next_file() {
            None => None,
            Some(file) => Some((file, file % self.queues)),
        }
    }

    /// Count packets that a dead worker did not take.
    pub fn note_lost(&mut self, lost: u64)
        requires
            old(self).set().progress.dropped + lost <= u64::MAX,
        ensures
            final(self).set() == (SetState {
                progress: ReadProgress {
                    dropped: (old(self).set().progress.dropped + lost) as u64,
                    ..old(self).set().progress
                },
                ..old(self).set()
            }),
            final(self).queues() == old(self).queues(),
            final(self).announced() == old(self).announced(),
    {
        self.run.note_lost(lost);
    }

    /// The totals so far.
    pub fn totals(&self) -> (r: (ReadProgress, ReadTally))
        ensures
            r.0 == self.set().progress,
            r.1 == self.set().tally,
    {
        self.run.totals()
    }

    /// Take in the next message of the current file's reader, `None` where the
    /// reader is gone. `path` names the file.
    pub fn on_message(&mut self, msg: Option<ReaderMsg>, path: &str) -> (r: DispatchAction)
        requires
            old(self).set().valid(),
            !old(self).set().ended,
            old(self).set().settled < old(self).set().tally.given,
            msg matches Some(ReaderMsg::Done(FileOutcome::Read(read))) ==> old(
                self,
            ).set().progress.count + read.count <= u64::MAX && old(self).set().progress.unshardable
                + read.unshardable <= u64::MAX,
        ensures
            final(self).queues() == old(self).queues(),
            final(self).set().valid(),
            match msg {
                Some(ReaderMsg::Batch { charge, batch }) => {
                    &&& r == DispatchAction::Forward { announce: !old(self).announced(), charge, batch }
                    &&& final(self).set() == old(self).set()
                    &&& final(self).announced()
                },
                Some(ReaderMsg::Done(outcome)) => {
                    &&& r == DispatchAction::FileDone {
                        announce: outcome is Read && !old(self).announced(),
                        settled: old(self).set().verdict(outcome),
                    }
                    &&& final(self).set() == old(self).set().settles(outcome)
                    &&& !final(self).announced()
                },
                None => {
                    &&& r is ReaderVanished && r->ReaderVanished_0@ == vanished_text(path@)
                    &&& final(self).set() == old(self).set()
                },
            },
    {
        match msg {
            Some(ReaderMsg::Batch { charge, batch }) => {
                let announce: bool = !self.announced;
                self.announced = true;
                DispatchAction::Forward { announce, charge, batch }
            },
            Some(ReaderMsg::Done(outcome)) => {
                let was_read: bool = match &outcome {
                    FileOutcome::Read(_) => true,
                    _ => false,
                };
                let announce: bool = was_read && !self.announced;
                self.announced = false;
                DispatchAction::FileDone { announce, settled: self.run.settle(outcome) }
            },
            None => {
                let mut text = String::from_str("the reader thread for '");
                text.append(path);
                text.append("' stopped without reporting");
                DispatchAction::ReaderVanished(text)
            },
        }
    }
}

/// What a file's reader sends, as the dispatcher forwards it: a message's
/// batch, or nothing where it carries none.
pub open spec fn forwarded(msgs: Seq<ReaderMsg>) -> Seq<(nat, Seq<Packet>)>
    decreases msgs.len(),
{
    if msgs.len() == 0 {
        seq![]
    } else {
        let before = forwarded(msgs.drop_last());
        match msgs.last() {
            ReaderMsg::Batch { charge, batch } => before.push(batch@),
            ReaderMsg::Done(_) => before,
        }
    }
}

/// Whether a stream of messages is one file's: its batches in the order its
/// reader completed them, and a verdict last.
pub open spec fn is_files_stream(msgs: Seq<ReaderMsg>, frames: Seq<SeenFrame>, shards: nat) -> bool {
    msgs.len() > 0 && msgs.last() is Done && forwarded(msgs) == file_batches(frames, shards)
}

/// The streams of several files, one after the other.
pub open spec fn joined(streams: Seq<Seq<ReaderMsg>>) -> Seq<ReaderMsg>
    decreases streams.len(),
{
    if streams.len() == 0 {
        seq![]
    } else {
        joined(streams.drop_last()) + streams.last()
    }
}

/// What worker `s` is owed of a set: each file's frames for it in capture
/// order, the files in file order.
pub open spec fn set_routed(files: Seq<Seq<SeenFrame>>, shards: nat, s: nat) -> Seq<Packet>
    decreases files.len(),
{
    if files.len() == 0 {
        seq![]
    } else {
        set_routed(files.drop_last(), shards, s) + routed(files.last(), shards, s)
    }
}

/// Forwarding two streams one after the other forwards the first and then the
/// second.
proof fn forwarded_concat(a: Seq<ReaderMsg>, b: Seq<ReaderMsg>)
    ensures
        forwarded(a + b) == forwarded(a) + forwarded(b),
    decreases b.len(),
{
    if b.len() == 0 {
        assert(a + b =~= a);
        assert(forwarded(a) + forwarded(b) =~= forwarded(a));
    } else {
        assert((a + b).drop_last() =~= a + b.drop_last());
        forwarded_concat(a, b.drop_last());
        assert(forwarded(a + b) =~= forwarded(a) + forwarded(b));
    }
}

/// Releasing the readers' streams file by file gives every worker exactly what
/// one thread reading the set would have given it: for every worker, the first
/// file's packets in order, then the second's, and so on.
pub proof fn the_set_is_released_in_file_order(
    streams: Seq<Seq<ReaderMsg>>,
    files: Seq<Seq<SeenFrame>>,
    shards: nat,
    s: nat,
)
    requires
        shards > 0,
        s < shards,
        streams.len() == files.len(),
        forall|i: int|
            0 <= i < files.len() ==> is_files_stream(#[trigger] streams[i], files[i], shards),
    ensures
        packets_for(forwarded(joined(streams)), s) == set_routed(files, shards, s),
    decreases files.len(),
{
    if files.len() > 0 {
        let front = streams.drop_last();
        let last = files.len() - 1;
        assert forall|i: int| 0 <= i < files.drop_last().len() implies is_files_stream(
            #[trigger] front[i],
            files.drop_last()[i],
            shards,
        ) by {
            assert(front[i] == streams[i]);
        }
        the_set_is_released_in_file_order(front, files.drop_last(), shards, s);
        assert(is_files_stream(streams[last], files[last], shards));
        forwarded_concat(joined(front), streams.last());
        packets_for_concat(forwarded(joined(front)), forwarded(streams.last()), s);
        every_frame_reaches_its_worker_in_order(files.last(), shards, s);
    }
}

/// Where the packets of a channel go: the totals of a run fed by one.
impl ReadProgress {
    /// The totals after one packet with this time and host pair.
    pub open spec fn routed_one(self, t: Timestamp, hosts: Option<(IpAddr, IpAddr)>) -> ReadProgress {
        ReadProgress {
            count: (self.count + 1) as u64,
            dropped: self.dropped,
            unshardable: if hosts is None {
                (self.unshardable + 1) as u64
            } else {
                self.unshardable
            },
            clock: SweepClock { latest: Some(later(self.clock.latest, t)) },
        }
    }

    /// Count one packet and choose the worker it goes to.
    pub fn route(&mut self, t: Timestamp, hosts: Option<(IpAddr, IpAddr)>, workers: usize) -> (r:
        usize)
        requires
            workers > 0,
            old(self).count < u64::MAX,
            old(self).unshardable < u64::MAX,
        ensures
            r == shard_of(hosts, workers as nat),
            r < workers,
            *final(self) == old(self).routed_one(t, hosts),
    {
        self.clock.observe(t);
        self.count += 1;
        match hosts {
            Some((a, b)) => shard_for(a, b, workers),
            None => {
                self.unshardable += 1;
                0
            },
        }
    }
}

/// How a set is read.
#[derive(Debug, Clone, Copy, PartialEq, Eq, Structural)]
pub struct ReadPlan {
    /// Worker threads: at least two.
    pub workers: usize,
    /// Reader threads: one per file, no more than there are workers.
    pub readers: usize,
    /// Whether several readers run at once, with a dispatcher behind them.
    pub parallel: bool,
}

/// How many workers a run has: as many as were asked for, and at least two.
pub fn worker_count(cores: usize) -> (r: usize)
    ensures
        r == if cores >= 2 {
            cores
        } else {
            2
        },
{
    if cores >= 2 {
        cores
    } else {
        2
    }
}

/// Decide how a set is read. A single file has one reader whatever the cores;
/// a limited read stays with one reader, because "the first packets of the
/// set" means read order. A set without files is refused.
pub fn plan_read(files: usize, cores: usize, limit: Option<u64>) -> (r: Result<ReadPlan, String>)
    ensures
        r is Ok <==> files > 0,
        r matches Err(e) ==> e@ == "no capture files to read"@,
        r matches Ok(p) ==> {
            &&& p.workers == if cores >= 2 {
                cores
            } else {
                2
            }
            &&& p.readers == if files <= p.workers {
                files
            } else {
                p.workers
            }
            &&& p.parallel == (p.readers > 1 && limit is None)
        },
{
    if files == 0 {
        return Err(String::from_str("no capture files to read"));
    }
    let workers: usize = worker_count(cores);
    let readers: usize = if files <= workers {
        files
    } else {
        workers
    };
    Ok(ReadPlan { workers, readers, parallel: readers > 1 && limit.is_none() })
}

/// Depth of a reader's queue: past what both pools can ever cover in batches
/// of the smallest charge, so that the ledger stops a reader and the queue
/// never does.
pub fn queue_depth(packet_bytes: usize) -> (r: usize)
    requires
        0 < packet_bytes <= READ_AHEAD_BYTES,
    ensures
        r == (READ_AHEAD_BYTES + DISPATCH_RESERVE_BYTES) / (BATCH * packet_bytes) + 8,
{
    let pools: u64 = READ_AHEAD_BYTES as u64 + DISPATCH_RESERVE_BYTES as u64;
    (pools / (BATCH as u64 * packet_bytes as u64)) as usize + 8
}

/// The file a reader takes after `file`: the readers share the set out in
/// turn.
pub fn next_file_of_reader(file: usize, readers: usize, files: usize) -> (r: Option<usize>)
    requires
        file < files,
    ensures
        r is Some <==> file + readers < files,
        r matches Some(next) ==> next == file + readers,
{
    if readers < files - file {
        Some(file + readers)
    } else {
        None
    }
}

/// Every file a reader takes is one whose queue the dispatcher listens to for
/// that file.
pub proof fn a_reader_fills_its_own_queue(first: nat, readers: nat, turns: nat)
    requires
        first < readers,
    ensures
        (first + turns * readers) % readers == first,
{
    vstd::arithmetic::div_mod::lemma_mod_multiples_vanish(
        turns as int,
        first as int,
        readers as int,
    );
    vstd::arithmetic::div_mod::lemma_small_mod(first, readers);
    assert(readers * turns + first == first + turns * readers) by (nonlinear_arith);
}

} // verus!
