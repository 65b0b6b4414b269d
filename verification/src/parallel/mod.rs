//! Multi-core offline processing.
//!
//! A flow's packets always land on the same worker: sharding is by the host
//! pair, whichever way a packet went. Each worker owns stores of its own, which
//! are merged at the end of the run, and the sweep for idle dialogs runs once,
//! after the merge, at the newest capture time.
pub mod cores;
pub mod dispatch;
pub mod promises;
pub mod reader;
pub mod runway;
pub mod shard;

use crate::packet::{SweepClock, Timestamp};
use crate::percent::{reaches_half, share, share_tenths, tenths_text};
use crate::text::{decimal, decimal_text};
use vstd::prelude::*;
use vstd::string::*;

verus! {

/// Configuration for the offline parallel reconstruction engine. `T` is how
/// messages are grouped into dialogs.
#[derive(Debug)]
pub struct ParallelConfig<T> {
    /// Number of worker threads asked for.
    pub cores: usize,
    /// Per-worker stream-store capacity.
    pub max_streams: usize,
    /// Per-worker dialog-store capacity.
    pub max_dialogs: usize,
    /// Evict the oldest dialog or stream at capacity.
    pub rotate: bool,
    /// Most concurrent reassembly sessions.
    pub max_reassembly: usize,
    /// SIP port range.
    pub portrange: (u16, u16),
    /// Skip dialog reconstruction.
    pub no_dialog: bool,
    /// How messages are grouped.
    pub dialog_tracking: T,
    /// Skip RTP and RTCP processing.
    pub no_rtp: bool,
    /// Suppress the bad-parse diagnostic.
    pub quiet_bad_parse: bool,
    /// Correlation header names for matching the legs of one call.
    pub xcid_headers: Vec<String>,
    /// How far apart, in milliseconds, two legs of one call may be created and
    /// still correlate on timing alone.
    pub leg_correlation_window_ms: u64,
    /// Reassemble fragments and segments.
    pub reassembly: bool,
    /// Cap on parsed bytes per packet.
    pub parse_limit: Option<usize>,
}

/// Merged output of all workers: a dialog store `D`, a stream store `S`, and
/// the counts of the run.
#[derive(Debug)]
pub struct ReconResult<D, S> {
    /// Merged dialogs from every worker.
    pub dialog_store: D,
    /// Merged and globally reassociated streams.
    pub stream_store: S,
    /// Total SIP messages reconstructed.
    pub sip_count: u64,
    /// Total RTP packets processed.
    pub rtp_count: u64,
    /// Total parsed packets dispatched.
    pub total_count: u64,
    /// Packets lost because a worker died mid-run.
    pub dropped_count: u64,
    /// Worker threads this run actually used.
    pub workers: usize,
    /// Raw packets the reader made a shard decision about. Not the count of
    /// parsed ones: several raw frames make one, and some make none.
    pub packets_read: u64,
    /// Of those, the ones without a readable host pair, which went to worker 0.
    pub unshardable_count: u64,
}

/// The share in the notice, where there is a denominator for one.
pub open spec fn share_text(unshardable: u64, packets_read: u64) -> Seq<char> {
    if packets_read > 0 {
        " ("@ + tenths_text(share_tenths(unshardable as nat, packets_read as nat)) + "%)"@
    } else {
        seq![]
    }
}

/// What the notice adds where most of the run, or all of it, fell back.
pub open spec fn tier_text(unshardable: u64, packets_read: u64, workers: usize) -> Seq<char> {
    if packets_read > 0 && unshardable >= packets_read {
        " --cores BOUGHT NOTHING ON THIS CAPTURE — every packet ran on worker 0 while the other "@
            + decimal_text((workers - 1) as nat)
            + " worker(s) idled, so this run was single-threaded whatever --cores said. The peek cannot follow this capture's encapsulation; report its link type."@
    } else if packets_read > 0 && reaches_half(unshardable as nat, packets_read as nat) {
        " MOST OF THIS RUN WAS SINGLE-THREADED — the majority of the capture ran on worker 0, so --cores bought far less than the "@
            + decimal_text(workers as nat)
            + " workers suggest. The peek cannot follow part of this capture's encapsulation; report its link type."@
    } else {
        seq![]
    }
}

/// The notice of a run in which packets fell back to worker 0.
pub open spec fn fallback_text(unshardable: u64, packets_read: u64, workers: usize) -> Seq<char> {
    "NOT SHARDED: "@ + decimal_text(unshardable as nat) + " of "@ + decimal_text(
        packets_read as nat,
    ) + " packet(s)"@ + share_text(unshardable, packets_read)
        + " carried no host pair the shard peek could read, so they were dispatched to worker 0 instead of being spread across the "@
        + decimal_text(workers as nat) + " workers."@ + tier_text(
        unshardable,
        packets_read,
        workers,
    )
}

/// What the shard fallback cost a run, as the line a summary prints.
///
/// `None` where every packet sharded, and where there is only one worker: then
/// everything is on worker 0 and the count says nothing. A denominator of zero
/// suppresses the share rather than being divided by.
pub fn shard_fallback_summary(unshardable: u64, packets_read: u64, workers: usize) -> (r: Option<
    String,
>)
    ensures
        r is None <==> workers <= 1 || unshardable == 0,
        r matches Some(text) ==> text@ == fallback_text(unshardable, packets_read, workers),
{
    if workers <= 1 || unshardable == 0 {
        return None;
    }
    let mut msg = String::from_str("NOT SHARDED: ");
    msg.append(decimal(unshardable).as_str());
    msg.append(" of ");
    msg.append(decimal(packets_read).as_str());
    msg.append(" packet(s)");
    let ghost head = msg@;
    let mut most: bool = false;
    if packets_read > 0 {
        let (text, half) = share(unshardable, packets_read);
        most = half;
        msg.append(" (");
        msg.append(text.as_str());
        msg.append("%)");
    }
    assert(msg@ =~= head + share_text(unshardable, packets_read));
    msg.append(
        " carried no host pair the shard peek could read, so they were dispatched to worker 0 instead of being spread across the ",
    );
    msg.append(decimal(workers as u64).as_str());
    msg.append(" workers.");
    let ghost body = msg@;
    if packets_read > 0 && unshardable >= packets_read {
        msg.append(
            " --cores BOUGHT NOTHING ON THIS CAPTURE — every packet ran on worker 0 while the other ",
        );
        msg.append(decimal((workers - 1) as u64).as_str());
        msg.append(
            " worker(s) idled, so this run was single-threaded whatever --cores said. The peek cannot follow this capture's encapsulation; report its link type.",
        );
    } else if most {
        msg.append(
            " MOST OF THIS RUN WAS SINGLE-THREADED — the majority of the capture ran on worker 0, so --cores bought far less than the ",
        );
        msg.append(decimal(workers as u64).as_str());
        msg.append(
            " workers suggest. The peek cannot follow part of this capture's encapsulation; report its link type.",
        );
    }
    assert(msg@ =~= body + tier_text(unshardable, packets_read, workers));
    Some(msg)
}

impl<D, S> ReconResult<D, S> {
    /// This run's shard-fallback notice, or `None` when there is nothing to
    /// say.
    pub fn shard_fallback_notice(&self) -> (r: Option<String>)
        ensures
            r is None <==> self.workers <= 1 || self.unshardable_count == 0,
            r matches Some(text) ==> text@ == fallback_text(
                self.unshardable_count,
                self.packets_read,
                self.workers,
            ),
    {
        shard_fallback_summary(self.unshardable_count, self.packets_read, self.workers)
    }
}

/// What one worker counted.
#[derive(Debug, Clone, Copy, PartialEq, Eq, Structural)]
pub struct WorkerCounts {
    /// SIP messages.
    pub sip: u64,
    /// RTP packets.
    pub rtp: u64,
    /// Parsed packets.
    pub total: u64,
}

/// The sum over the workers that ended well of one of their counts.
pub open spec fn count_sum(
    workers: Seq<Option<WorkerCounts>>,
    count: spec_fn(WorkerCounts) -> u64,
) -> nat
    decreases workers.len(),
{
    if workers.len() == 0 {
        0
    } else {
        count_sum(workers.drop_last(), count) + match workers.last() {
            Some(w) => count(w) as nat,
            None => 0,
        }
    }
}

/// The first workers' sum never exceeds the sum of all.
proof fn count_sum_grows(
    workers: Seq<Option<WorkerCounts>>,
    count: spec_fn(WorkerCounts) -> u64,
    i: int,
)
    requires
        0 <= i <= workers.len(),
    ensures
        count_sum(workers.take(i), count) <= count_sum(workers, count),
    decreases workers.len() - i,
{
    if i == workers.len() {
        assert(workers.take(i) =~= workers);
    } else {
        count_sum_grows(workers, count, i + 1);
        assert(workers.take(i + 1).drop_last() =~= workers.take(i));
    }
}

/// Add up what the workers counted; one that died is `None` and adds nothing.
pub fn merge_counts(workers: &[Option<WorkerCounts>]) -> (r: WorkerCounts)
    requires
        count_sum(workers@, |w: WorkerCounts| w.sip) <= u64::MAX,
        count_sum(workers@, |w: WorkerCounts| w.rtp) <= u64::MAX,
        count_sum(workers@, |w: WorkerCounts| w.total) <= u64::MAX,
    ensures
        r.sip == count_sum(workers@, |w: WorkerCounts| w.sip),
        r.rtp == count_sum(workers@, |w: WorkerCounts| w.rtp),
        r.total == count_sum(workers@, |w: WorkerCounts| w.total),
{
    let mut sum = WorkerCounts { sip: 0, rtp: 0, total: 0 };
    let ghost sip = |w: WorkerCounts| w.sip;
    let ghost rtp = |w: WorkerCounts| w.rtp;
    let ghost total = |w: WorkerCounts| w.total;
    let mut i: usize = 0;
    while i < workers.len()
        invariant
            i <= workers.len(),
            sip == (|w: WorkerCounts| w.sip),
            rtp == (|w: WorkerCounts| w.rtp),
            total == (|w: WorkerCounts| w.total),
            count_sum(workers@, sip) <= u64::MAX,
            count_sum(workers@, rtp) <= u64::MAX,
            count_sum(workers@, total) <= u64::MAX,
            sum.sip == count_sum(workers@.take(i as int), sip),
            sum.rtp == count_sum(workers@.take(i as int), rtp),
            sum.total == count_sum(workers@.take(i as int), total),
        decreases workers.len() - i,
    {
        proof {
            count_sum_grows(workers@, sip, i + 1);
            count_sum_grows(workers@, rtp, i + 1);
            count_sum_grows(workers@, total, i + 1);
            assert(workers@.take(i + 1).drop_last() =~= workers@.take(i as int));
        }
        if let Some(w) = workers[i] {
            sum.sip += w.sip;
            sum.rtp += w.rtp;
            sum.total += w.total;
        }
        i += 1;
    }
    assert(workers@.take(i as int) =~= workers@);
    sum
}

/// When the merged dialogs are swept for idle ones: at the newest capture time,
/// or not at all where the run read no packet.
pub fn final_sweep(clock: &SweepClock) -> (r: Option<Timestamp>)
    ensures
        r == clock.latest,
{
    clock.latest
}

/// The line that says what the sweep dropped, where it dropped anything.
pub fn compaction_notice(messages_evicted: u64, dialogs_compacted: u64) -> (r: Option<String>)
    ensures
        r is Some <==> messages_evicted > 0,
        r matches Some(text) ==> text@ == "idle-dialog compaction: dropped "@ + decimal_text(
            messages_evicted as nat,
        ) + " messages from "@ + decimal_text(dialogs_compacted as nat) + " dialogs"@,
{
    if messages_evicted == 0 {
        return None;
    }
    let mut text = String::from_str("idle-dialog compaction: dropped ");
    text.append(decimal(messages_evicted).as_str());
    text.append(" messages from ");
    text.append(decimal(dialogs_compacted).as_str());
    text.append(" dialogs");
    Some(text)
}

/// The warning that packets were lost to a dead worker, where any were.
pub fn lost_packets_notice(dropped: u64) -> (r: Option<String>)
    ensures
        r is Some <==> dropped > 0,
        r matches Some(text) ==> text@ == "parallel reconstruction lost "@ + decimal_text(
            dropped as nat,
        )
            + " packet(s): a worker thread died mid-run (its shard channel closed); results are incomplete"@,
{
    if dropped == 0 {
        return None;
    }
    let mut text = String::from_str("parallel reconstruction lost ");
    text.append(decimal(dropped).as_str());
    text.append(
        " packet(s): a worker thread died mid-run (its shard channel closed); results are incomplete",
    );
    Some(text)
}

} // verus!
