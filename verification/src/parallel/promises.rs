//! What reading a capture with many workers is for.
//!
//! Each law speaks of what a call is given and what it gives back: where a
//! packet goes, what is counted of it, in which order files are released, how
//! far readers may run ahead, and what a run says at its end.
use crate::channel::{Fate, Outbox};
use crate::net::IpAddr;
use crate::packet::{frame_digest, stamp_digest, FrameOrigin, Packet, SweepClock, Timestamp};
use crate::parallel::dispatch::{
    charge_of, lost_weight, next_file_of_reader, plan_read, queue_depth, read_ahead_charge,
    shard_send, worker_count, DirectSink, DispatchAction, Dispatcher, FileOutcome, ReadPlan,
    ReadTally, ReaderMsg, SetRun, Settled, ShardSink,
};
use crate::parallel::reader::{leftovers, FileRead, ReadProgress, ShardBatch, ShardReader};
use crate::parallel::runway::{next_unfinished_is, Admission, Runway, DISPATCH_RESERVE_BYTES};
use crate::parallel::shard::shard_for;
use crate::parallel::{
    compaction_notice, count_sum, final_sweep, lost_packets_notice, merge_counts,
    shard_fallback_summary, ReconResult, WorkerCounts,
};
use crate::percent::{half_is_exactly_half, share};
use crate::text::decimal_text;
use std::collections::hash_map::DefaultHasher;
use vstd::prelude::*;
use vstd::std_specs::hash::*;
use vstd::string::*;

verus! {

/// The worker of a packet comes of its two addresses, whichever way it went:
/// the hash of the lower one's octets and then the higher one's picks it. With
/// one worker there is nothing to pick.
pub proof fn a_flow_has_one_worker(a: IpAddr, b: IpAddr, jobs: usize, r: usize, back: usize)
    requires
        call_ensures(shard_for, (a, b, jobs), r),
        call_ensures(shard_for, (b, a, jobs), back),
    ensures
        r == back,
        jobs <= 1 ==> r == 0,
        jobs > 1 ==> r < jobs,
        jobs > 1 ==> match (a, b) {
            (IpAddr::V4(x), IpAddr::V4(y)) => x <= y ==> r == DefaultHasher::spec_finish(
                seq![a.octets(), b.octets()],
            ) as int % jobs as int,
            (IpAddr::V6(x), IpAddr::V6(y)) => x <= y ==> r == DefaultHasher::spec_finish(
                seq![a.octets(), b.octets()],
            ) as int % jobs as int,
            (IpAddr::V4(x), IpAddr::V6(y)) => r == DefaultHasher::spec_finish(
                seq![a.octets(), b.octets()],
            ) as int % jobs as int,
            (IpAddr::V6(x), IpAddr::V4(y)) => r == DefaultHasher::spec_finish(
                seq![b.octets(), a.octets()],
            ) as int % jobs as int,
        },
{
}

/// A frame is stamped with its place in the file and goes to its worker's batch
/// behind those before it: by its addresses, or to the first worker where they
/// could not be read, which is counted. A batch is handed on once it holds a
/// hundred and twenty-eight packets; no other batch is touched.
pub proof fn a_frame_goes_to_its_workers_batch(
    reader: &mut ShardReader,
    packet: Packet,
    hosts: Option<(IpAddr, IpAddr)>,
    r: Option<ShardBatch>,
    worker: usize,
    shards: usize,
)
    requires
        call_ensures(ShardReader::accept, (reader, packet, hosts), r),
        old(reader)@.valid(),
        shards == old(reader)@.batches.len(),
        hosts matches Some((a, b)) ==> call_ensures(shard_for, (a, b, shards), worker),
        hosts is None ==> worker == 0,
    ensures
        ({
            let was = old(reader)@;
            let ends = final(reader)@;
            let put = Packet {
                origin: Some(FrameOrigin { ordinal: was.count as u64, digest: None }),
                ..packet
            };
            let grown = was.batches[worker as int].push(put);
            &&& ends.count == was.count + 1
            &&& ends.unshardable == was.unshardable + if hosts is None {
                1int
            } else {
                0int
            }
            &&& ends.batches.len() == was.batches.len()
            &&& grown.len() >= 128 ==> (r matches Some(b) && b.shard == worker && b.packets@
                == grown) && ends.batches[worker as int].len() == 0
            &&& grown.len() < 128 ==> r is None && ends.batches[worker as int] == grown
            &&& forall|s: int|
                0 <= s < was.batches.len() && s != worker ==> #[trigger] ends.batches[s]
                    == was.batches[s]
            &&& match was.latest {
                None => ends.latest == Some(packet.timestamp),
                Some(t) => ends.latest matches Some(n) && n.nanos >= t.nanos && n.nanos
                    >= packet.timestamp.nanos && (n == t || n == packet.timestamp),
            }
        }),
{
}

/// A reader wants frames until its budget is reached, and then says that it
/// was; without a budget it always does.
pub proof fn a_budget_ends_a_read(reader: &mut ShardReader, r: bool)
    requires
        call_ensures(ShardReader::wants_frame, (reader,), r),
    ensures
        old(reader).budget() is None ==> r,
        old(reader).budget() matches Some(max) ==> (r <==> old(reader)@.count < max),
        !r ==> final(reader).budget_spent(),
        r ==> final(reader).budget_spent() == old(reader).budget_spent(),
        final(reader)@ == old(reader)@,
{
}

/// Whether a list of batches names no worker twice.
proof fn leftovers_rise(batches: Seq<Seq<Packet>>, from: nat)
    ensures
        forall|i: int|
            0 <= i < leftovers(batches, from).len() ==> from <= (#[trigger] leftovers(
                batches,
                from,
            )[i]).0 < batches.len() && leftovers(batches, from)[i].1 == batches[leftovers(
                batches,
                from,
            )[i].0 as int] && leftovers(batches, from)[i].1.len() > 0,
        forall|s: nat|
            from <= s < batches.len() && (#[trigger] batches[s as int]).len() > 0 ==> exists|i: int|
                0 <= i < leftovers(batches, from).len() && #[trigger] leftovers(batches, from)[i]
                    == (s, batches[s as int]),
    decreases batches.len() - from,
{
    let all = leftovers(batches, from);
    if from < batches.len() {
        let rest = leftovers(batches, from + 1);
        leftovers_rise(batches, from + 1);
        if batches[from as int].len() > 0 {
            assert forall|i: int| 0 <= i < all.len() implies from <= (#[trigger] all[i]).0
                < batches.len() && all[i].1 == batches[all[i].0 as int] && all[i].1.len() > 0 by {
                if i > 0 {
                    assert(all[i] == rest[i - 1]);
                }
            }
            assert forall|s: nat|
                from <= s < batches.len() && (
                #[trigger] batches[s as int]).len() > 0 implies exists|i: int|
                0 <= i < all.len() && #[trigger] all[i] == (s, batches[s as int]) by {
                if s == from {
                    assert(all[0] == (s, batches[s as int]));
                } else {
                    let i = choose|i: int|
                        0 <= i < rest.len() && #[trigger] rest[i] == (s, batches[s as int]);
                    assert(all[i + 1] == rest[i]);
                }
            }
        } else {
            assert forall|s: nat|
                from <= s < batches.len() && (
                #[trigger] batches[s as int]).len() > 0 implies exists|i: int|
                0 <= i < all.len() && #[trigger] all[i] == (s, batches[s as int]) by {
                assert(s != from);
            }
        }
    }
}

/// The end of a file hands on every batch that is left, each to its worker, and
/// reports what was read and why it ended.
pub proof fn the_end_of_a_file_hands_on_what_is_left(
    reader: ShardReader,
    r: (FileRead, Vec<ShardBatch>),
    s: nat,
)
    requires
        call_ensures(ShardReader::finish, (reader,), r),
    ensures
        r.0.count == reader@.count,
        r.0.unshardable == reader@.unshardable,
        r.0.latest == reader@.latest,
        r.0.stopped == reader.stopped(),
        r.0.budget_spent == reader.budget_spent(),
        s < reader@.batches.len() && reader@.batches[s as int].len() > 0 ==> exists|i: int|
            0 <= i < r.1@.len() && (#[trigger] r.1@[i]).shard == s && r.1@[i].packets@
                == reader@.batches[s as int],
        forall|i: int|
            0 <= i < r.1@.len() ==> (#[trigger] r.1@[i]).shard < reader@.batches.len()
                && r.1@[i].packets@ == reader@.batches[r.1@[i].shard as int],
{
    let v = r.1@.map_values(|b: ShardBatch| b@);
    leftovers_rise(reader@.batches, 0);
    assert(v.len() == r.1@.len());
    if s < reader@.batches.len() && reader@.batches[s as int].len() > 0 {
        assert(reader@.batches[s as int].len() > 0);
        let i = choose|i: int|
            0 <= i < v.len() && #[trigger] v[i] == (s, reader@.batches[s as int]);
        assert(v[i] == r.1@[i]@);
    }
    assert forall|i: int| 0 <= i < r.1@.len() implies (#[trigger] r.1@[i]).shard
        < reader@.batches.len() && r.1@[i].packets@ == reader@.batches[r.1@[i].shard as int] by {
        assert(v[i] == r.1@[i]@);
    }
}

/// A file's read is added to the run's totals, which never lose a packet, and
/// the newest capture time stands.
pub proof fn a_files_read_is_added_up(p: &mut ReadProgress, read: FileRead, r: Option<String>)
    requires
        call_ensures(ReadProgress::absorb, (p, read), r),
        old(p).count + read.count <= u64::MAX,
        old(p).unshardable + read.unshardable <= u64::MAX,
    ensures
        final(p).count == old(p).count + read.count,
        final(p).unshardable == old(p).unshardable + read.unshardable,
        final(p).dropped == old(p).dropped,
        r == read.stopped,
        read.latest is None ==> final(p).clock == old(p).clock,
        read.latest matches Some(t) ==> (final(p).clock.latest matches Some(n) && n.nanos >= t.nanos
            && (old(p).clock.latest matches Some(o) ==> n.nanos >= o.nanos && (n == t || n == o))
            && (old(p).clock.latest is None ==> n == t)),
{
}

/// A packet that a capture delivers is counted and goes to the worker of its
/// addresses, or to the first one where they could not be read.
pub proof fn a_delivered_packet_goes_to_its_worker(
    p: &mut ReadProgress,
    t: Timestamp,
    hosts: Option<(IpAddr, IpAddr)>,
    workers: usize,
    r: usize,
    worker: usize,
)
    requires
        call_ensures(ReadProgress::route, (p, t, hosts, workers), r),
        hosts matches Some((a, b)) ==> call_ensures(shard_for, (a, b, workers), worker),
        old(p).count < u64::MAX,
        old(p).unshardable < u64::MAX,
    ensures
        hosts is None ==> r == 0,
        hosts is Some ==> r == worker,
        final(p).count == old(p).count + 1,
        final(p).unshardable == old(p).unshardable + if hosts is None {
            1int
        } else {
            0int
        },
        final(p).dropped == old(p).dropped,
        final(p).clock.latest matches Some(n) && n.nanos >= t.nanos && (
        old(p).clock.latest matches Some(o) ==> n.nanos >= o.nanos && (n == o || n == t)) && (old(
            p).clock.latest is None ==> n == t),
{
}

/// The clock keeps the newest time it was shown, and the sweep runs at it, or
/// not at all where nothing was read.
pub proof fn the_clock_keeps_the_newest_time(
    c: &mut SweepClock,
    t: Timestamp,
    after: &SweepClock,
    sweep: Option<Timestamp>,
    new: &SweepClock,
    none: Option<Timestamp>,
)
    requires
        call_ensures(SweepClock::observe, (c, t), ()),
        *after == *final(c),
        call_ensures(final_sweep, (after,), sweep),
        call_ensures(SweepClock::new, (), *new),
        call_ensures(final_sweep, (new,), none),
    ensures
        none is None,
        sweep matches Some(n) && n.nanos >= t.nanos && (old(c).latest matches Some(o) ==> n.nanos
            >= o.nanos && (n == o || n == t)) && (old(c).latest is None ==> n == t),
{
}

/// A file settles a set by what became of it: the first file that cannot be
/// opened, and a filter that does not compile in any, refuse the set; a later
/// file that cannot be opened is skipped; a read that stopped is kept and the
/// set goes on; a spent budget ends it.
pub proof fn a_file_settles_the_set(run: &mut SetRun, outcome: FileOutcome, r: Settled)
    requires
        call_ensures(SetRun::settle, (run, outcome), r),
        old(run)@.valid(),
        !old(run)@.ended,
        old(run)@.settled < old(run)@.tally.given,
    ensures
        ({
            let was = old(run)@.tally;
            let ends = final(run)@.tally;
            let first = old(run)@.settled == 0;
            &&& final(run)@.settled == old(run)@.settled + 1
            &&& ends.given == was.given
            &&& final(run)@.ended <==> r is Refused || r is BudgetSpent
            &&& outcome matches FileOutcome::OpenFailed(e) ==> {
                &&& first ==> r == Settled::Refused(e) && ends == was
                &&& !first ==> r == Settled::Skipped(e) && ends.skipped == was.skipped + 1
                    && ends.complete == was.complete && ends.stopped_early == was.stopped_early
                    && ends.lost
                &&& final(run)@.progress == old(run)@.progress
            }
            &&& outcome matches FileOutcome::FilterFailed(e) ==> r == Settled::Refused(e)
                && ends.skipped == was.skipped + 1 && ends.lost && final(run)@.progress == old(
                run)@.progress
            &&& outcome matches FileOutcome::Read(read) ==> {
                &&& read.stopped matches Some(e) ==> r == Settled::StoppedEarly(e)
                    && ends.stopped_early == was.stopped_early + 1 && ends.complete == was.complete
                    && ends.lost
                &&& read.stopped is None && read.budget_spent ==> r is BudgetSpent
                    && ends.stopped_early == was.stopped_early + 1 && ends.complete == was.complete
                    && ends.lost == was.lost
                &&& read.stopped is None && !read.budget_spent ==> r is Complete && ends.complete
                    == was.complete + 1 && ends.stopped_early == was.stopped_early && ends.lost
                    == was.lost
                &&& ends.skipped == was.skipped
                &&& old(run)@.progress.count + read.count <= u64::MAX ==> final(
                    run)@.progress.count == old(run)@.progress.count + read.count
                &&& old(run)@.progress.unshardable + read.unshardable <= u64::MAX ==> final(
                    run)@.progress.unshardable == old(run)@.progress.unshardable
                    + read.unshardable
            }
        }),
{
}

/// The files of a set are read in their order, each once, until it is over; a
/// budget leaves to each what those before it did not read.
pub proof fn files_are_read_in_order_within_the_limit(
    run: &SetRun,
    next: Option<usize>,
    limit: Option<u64>,
    left: Option<u64>,
)
    requires
        call_ensures(SetRun::next_file, (run,), next),
        call_ensures(SetRun::budget, (run, limit), left),
    ensures
        next matches Some(file) ==> file == run@.settled && file < run@.tally.given && !run@.ended,
        next is None ==> run@.ended || run@.settled >= run@.tally.given,
        limit is None ==> left is None,
        limit matches Some(max) ==> (left matches Some(n) && if run@.progress.count <= max {
            n + run@.progress.count == max
        } else {
            n == 0
        }),
{
}

/// What a dead worker did not take is lost, and counted as such; what a worker
/// took is not.
pub proof fn what_no_worker_took_is_lost<T>(
    out: &mut Outbox<T>,
    item: T,
    weight: u64,
    r: u64,
    taken: bool,
    n: u64,
)
    requires
        call_ensures(shard_send::<T>, (out, item, weight), r),
        call_ensures(lost_weight, (taken, weight), n),
    ensures
        final(out).log().len() == old(out).log().len() + 1,
        final(out).log().last().0 == item,
        final(out).log().last().1 is Taken ==> r == 0,
        !(final(out).log().last().1 is Taken) ==> r == weight,
        n == if taken {
            0
        } else {
            weight
        },
{
    let old_log = old(out).log();
    assert(old_log.push((item, Fate::Taken)).last() == (item, Fate::Taken));
    assert(old_log.push((item, Fate::Closed)).last() == (item, Fate::Closed));
}

/// A batch is sent to its own worker and to no other, whole; a dead worker does
/// not stop the read, and what it did not take is counted packet by packet.
pub proof fn a_batch_is_sent_to_its_own_worker(sink: &mut DirectSink, batch: ShardBatch, r: bool, s: int)
    requires
        call_ensures(<DirectSink as ShardSink>::emit, (sink, batch), r),
        batch.shard < old(sink).txs@.len(),
        0 <= s < old(sink).txs@.len(),
        batch.packets@.len() <= u64::MAX,
        old(sink).dropped + batch.packets@.len() <= u64::MAX,
    ensures
        r,
        final(sink).txs@.len() == old(sink).txs@.len(),
        s != batch.shard ==> final(sink).txs@[s].log() == old(sink).txs@[s].log(),
        s == batch.shard ==> {
            let was = old(sink).txs@[s].log();
            let ends = final(sink).txs@[s].log();
            &&& ends.len() == was.len() + 1
            &&& ends.last().0 == batch.packets
            &&& ends.last().1 is Taken ==> final(sink).dropped == old(sink).dropped
            &&& !(ends.last().1 is Taken) ==> final(sink).dropped == old(sink).dropped
                + batch.packets@.len()
        },
{
    let w = old(sink).txs@[batch.shard as int].log();
    assert(w.push((batch.packets, Fate::Taken)).last() == (batch.packets, Fate::Taken));
    assert(w.push((batch.packets, Fate::Closed)).last() == (batch.packets, Fate::Closed));
}

/// The dispatcher listens to the reader of the file that is next in order, and
/// forwards each batch as it is; it announces a file once, before its first
/// batch or its end; a reader that vanished refuses the set.
pub proof fn the_dispatcher_forwards_the_next_file(
    d: &mut Dispatcher,
    before: &Dispatcher,
    msg: Option<ReaderMsg>,
    path: &str,
    r: DispatchAction,
    to: Option<(usize, usize)>,
)
    requires
        call_ensures(Dispatcher::on_message, (d, msg, path), r),
        *before == *old(d),
        call_ensures(Dispatcher::listens_to, (before,), to),
    ensures
        to matches Some((file, queue)) ==> file == before.set().settled && queue as int
            == before.set().settled as int % before.queues() as int,
        msg is None ==> r is ReaderVanished && r->ReaderVanished_0@ == "the reader thread for '"@
            + path@ + "' stopped without reporting"@ && final(d).set() == old(d).set(),
        msg matches Some(ReaderMsg::Batch { charge, batch }) ==> {
            &&& r matches DispatchAction::Forward { announce, charge: c, batch: b } && c == charge
                && b == batch && announce == !old(d).announced()
            &&& final(d).announced()
            &&& final(d).set() == old(d).set()
        },
        msg matches Some(ReaderMsg::Done(outcome)) ==> {
            &&& r matches DispatchAction::FileDone { announce, settled } && announce == (
            outcome is Read && !old(d).announced())
            &&& !final(d).announced()
            &&& final(d).set().settled == old(d).set().settled + 1
        },
{
}

/// A run has as many workers as were asked for, and at least two; a set has one
/// reader for each file up to that many, side by side where there are several
/// and no limit, and a set without files is refused.
pub proof fn a_set_is_read_by_enough(
    files: usize,
    cores: usize,
    limit: Option<u64>,
    r: Result<ReadPlan, String>,
    n: usize,
)
    requires
        call_ensures(plan_read, (files, cores, limit), r),
        call_ensures(worker_count, (cores,), n),
    ensures
        n >= 2,
        cores >= 2 ==> n == cores,
        cores < 2 ==> n == 2,
        files == 0 <==> r is Err,
        r matches Ok(p) ==> {
            &&& p.workers == n
            &&& p.readers <= files && p.readers <= n
            &&& p.readers == files || p.readers == n
            &&& p.parallel <==> files > 1 && limit is None
        },
{
}

/// The readers share the files out in turn, so that each file has one reader.
pub proof fn readers_take_files_in_turn(file: usize, readers: usize, files: usize, r: Option<usize>)
    requires
        call_ensures(next_file_of_reader, (file, readers, files), r),
    ensures
        r matches Some(next) ==> next - file == readers && next < files,
        r is None ==> file + readers >= files,
{
}

/// The file that is being released draws on the reserve, and every file before
/// it; the next file after it that has not been read to its end, and no other,
/// draws on the runway. A pool that is untouched admits any batch; one that is
/// not admits what it has room for. Once the run is over nothing is admitted.
pub proof fn one_file_ahead_may_spend_the_runway(
    l: &mut Runway,
    file: usize,
    charge: usize,
    r: Admission,
)
    requires
        call_ensures(Runway::acquire, (l, file, charge), r),
        old(l)@.valid(),
        file < old(l)@.held.len(),
    ensures
        ({
            let was = old(l)@;
            let ends = final(l)@;
            let next = file > was.current && !was.finished[file as int] && forall|k: int|
                was.current < k < file ==> #[trigger] was.finished[k];
            &&& r == Admission::Canceled <==> was.canceled
            &&& !was.canceled && file <= was.current ==> {
                &&& r == Admission::Admitted <==> charge <= was.reserve || was.reserve
                    == DISPATCH_RESERVE_BYTES
                &&& r == Admission::Admitted ==> ends.free == was.free && ends.held == was.held
                    && ends.reserve == if charge <= was.reserve {
                    was.reserve - charge
                } else {
                    0
                }
            }
            &&& !was.canceled && file > was.current ==> {
                &&& r == Admission::Admitted <==> next && (charge <= was.free
                    || was.held[file as int] == 0)
                &&& r == Admission::Admitted ==> {
                    let taken = if charge <= was.free {
                        charge as int
                    } else {
                        was.free as int
                    };
                    &&& ends.reserve == was.reserve
                    &&& ends.free == was.free - taken
                    &&& ends.held[file as int] == was.held[file as int] + taken
                    &&& forall|k: int|
                        0 <= k < was.held.len() && k != file ==> #[trigger] ends.held[k]
                            == was.held[k]
                }
            }
            &&& r != Admission::Admitted ==> ends == was
            &&& ends.current == was.current && ends.finished == was.finished
        }),
{
    let was = old(l)@;
    next_unfinished_is(was.finished, was.current + 1);
    let c = was.claimant();
    if file > was.current {
        if c == file {
            assert forall|k: int| was.current < k < file implies #[trigger] was.finished[k] by {}
        }
        if !was.finished[file as int] && (forall|k: int|
            was.current < k < file ==> #[trigger] was.finished[k]) {
            assert(c == file) by {
                if c < file {
                    assert(was.finished[c as int]);
                }
                if c > file {
                    assert(was.finished[file as int]);
                }
            }
        }
        crate::parallel::runway::sum_update(was.held, file as int, was.held[file as int]);
    }
}

/// A forwarded batch gives its bytes back to the reserve, and never more than
/// makes it whole.
pub proof fn a_forwarded_batch_refills_the_reserve(l: &mut Runway, charge: usize)
    requires
        call_ensures(Runway::release, (l, charge), ()),
        old(l)@.valid(),
    ensures
        final(l)@.free == old(l)@.free,
        final(l)@.held == old(l)@.held,
        old(l)@.reserve + charge <= DISPATCH_RESERVE_BYTES ==> final(l)@.reserve == old(l)@.reserve
            + charge,
        old(l)@.reserve + charge > DISPATCH_RESERVE_BYTES ==> final(l)@.reserve
            == DISPATCH_RESERVE_BYTES,
{
}

/// Reaching a file gives back to the runway all that its reader held of it;
/// finishing one passes the claim on; ending the run stops every reader.
pub proof fn reaching_a_file_gives_its_runway_back(l: &mut Runway, file: usize, k: int)
    requires
        call_ensures(Runway::advance, (l, file), ()),
        old(l)@.valid(),
        file < old(l)@.held.len(),
    ensures
        final(l)@.current == file,
        final(l)@.held[file as int] == 0,
        final(l)@.free == old(l)@.free + old(l)@.held[file as int],
        0 <= k < old(l)@.held.len() && k != file ==> final(l)@.held[k] == old(l)@.held[k],
        final(l)@.reserve == old(l)@.reserve,
        final(l)@.finished == old(l)@.finished,
        final(l)@.canceled == old(l)@.canceled,
{
}

/// A file that was read to its end is marked so, and no other; and a run that
/// was ended stays ended.
pub proof fn a_finished_file_is_marked(l: &mut Runway, file: usize, k: int, m: &mut Runway)
    requires
        call_ensures(Runway::retire, (l, file), ()),
        call_ensures(Runway::cancel, (m,), ()),
        file < old(l)@.finished.len(),
        0 <= k < old(l)@.finished.len(),
    ensures
        final(l)@.finished[k] == (k == file || old(l)@.finished[k]),
        final(l)@.free == old(l)@.free && final(l)@.held == old(l)@.held && final(l)@.reserve
            == old(l)@.reserve && final(l)@.current == old(l)@.current,
        final(m)@.canceled,
        final(m)@.free == old(m)@.free && final(m)@.held == old(m)@.held,
{
}

/// The first workers' counts and then the others' add up to those of all.
proof fn counts_concat(
    a: Seq<Option<WorkerCounts>>,
    b: Seq<Option<WorkerCounts>>,
    field: spec_fn(WorkerCounts) -> u64,
)
    ensures
        count_sum(a + b, field) == count_sum(a, field) + count_sum(b, field),
    decreases b.len(),
{
    if b.len() == 0 {
        assert(a + b =~= a);
    } else {
        assert((a + b).drop_last() =~= a + b.drop_last());
        counts_concat(a, b.drop_last(), field);
    }
}

/// Merging adds up: what two groups of workers counted is what the first and
/// the second counted together; one worker counts what it counted, and one that
/// died nothing.
pub proof fn merging_adds_up(
    all: &[Option<WorkerCounts>],
    a: &[Option<WorkerCounts>],
    b: &[Option<WorkerCounts>],
    r: WorkerCounts,
    x: WorkerCounts,
    y: WorkerCounts,
)
    requires
        call_ensures(merge_counts, (all,), r),
        call_ensures(merge_counts, (a,), x),
        call_ensures(merge_counts, (b,), y),
        all@ == a@ + b@,
    ensures
        r.sip == x.sip + y.sip,
        r.rtp == x.rtp + y.rtp,
        r.total == x.total + y.total,
        a@.len() == 1 && a@[0] is Some ==> x == a@[0]->0,
        a@.len() == 1 && a@[0] is None ==> x.sip == 0 && x.rtp == 0 && x.total == 0,
        a@.len() == 0 ==> x.sip == 0 && x.rtp == 0 && x.total == 0,
{
    let sip = |w: WorkerCounts| w.sip;
    let rtp = |w: WorkerCounts| w.rtp;
    let total = |w: WorkerCounts| w.total;
    counts_concat(a@, b@, sip);
    counts_concat(a@, b@, rtp);
    counts_concat(a@, b@, total);
    if a@.len() == 1 {
        assert(a@.drop_last() =~= seq![]);
        reveal_with_fuel(count_sum, 2);
    }
}

/// A run says what its fallback cost, what its sweep dropped and what it lost
/// exactly where there is something to say.
pub proof fn a_run_speaks_where_there_is_something_to_say(
    unshardable: u64,
    read: u64,
    workers: usize,
    notice: Option<String>,
    evicted: u64,
    compacted: u64,
    swept: Option<String>,
    dropped: u64,
    lost: Option<String>,
)
    requires
        call_ensures(shard_fallback_summary, (unshardable, read, workers), notice),
        call_ensures(compaction_notice, (evicted, compacted), swept),
        call_ensures(lost_packets_notice, (dropped,), lost),
    ensures
        notice is Some <==> workers >= 2 && unshardable >= 1,
        swept is Some <==> evicted >= 1,
        lost is Some <==> dropped >= 1,
{
}

/// A frame's digest is that of the frame without its last byte, mixed with that
/// byte and multiplied; a frame without bytes has the fixed first value. So the
/// digest comes of the bytes alone.
pub proof fn a_digest_mixes_in_each_byte(
    frame: &[u8],
    front: &[u8],
    last: u8,
    h: u64,
    f: u64,
)
    requires
        call_ensures(frame_digest, (frame,), h),
        call_ensures(frame_digest, (front,), f),
        frame@ == front@.push(last),
    ensures
        h == (f ^ last as u64).wrapping_mul(0x100_0000_01b3u64),
        front@.len() == 0 ==> f == 0xcbf2_9ce4_8422_2325u64,
{
    assert(frame@.drop_last() =~= front@);
}

/// A worker fills in the digest that the reader left out, from the packet's own
/// bytes, and changes nothing else; a packet that came from no file gets none.
pub proof fn a_missing_digest_is_filled_in(packet: &mut Packet, data: &[u8], h: u64)
    requires
        call_ensures(stamp_digest, (packet,), ()),
        data@ == old(packet).data@,
        call_ensures(frame_digest, (data,), h),
    ensures
        final(packet).data == old(packet).data,
        final(packet).timestamp == old(packet).timestamp,
        old(packet).origin is None ==> final(packet).origin is None,
        old(packet).origin matches Some(o) ==> (final(packet).origin matches Some(n) && n.ordinal
            == o.ordinal && n.digest == Some(
            if o.digest is Some {
                o.digest->0
            } else {
                h
            },
        )),
{
}

/// A batch costs its frames' bytes and the packets that carry them: a run of
/// packets that is put together of two costs what the two cost.
pub proof fn a_batch_costs_what_its_parts_cost(
    a: &[Packet],
    b: &[Packet],
    both: &[Packet],
    x: usize,
    y: usize,
    z: usize,
)
    requires
        both@ == a@ + b@,
        charge_of(both@) <= usize::MAX,
        call_ensures(read_ahead_charge, (a,), x),
        call_ensures(read_ahead_charge, (b,), y),
        call_ensures(read_ahead_charge, (both,), z),
    ensures
        z == x + y,
        a@.len() == 0 ==> x == 0,
        a@.len() == 1 ==> x == a@[0].data@.len() + vstd::layout::size_of::<Packet>(),
{
    charges_add_up(a@, b@);
    if a@.len() == 1 {
        assert(a@.drop_last() =~= seq![]);
        assert(charge_of(a@.drop_last()) == 0);
    }
}

/// What two runs of packets cost together.
proof fn charges_add_up(a: Seq<Packet>, b: Seq<Packet>)
    ensures
        charge_of(a + b) == charge_of(a) + charge_of(b),
    decreases b.len(),
{
    if b.len() == 0 {
        assert(a + b =~= a);
    } else {
        assert((a + b).drop_last() =~= a + b.drop_last());
        charges_add_up(a, b.drop_last());
    }
}

/// A run that has settled its files says what its summary says, and a reader's
/// queue is deep enough for both pools in batches of the least charge.
pub proof fn a_run_gives_its_notice<D, S>(
    run: &ReconResult<D, S>,
    notice: Option<String>,
    summary: Option<String>,
    packet_bytes: usize,
    depth: usize,
)
    requires
        call_ensures(ReconResult::<D, S>::shard_fallback_notice, (run,), notice),
        call_ensures(
            shard_fallback_summary,
            (run.unshardable_count, run.packets_read, run.workers),
            summary,
        ),
        0 < packet_bytes <= 50_331_648,
        call_ensures(queue_depth, (packet_bytes,), depth),
    ensures
        notice is Some <==> summary is Some,
        notice is Some ==> notice->0@ == summary->0@,
        (depth - 7) * (128 * packet_bytes) > 58_720_256,
        (depth - 8) * (128 * packet_bytes) <= 58_720_256,
{
    let whole = 58_720_256int;
    let each = 128 * packet_bytes as int;
    assert(each > 0) by (nonlinear_arith)
        requires
            each == 128 * packet_bytes,
            packet_bytes > 0,
    ;
    vstd::arithmetic::div_mod::lemma_fundamental_div_mod(whole, each);
    let q = whole / each;
    assert((q + 1) * each == each * q + each) by (nonlinear_arith);
    assert(q * each == each * q) by (nonlinear_arith);
}

/// What a run says that could not spread its packets: how many of how many, the
/// share, and how many workers there were. Where every packet fell back it says
/// that the other workers idled, where half of them or more did that most of the
/// run was single-threaded, and else no more.
pub proof fn a_fallback_is_said_as_it_was(
    unshardable: u64,
    read: u64,
    workers: usize,
    r: Option<String>,
    share_said: (String, bool),
)
    requires
        call_ensures(shard_fallback_summary, (unshardable, read, workers), r),
        0 < unshardable < 0x4000_0000_0000,
        0 < read < 0x20_0000_0000_0000,
        workers > 1,
        call_ensures(share, (unshardable, read), share_said),
    ensures
        r matches Some(text) && text@ == "NOT SHARDED: "@ + decimal_text(unshardable as nat)
            + " of "@ + decimal_text(read as nat) + " packet(s)"@ + (" ("@ + share_said.0@ + "%)"@)
            + " carried no host pair the shard peek could read, so they were dispatched to worker 0 instead of being spread across the "@
            + decimal_text(workers as nat) + " workers."@ + (if unshardable >= read {
            " --cores BOUGHT NOTHING ON THIS CAPTURE — every packet ran on worker 0 while the other "@
                + decimal_text((workers - 1) as nat)
                + " worker(s) idled, so this run was single-threaded whatever --cores said. The peek cannot follow this capture's encapsulation; report its link type."@
        } else if 2 * unshardable >= read {
            " MOST OF THIS RUN WAS SINGLE-THREADED — the majority of the capture ran on worker 0, so --cores bought far less than the "@
                + decimal_text(workers as nat)
                + " workers suggest. The peek cannot follow part of this capture's encapsulation; report its link type."@
        } else {
            seq![]
        }),
{
    half_is_exactly_half(unshardable as nat, read as nat);
}

/// What a dead worker did not take is added to what is lost, and moves nothing
/// else that a set has counted.
pub proof fn what_is_lost_is_added_up(
    set: &mut SetRun,
    after: &SetRun,
    lost: u64,
    totals: (ReadProgress, ReadTally),
    before: &SetRun,
    was: (ReadProgress, ReadTally),
)
    requires
        call_ensures(SetRun::note_lost, (set, lost), ()),
        *after == *final(set),
        *before == *old(set),
        call_ensures(SetRun::totals, (after,), totals),
        call_ensures(SetRun::totals, (before,), was),
        was.0.dropped + lost <= u64::MAX,
    ensures
        totals.0.dropped == was.0.dropped + lost,
        totals.0.count == was.0.count,
        totals.0.unshardable == was.0.unshardable,
        totals.1 == was.1,
{
}

/// The dispatcher adds up what is lost in the same way, and goes on reading the
/// same queues.
pub proof fn a_dispatcher_adds_up_what_is_lost(
    d: &mut Dispatcher,
    after: &Dispatcher,
    lost: u64,
    totals: (ReadProgress, ReadTally),
    before: &Dispatcher,
    was: (ReadProgress, ReadTally),
)
    requires
        call_ensures(Dispatcher::note_lost, (d, lost), ()),
        *after == *final(d),
        *before == *old(d),
        call_ensures(Dispatcher::totals, (after,), totals),
        call_ensures(Dispatcher::totals, (before,), was),
        was.0.dropped + lost <= u64::MAX,
    ensures
        totals.0.dropped == was.0.dropped + lost,
        totals.0.count == was.0.count,
        totals.0.unshardable == was.0.unshardable,
        totals.1 == was.1,
        after.queues() == before.queues(),
{
}

/// A ledger tells what is free of its reserve, whether the run is over, and which
/// file may spend the runway: the first behind the dispatch point that is not
/// read to its end.
pub proof fn a_ledger_tells_who_may_spend(
    l: &Runway,
    free: usize,
    over: bool,
    file: usize,
)
    requires
        call_ensures(Runway::reserve_free, (l,), free),
        call_ensures(Runway::canceled, (l,), over),
        call_ensures(Runway::claimant, (l,), file),
        l@.valid(),
    ensures
        free == l@.reserve,
        over == l@.canceled,
        file > l@.current,
        file < l@.finished.len() ==> !l@.finished[file as int],
        forall|i: int| l@.current < i < file && i < l@.finished.len() ==> #[trigger] l@.finished[i],
{
    if l@.current < l@.finished.len() {
        next_unfinished_is(l@.finished, l@.current + 1);
    }
}

/// A set of files begins with none of them settled and nothing counted.
pub proof fn a_set_begins_with_nothing(
    files: usize,
    queues: usize,
    set: SetRun,
    d: Dispatcher,
    a: (ReadProgress, ReadTally),
    b: (ReadProgress, ReadTally),
)
    requires
        queues > 0,
        call_ensures(SetRun::new, (files,), set),
        call_ensures(Dispatcher::new, (files, queues), d),
        call_ensures(SetRun::totals, (&set,), a),
        call_ensures(Dispatcher::totals, (&d,), b),
    ensures
        set@.settled == 0 && d.set().settled == 0,
        !set@.ended && !d.set().ended,
        a.0.count == 0 && a.0.dropped == 0 && a.0.unshardable == 0,
        b.0.count == 0 && b.0.dropped == 0 && b.0.unshardable == 0,
        a.1.given == files && b.1.given == files,
        a.1.complete == 0 && a.1.stopped_early == 0 && a.1.skipped == 0 && !a.1.lost,
        b.1 == a.1,
        d.queues() == queues && !d.announced(),
{
}

/// A ledger begins at the first file with all that may be read ahead free, with
/// its reserve of eight mebibytes whole, and with nothing held or finished.
pub proof fn a_ledger_begins_with_everything_free(files: usize, budget: usize, l: Runway, i: int)
    requires
        files < usize::MAX,
        call_ensures(Runway::new, (files, budget), l),
    ensures
        l@.free == budget,
        l@.reserve == 8_388_608,
        l@.current == 0,
        !l@.canceled,
        l@.held.len() == files && l@.finished.len() == files,
        0 <= i < files ==> l@.held[i] == 0 && !l@.finished[i],
{
}

/// A read begins with nothing read, and the error that stops one is kept with
/// what was read before it.
pub proof fn a_stopped_read_keeps_what_it_read(
    none: FileRead,
    nothing: ReadProgress,
    reader: &mut ShardReader,
    error: String,
)
    requires
        call_ensures(ReadProgress::new, (), nothing),
        call_ensures(FileRead::empty, (), none),
        call_ensures(ShardReader::stop, (reader, error), ()),
    ensures
        none.count == 0 && none.unshardable == 0 && none.latest is None,
        !none.budget_spent && none.stopped is None,
        nothing.count == 0 && nothing.dropped == 0 && nothing.unshardable == 0,
        nothing.clock.latest is None,
        final(reader).stopped() == Some(error),
        final(reader)@.count == old(reader)@.count,
        final(reader)@.unshardable == old(reader)@.unshardable,
        final(reader)@.latest == old(reader)@.latest,
        final(reader).budget_spent() == old(reader).budget_spent(),
{
}

/// A dispatcher settles a file as a set that is read file by file does.
pub proof fn a_dispatcher_settles_as_a_set_does(
    d: &mut Dispatcher,
    run: &mut SetRun,
    outcome: FileOutcome,
    path: &str,
    r: DispatchAction,
    s: Settled,
)
    requires
        call_ensures(Dispatcher::on_message, (d, Some(ReaderMsg::Done(outcome)), path), r),
        call_ensures(SetRun::settle, (run, outcome), s),
        old(run)@ == old(d).set(),
    ensures
        r matches DispatchAction::FileDone { announce, settled } && settled == s,
        final(d).set() == final(run)@,
{
}

/// A reader begins with nothing read and an empty batch for each worker.
pub proof fn a_reader_begins_with_nothing(
    shards: usize,
    budget: Option<u64>,
    r: ShardReader,
    s: int,
)
    requires
        shards > 0,
        call_ensures(ShardReader::new, (shards, budget), r),
    ensures
        r@.count == 0 && r@.unshardable == 0 && r@.latest is None,
        r@.batches.len() == shards,
        0 <= s < shards ==> r@.batches[s].len() == 0,
        r.budget() == budget && !r.budget_spent() && r.stopped() is None,
{
}

} // verus!
