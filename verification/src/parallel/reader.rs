//! Reading one file: stamping each frame, choosing its worker, and filling one
//! batch per worker.
use crate::net::IpAddr;
use crate::packet::{later, FrameOrigin, Packet, SweepClock, Timestamp};
use crate::parallel::shard::{shard_for, shard_index};
use vstd::prelude::*;

verus! {

/// Packets per batch. One channel hop per batch instead of one per packet.
pub const BATCH: usize = 128;

/// What one file's read produced, reported as one value.
#[derive(Debug, Clone)]
pub struct FileRead {
    /// Packets read from this file.
    pub count: u64,
    /// Packets of this file whose host pair could not be read, which therefore
    /// went to worker 0.
    pub unshardable: u64,
    /// Newest capture time in this file, or `None` for an empty one.
    pub latest: Option<Timestamp>,
    /// Whether the read stopped because the packet budget ran out inside this
    /// file rather than at its end.
    pub budget_spent: bool,
    /// The error that stopped this file short of its end, if one did.
    pub stopped: Option<String>,
}

impl FileRead {
    /// A read that has produced nothing.
    pub fn empty() -> (r: Self)
        ensures
            r.count == 0,
            r.unshardable == 0,
            r.latest is None,
            !r.budget_spent,
            r.stopped is None,
    {
        FileRead { count: 0, unshardable: 0, latest: None, budget_spent: false, stopped: None }
    }
}

/// A frame as it was read, and the host pair seen in its headers.
pub ghost struct SeenFrame {
    /// The frame, not yet stamped.
    pub packet: Packet,
    /// Its two addresses, where they could be read.
    pub hosts: Option<(IpAddr, IpAddr)>,
}

/// The packet with its position in the file; the digest is left to the
/// workers.
pub open spec fn stamped(packet: Packet, ordinal: nat) -> Packet {
    Packet { origin: Some(FrameOrigin { ordinal: ordinal as u64, digest: None }), ..packet }
}

/// The worker a frame goes to: by its host pair, or worker 0 where there is
/// none to read.
pub open spec fn shard_of(hosts: Option<(IpAddr, IpAddr)>, shards: nat) -> nat {
    match hosts {
        Some((a, b)) => shard_index(a, b, shards),
        None => 0,
    }
}

/// What a reader has taken in of its file.
pub ghost struct ReaderState {
    /// Packets taken in.
    pub count: nat,
    /// Of those, the ones without a readable host pair.
    pub unshardable: nat,
    /// Newest capture time.
    pub latest: Option<Timestamp>,
    /// Packets not yet handed on, per worker.
    pub batches: Seq<Seq<Packet>>,
}

impl ReaderState {
    /// A reader that has taken nothing in.
    pub open spec fn start(shards: nat) -> ReaderState {
        ReaderState {
            count: 0,
            unshardable: 0,
            latest: None,
            batches: Seq::new(shards, |i: int| Seq::<Packet>::empty()),
        }
    }

    /// A worker's batch with the next frame added.
    pub open spec fn grown(self, f: SeenFrame) -> Seq<Packet> {
        self.batches[shard_of(f.hosts, self.batches.len()) as int].push(
            stamped(f.packet, self.count),
        )
    }

    /// The batch the next frame completes, with the worker it is for.
    pub open spec fn emits(self, f: SeenFrame) -> Option<(nat, Seq<Packet>)> {
        if self.grown(f).len() >= BATCH {
            Some((shard_of(f.hosts, self.batches.len()), self.grown(f)))
        } else {
            None
        }
    }

    /// The reader after the next frame.
    pub open spec fn takes(self, f: SeenFrame) -> ReaderState {
        let s = shard_of(f.hosts, self.batches.len()) as int;
        ReaderState {
            count: self.count + 1,
            unshardable: if f.hosts is None {
                self.unshardable + 1
            } else {
                self.unshardable
            },
            latest: Some(later(self.latest, f.packet.timestamp)),
            batches: self.batches.update(
                s,
                if self.emits(f) is Some {
                    Seq::empty()
                } else {
                    self.grown(f)
                },
            ),
        }
    }

    /// The reader after a run of frames.
    pub open spec fn takes_all(self, frames: Seq<SeenFrame>) -> ReaderState
        decreases frames.len(),
    {
        if frames.len() == 0 {
            self
        } else {
            self.takes_all(frames.drop_last()).takes(frames.last())
        }
    }

    /// The batches completed while a run of frames was taken in, in order.
    pub open spec fn sent(self, frames: Seq<SeenFrame>) -> Seq<(nat, Seq<Packet>)>
        decreases frames.len(),
    {
        if frames.len() == 0 {
            Seq::empty()
        } else {
            let before = self.sent(frames.drop_last());
            match self.takes_all(frames.drop_last()).emits(frames.last()) {
                Some(batch) => before.push(batch),
                None => before,
            }
        }
    }

    /// Whether no batch is full, as none is between two frames.
    pub open spec fn valid(self) -> bool {
        &&& self.batches.len() > 0
        &&& self.unshardable <= self.count
        &&& forall|s: int| 0 <= s < self.batches.len() ==> (#[trigger] self.batches[s]).len()
            < BATCH
    }
}

/// The batches that are left at the end of a file, empty ones skipped, in the
/// order of their workers, from worker `from` on.
pub open spec fn leftovers(batches: Seq<Seq<Packet>>, from: nat) -> Seq<(nat, Seq<Packet>)>
    decreases batches.len() - from,
{
    if from >= batches.len() {
        seq![]
    } else if batches[from as int].len() == 0 {
        leftovers(batches, from + 1)
    } else {
        seq![(from, batches[from as int])] + leftovers(batches, from + 1)
    }
}

/// A batch on its way to a worker.
#[derive(Debug)]
pub struct ShardBatch {
    /// The worker it is for.
    pub shard: usize,
    /// Its packets, in capture order.
    pub packets: Vec<Packet>,
}

impl View for ShardBatch {
    type V = (nat, Seq<Packet>);

    open spec fn view(&self) -> (nat, Seq<Packet>) {
        (self.shard as nat, self.packets@)
    }
}

/// Reads one file: it is told each frame and says when a batch is complete.
///
/// The partial batches are this file's own, so a file can be read in a thread
/// of its own. The ordinal counts within this file and nothing else, which
/// makes a packet's pointer independent of how many threads did the reading.
#[derive(Debug)]
pub struct ShardReader {
    budget: Option<u64>,
    batches: Vec<Vec<Packet>>,
    read: FileRead,
}

/// The views of a list of batches.
pub open spec fn batch_views(batches: Seq<Vec<Packet>>) -> Seq<Seq<Packet>> {
    batches.map_values(|b: Vec<Packet>| b@)
}

impl View for ShardReader {
    type V = ReaderState;

    closed spec fn view(&self) -> ReaderState {
        ReaderState {
            count: self.read.count as nat,
            unshardable: self.read.unshardable as nat,
            latest: self.read.latest,
            batches: batch_views(self.batches@),
        }
    }
}

impl ShardReader {
    /// The packet budget this file is read under.
    pub closed spec fn budget(self) -> Option<u64> {
        self.budget
    }

    /// Whether the read has stopped because the budget ran out.
    pub closed spec fn budget_spent(self) -> bool {
        self.read.budget_spent
    }

    /// The error that stopped the read.
    pub closed spec fn stopped(self) -> Option<String> {
        self.read.stopped
    }

    /// A reader for `shards` workers that reads at most `budget` packets.
    pub fn new(shards: usize, budget: Option<u64>) -> (r: Self)
        requires
            shards > 0,
        ensures
            r@ == ReaderState::start(shards as nat),
            r@.valid(),
            r.budget() == budget,
            !r.budget_spent(),
            r.stopped() is None,
    {
        let mut batches: Vec<Vec<Packet>> = Vec::new();
        let mut i: usize = 0;
        while i < shards
            invariant
                i <= shards,
                batch_views(batches@) =~= Seq::new(i as nat, |i: int| Seq::<Packet>::empty()),
            decreases shards - i,
        {
            let ghost before = batch_views(batches@);
            batches.push(Vec::new());
            assert(batch_views(batches@) =~= before.push(Seq::<Packet>::empty()));
            i += 1;
        }
        ShardReader { budget, batches, read: FileRead::empty() }
    }

    /// Whether another frame is wanted. Where the budget is reached, the read
    /// is over and says so.
    pub fn wants_frame(&mut self) -> (r: bool)
        ensures
            r == !(old(self).budget() matches Some(max) && old(self)@.count >= max),
            final(self)@ == old(self)@,
            final(self).budget() == old(self).budget(),
            final(self).stopped() == old(self).stopped(),
            final(self).budget_spent() == (old(self).budget_spent() || !r),
    {
        if let Some(max) = self.budget {
            if self.read.count >= max {
                self.read.budget_spent = true;
                return false;
            }
        }
        true
    }

    /// Take in one frame and the host pair read from its headers, and hand
    /// back the batch it completes, if it completes one.
    pub fn accept(&mut self, packet: Packet, hosts: Option<(IpAddr, IpAddr)>) -> (r: Option<
        ShardBatch,
    >)
        requires
            old(self)@.valid(),
            old(self)@.count < u64::MAX,
        ensures
            final(self)@ == old(self)@.takes(SeenFrame { packet, hosts }),
            final(self)@.valid(),
            match r {
                Some(b) => old(self)@.emits(SeenFrame { packet, hosts }) == Some(b@),
                None => old(self)@.emits(SeenFrame { packet, hosts }) is None,
            },
            final(self).budget() == old(self).budget(),
            final(self).budget_spent() == old(self).budget_spent(),
            final(self).stopped() == old(self).stopped(),
    {
        let ghost f = SeenFrame { packet, hosts };
        let ghost before = self@;
        let mut packet = packet;
        packet.origin = Some(FrameOrigin { ordinal: self.read.count, digest: None });
        self.read.latest = match self.read.latest {
            Some(seen) => if packet.timestamp.nanos > seen.nanos {
                Some(packet.timestamp)
            } else {
                Some(seen)
            },
            None => Some(packet.timestamp),
        };
        let n: usize = self.batches.len();
        let s: usize = match hosts {
            Some((a, b)) => shard_for(a, b, n),
            None => {
                self.read.unshardable += 1;
                0
            },
        };
        assert(s < n);
        let mut batch: Vec<Packet> = Vec::new();
        core::mem::swap(&mut self.batches[s], &mut batch);
        assert(batch@ == before.batches[s as int]);
        batch.push(packet);
        assert(batch@ =~= before.grown(f));
        self.read.count += 1;
        if batch.len() >= BATCH {
            assert(self@.batches =~= before.takes(f).batches);
            Some(ShardBatch { shard: s, packets: batch })
        } else {
            self.batches[s] = batch;
            assert(self@.batches =~= before.takes(f).batches);
            None
        }
    }

    /// Record the error that stopped the read short of the file's end.
    pub fn stop(&mut self, error: String)
        ensures
            final(self)@ == old(self)@,
            final(self).stopped() == Some(error),
            final(self).budget() == old(self).budget(),
            final(self).budget_spent() == old(self).budget_spent(),
    {
        self.read.stopped = Some(error);
    }

    /// End the read: what it produced, and the batches that are left. They are
    /// flushed on every path out, because packets before an error are real.
    pub fn finish(self) -> (r: (FileRead, Vec<ShardBatch>))
        ensures
            r.0.count == self@.count,
            r.0.unshardable == self@.unshardable,
            r.0.latest == self@.latest,
            r.0.budget_spent == self.budget_spent(),
            r.0.stopped == self.stopped(),
            r.1@.map_values(|b: ShardBatch| b@) == leftovers(self@.batches, 0),
    {
        let ghost all = batch_views(self.batches@);
        let ShardReader { budget, batches, read } = self;
        let mut batches = batches;
        let mut out: Vec<ShardBatch> = Vec::new();
        let n: usize = batches.len();
        let mut i: usize = 0;
        while i < n
            invariant
                i <= n,
                n == batches.len(),
                all.len() == n,
                forall|k: int| i <= k < n ==> all[k] == (#[trigger] batches@[k])@,
                out@.map_values(|b: ShardBatch| b@) + leftovers(all, i as nat) =~= leftovers(
                    all,
                    0,
                ),
            decreases n - i,
        {
            let mut batch: Vec<Packet> = Vec::new();
            core::mem::swap(&mut batches[i], &mut batch);
            assert(batch@ == all[i as int]);
            if batch.len() > 0 {
                let ghost before = out@.map_values(|b: ShardBatch| b@);
                out.push(ShardBatch { shard: i, packets: batch });
                assert(out@.map_values(|b: ShardBatch| b@) =~= before.push(
                    (i as nat, all[i as int]),
                ));
            }
            i += 1;
        }
        assert(out@.map_values(|b: ShardBatch| b@) =~= leftovers(all, 0));
        (read, out)
    }
}

/// The frames that belong to worker `s`, each stamped with its position in the
/// file, in capture order.
pub open spec fn routed(frames: Seq<SeenFrame>, shards: nat, s: nat) -> Seq<Packet>
    decreases frames.len(),
{
    if frames.len() == 0 {
        seq![]
    } else {
        let before = routed(frames.drop_last(), shards, s);
        if shard_of(frames.last().hosts, shards) == s {
            before.push(stamped(frames.last().packet, (frames.len() - 1) as nat))
        } else {
            before
        }
    }
}

/// The packets that a run of batches brings worker `s`, in order.
pub open spec fn packets_for(batches: Seq<(nat, Seq<Packet>)>, s: nat) -> Seq<Packet>
    decreases batches.len(),
{
    if batches.len() == 0 {
        seq![]
    } else if batches[0].0 == s {
        batches[0].1 + packets_for(batches.skip(1), s)
    } else {
        packets_for(batches.skip(1), s)
    }
}

/// Two runs of batches bring a worker what the first brings and then what the
/// second brings.
pub proof fn packets_for_concat(a: Seq<(nat, Seq<Packet>)>, b: Seq<(nat, Seq<Packet>)>, s: nat)
    ensures
        packets_for(a + b, s) == packets_for(a, s) + packets_for(b, s),
    decreases a.len(),
{
    if a.len() == 0 {
        assert(a + b =~= b);
        assert(packets_for(a, s) + packets_for(b, s) =~= packets_for(b, s));
    } else {
        assert((a + b).skip(1) =~= a.skip(1) + b);
        packets_for_concat(a.skip(1), b, s);
        assert(packets_for(a + b, s) =~= packets_for(a, s) + packets_for(b, s));
    }
}

/// Every batch of a file, in the order they are handed on: those completed
/// while reading, then those left at the end.
pub open spec fn file_batches(frames: Seq<SeenFrame>, shards: nat) -> Seq<(nat, Seq<Packet>)> {
    let start = ReaderState::start(shards);
    start.sent(frames) + leftovers(start.takes_all(frames).batches, 0)
}

/// The workers a flush names, from `from` on, rise; it holds each worker's
/// batch and no other.
proof fn leftovers_are_the_batches(batches: Seq<Seq<Packet>>, from: nat, s: nat)
    requires
        s < batches.len(),
    ensures
        packets_for(leftovers(batches, from), s) == if from <= s {
            batches[s as int]
        } else {
            Seq::<Packet>::empty()
        },
    decreases batches.len() - from,
{
    if from < batches.len() {
        leftovers_are_the_batches(batches, from + 1, s);
        let rest = leftovers(batches, from + 1);
        if batches[from as int].len() > 0 {
            let all = leftovers(batches, from);
            assert(all.skip(1) =~= rest);
            assert(all[0] == (from, batches[from as int]));
            if from == s {
                assert(batches[s as int] + Seq::<Packet>::empty() =~= batches[s as int]);
            }
        } else if from == s {
            assert(batches[s as int] =~= Seq::<Packet>::empty());
        }
    }
}

/// What has been sent to a worker and what is still held for it are together
/// the worker's frames so far.
proof fn sent_and_held(frames: Seq<SeenFrame>, shards: nat, s: nat)
    requires
        shards > 0,
        s < shards,
    ensures
        ({
            let r = ReaderState::start(shards).takes_all(frames);
            &&& r.batches.len() == shards
            &&& r.count == frames.len()
            &&& packets_for(ReaderState::start(shards).sent(frames), s) + r.batches[s as int]
                =~= routed(frames, shards, s)
        }),
    decreases frames.len(),
{
    if frames.len() > 0 {
        let start = ReaderState::start(shards);
        let front = frames.drop_last();
        sent_and_held(front, shards, s);
        let r = start.takes_all(front);
        let f = frames.last();
        let t = shard_of(f.hosts, shards);
        let before = packets_for(start.sent(front), s);
        assert(t < shards);
        if let Some(batch) = r.emits(f) {
            let one = seq![batch];
            assert(start.sent(frames) =~= start.sent(front) + one);
            packets_for_concat(start.sent(front), one, s);
            assert(one.skip(1) =~= seq![]);
            assert(packets_for(one.skip(1), s) =~= seq![]);
            assert(packets_for(one, s) =~= if t == s {
                batch.1
            } else {
                seq![]
            });
        }
        if t == s {
            let p = stamped(f.packet, r.count);
            assert(before + r.grown(f) =~= (before + r.batches[s as int]).push(p));
            assert(routed(frames, shards, s) == routed(front, shards, s).push(p));
        }
    }
}

/// Every frame of a file reaches exactly one worker, once, stamped with its
/// position, and each worker gets its frames in capture order: the batches of
/// a file bring each worker its frames and nothing else.
pub proof fn every_frame_reaches_its_worker_in_order(frames: Seq<SeenFrame>, shards: nat, s: nat)
    requires
        shards > 0,
        s < shards,
    ensures
        packets_for(file_batches(frames, shards), s) == routed(frames, shards, s),
{
    let start = ReaderState::start(shards);
    let held = start.takes_all(frames).batches;
    sent_and_held(frames, shards, s);
    leftovers_are_the_batches(held, 0, s);
    packets_for_concat(start.sent(frames), leftovers(held, 0), s);
}

/// Reading counts every frame, and the unshardable ones among them.
pub proof fn every_frame_is_counted(frames: Seq<SeenFrame>, shards: nat)
    ensures
        ReaderState::start(shards).takes_all(frames).count == frames.len(),
        ReaderState::start(shards).takes_all(frames).unshardable == frames.filter(
            |f: SeenFrame| f.hosts is None,
        ).len(),
    decreases frames.len(),
{
    reveal(Seq::filter);
    if frames.len() > 0 {
        every_frame_is_counted(frames.drop_last(), shards);
    }
}

/// How many workers there are changes nothing in what is read of a file: the
/// packets, the unshardable ones among them, and the newest capture time.
pub proof fn reading_does_not_depend_on_the_workers(frames: Seq<SeenFrame>, a: nat, b: nat)
    ensures
        ({
            let x = ReaderState::start(a).takes_all(frames);
            let y = ReaderState::start(b).takes_all(frames);
            x.count == y.count && x.unshardable == y.unshardable && x.latest == y.latest
        }),
    decreases frames.len(),
{
    if frames.len() > 0 {
        reading_does_not_depend_on_the_workers(frames.drop_last(), a, b);
    }
}

/// Reader state that spans the whole set rather than one file of it.
#[derive(Debug, Clone, Copy)]
pub struct ReadProgress {
    /// Packets read so far, measured against the packet budget.
    pub count: u64,
    /// Packets lost because a worker's channel had closed.
    pub dropped: u64,
    /// Packets that went to worker 0 because no host pair could be read.
    pub unshardable: u64,
    /// Capture clock, read once at the end of the run.
    pub clock: SweepClock,
}

impl ReadProgress {
    /// Nothing read yet.
    pub fn new() -> (r: Self)
        ensures
            r.count == 0,
            r.dropped == 0,
            r.unshardable == 0,
            r.clock.latest is None,
    {
        ReadProgress { count: 0, dropped: 0, unshardable: 0, clock: SweepClock::new() }
    }

    /// The totals after one file's read.
    pub open spec fn absorbed(self, read: FileRead) -> ReadProgress {
        ReadProgress {
            count: (self.count + read.count) as u64,
            dropped: self.dropped,
            unshardable: (self.unshardable + read.unshardable) as u64,
            clock: SweepClock {
                latest: match read.latest {
                    Some(t) => Some(later(self.clock.latest, t)),
                    None => self.clock.latest,
                },
            },
        }
    }

    /// Fold one file's read into the run's totals, and give the error that
    /// stopped that file short of its end, if one did.
    pub fn absorb(&mut self, read: FileRead) -> (r: Option<String>)
        requires
            old(self).count + read.count <= u64::MAX,
            old(self).unshardable + read.unshardable <= u64::MAX,
        ensures
            *final(self) == old(self).absorbed(read),
            r == read.stopped,
    {
        self.count += read.count;
        self.unshardable += read.unshardable;
        if let Some(t) = read.latest {
            self.clock.observe(t);
        }
        read.stopped
    }
}

} // verus!
