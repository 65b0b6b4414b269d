//! Why the answers do not depend on the number of workers.
//!
//! All packets of a host pair reach one worker, in the order of the files and
//! of capture, however many workers there are. A worker treats each host pair
//! by itself, so what is counted of a pair is counted the same, and the workers
//! together count what one would.
use crate::net::IpAddr;
use crate::packet::Packet;
use crate::parallel::dispatch::set_routed;
use crate::parallel::reader::{
    reading_does_not_depend_on_the_workers, routed, shard_of, stamped, FileRead, ReadProgress,
    ReaderState, SeenFrame,
};
use crate::parallel::shard::ordered_pair;
use crate::parallel::{count_sum, WorkerCounts};
use vstd::prelude::*;

verus! {

/// A host pair whichever way a packet went; `None` where it could not be read.
pub open spec fn pair_of(hosts: Option<(IpAddr, IpAddr)>) -> Option<(IpAddr, IpAddr)> {
    match hosts {
        Some((a, b)) => Some(ordered_pair(a, b)),
        None => None,
    }
}

/// How the host pair of a packet is read.
pub type Peek = spec_fn(Packet) -> Option<(IpAddr, IpAddr)>;

/// Whether host pairs were read off the packets, and a packet's position has no
/// part in it.
pub open spec fn read_off(frames: Seq<SeenFrame>, peek: Peek) -> bool {
    &&& forall|i: int| 0 <= i < frames.len() ==> (#[trigger] frames[i]).hosts == peek(
        frames[i].packet,
    )
    &&& forall|p: Packet, n: nat| peek(#[trigger] stamped(p, n)) == peek(p)
}

/// The packets of one host pair.
pub open spec fn of_pair(
    packets: Seq<Packet>,
    peek: Peek,
    pair: Option<(IpAddr, IpAddr)>,
) -> Seq<Packet> {
    packets.filter(|p: Packet| pair_of(peek(p)) == pair)
}

/// The packets of one host pair in a file, stamped, in capture order.
pub open spec fn flow_in_file(
    frames: Seq<SeenFrame>,
    pair: Option<(IpAddr, IpAddr)>,
) -> Seq<Packet>
    decreases frames.len(),
{
    if frames.len() == 0 {
        seq![]
    } else {
        let before = flow_in_file(frames.drop_last(), pair);
        if pair_of(frames.last().hosts) == pair {
            before.push(stamped(frames.last().packet, (frames.len() - 1) as nat))
        } else {
            before
        }
    }
}

/// The packets of one host pair in a set, the files in order.
pub open spec fn flow_in_set(
    files: Seq<Seq<SeenFrame>>,
    pair: Option<(IpAddr, IpAddr)>,
) -> Seq<Packet>
    decreases files.len(),
{
    if files.len() == 0 {
        seq![]
    } else {
        flow_in_set(files.drop_last(), pair) + flow_in_file(files.last(), pair)
    }
}

/// A file's packets of one pair go to the pair's worker and to no other.
proof fn a_flow_stays_whole_in_a_file(
    frames: Seq<SeenFrame>,
    peek: Peek,
    pair: Option<(IpAddr, IpAddr)>,
    workers: nat,
    s: nat,
)
    requires
        read_off(frames, peek),
        pair == pair_of(pair),
    ensures
        of_pair(routed(frames, workers, s), peek, pair) == if shard_of(pair, workers) == s {
            flow_in_file(frames, pair)
        } else {
            Seq::<Packet>::empty()
        },
    decreases frames.len(),
{
    reveal(Seq::filter);
    let packets = routed(frames, workers, s);
    if frames.len() == 0 {
        assert(of_pair(packets, peek, pair) =~= Seq::<Packet>::empty());
    } else {
        let front = frames.drop_last();
        let f = frames.last();
        assert forall|i: int| 0 <= i < front.len() implies (#[trigger] front[i]).hosts == peek(
            front[i].packet,
        ) by {
            assert(frames[i] == front[i]);
        }
        assert(frames[frames.len() - 1].hosts == peek(f.packet));
        a_flow_stays_whole_in_a_file(front, peek, pair, workers, s);
        let before = routed(front, workers, s);
        assert(shard_of(pair_of(f.hosts), workers) == shard_of(f.hosts, workers));
        if shard_of(f.hosts, workers) == s {
            let p = stamped(f.packet, (frames.len() - 1) as nat);
            assert(peek(p) == f.hosts);
            assert(packets == before.push(p));
            assert(packets.drop_last() =~= before);
        }
    }
}

/// The packets of a host pair all reach one worker, in the order of the files
/// and of capture, and no other worker sees any of them: which packets they are
/// and in which order does not depend on how many workers there are.
pub proof fn a_flow_stays_whole(
    files: Seq<Seq<SeenFrame>>,
    peek: Peek,
    pair: Option<(IpAddr, IpAddr)>,
    workers: nat,
    s: nat,
)
    requires
        forall|i: int| 0 <= i < files.len() ==> read_off(#[trigger] files[i], peek),
        pair == pair_of(pair),
    ensures
        of_pair(set_routed(files, workers, s), peek, pair) == if shard_of(pair, workers) == s {
            flow_in_set(files, pair)
        } else {
            Seq::<Packet>::empty()
        },
    decreases files.len(),
{
    let same = |p: Packet| pair_of(peek(p)) == pair;
    if files.len() == 0 {
        reveal(Seq::filter);
        assert(of_pair(set_routed(files, workers, s), peek, pair) =~= Seq::<Packet>::empty());
    } else {
        let front = files.drop_last();
        assert forall|i: int| 0 <= i < front.len() implies read_off(#[trigger] front[i], peek) by {
            assert(front[i] == files[i]);
        }
        a_flow_stays_whole(front, peek, pair, workers, s);
        assert(read_off(files[files.len() - 1], peek));
        a_flow_stays_whole_in_a_file(files.last(), peek, pair, workers, s);
        Seq::filter_distributes_over_add(
            set_routed(front, workers, s),
            routed(files.last(), workers, s),
            same,
        );
        assert(Seq::<Packet>::empty() + Seq::<Packet>::empty() =~= Seq::<Packet>::empty());
    }
}

/// What one worker counts of its packets, host pair by host pair.
pub open spec fn counted_by_pair(
    packets: Seq<Packet>,
    peek: Peek,
    pairs: Seq<Option<(IpAddr, IpAddr)>>,
    count: spec_fn(Seq<Packet>) -> nat,
) -> nat
    decreases pairs.len(),
{
    if pairs.len() == 0 {
        0
    } else {
        counted_by_pair(packets, peek, pairs.drop_last(), count) + count(
            of_pair(packets, peek, pairs.last()),
        )
    }
}

/// What is counted of each host pair of a set, added up.
pub open spec fn counted_in_set(
    files: Seq<Seq<SeenFrame>>,
    pairs: Seq<Option<(IpAddr, IpAddr)>>,
    count: spec_fn(Seq<Packet>) -> nat,
) -> nat
    decreases pairs.len(),
{
    if pairs.len() == 0 {
        0
    } else {
        counted_in_set(files, pairs.drop_last(), count) + count(flow_in_set(files, pairs.last()))
    }
}

/// What the first `n` of so many workers count together.
pub open spec fn counted_by_workers(
    files: Seq<Seq<SeenFrame>>,
    peek: Peek,
    pairs: Seq<Option<(IpAddr, IpAddr)>>,
    count: spec_fn(Seq<Packet>) -> nat,
    workers: nat,
    n: nat,
) -> nat
    decreases n,
{
    if n == 0 {
        0
    } else {
        counted_by_workers(files, peek, pairs, count, workers, (n - 1) as nat) + counted_by_pair(
            set_routed(files, workers, (n - 1) as nat),
            peek,
            pairs,
            count,
        )
    }
}

/// One host pair more adds what is counted of it, once its worker is among
/// those asked.
proof fn one_pair_more(
    files: Seq<Seq<SeenFrame>>,
    peek: Peek,
    pairs: Seq<Option<(IpAddr, IpAddr)>>,
    count: spec_fn(Seq<Packet>) -> nat,
    workers: nat,
    n: nat,
)
    requires
        forall|i: int| 0 <= i < files.len() ==> read_off(#[trigger] files[i], peek),
        pairs.len() > 0,
        pairs.last() == pair_of(pairs.last()),
        count(Seq::empty()) == 0,
    ensures
        counted_by_workers(files, peek, pairs, count, workers, n) == counted_by_workers(
            files,
            peek,
            pairs.drop_last(),
            count,
            workers,
            n,
        ) + if shard_of(pairs.last(), workers) < n {
            count(flow_in_set(files, pairs.last()))
        } else {
            0
        },
    decreases n,
{
    if n > 0 {
        one_pair_more(files, peek, pairs, count, workers, (n - 1) as nat);
        a_flow_stays_whole(files, peek, pairs.last(), workers, (n - 1) as nat);
    }
}

/// The workers together count what is counted of each host pair.
proof fn workers_count_the_set(
    files: Seq<Seq<SeenFrame>>,
    peek: Peek,
    pairs: Seq<Option<(IpAddr, IpAddr)>>,
    count: spec_fn(Seq<Packet>) -> nat,
    workers: nat,
)
    requires
        workers > 0,
        forall|i: int| 0 <= i < files.len() ==> read_off(#[trigger] files[i], peek),
        forall|i: int| 0 <= i < pairs.len() ==> #[trigger] pairs[i] == pair_of(pairs[i]),
        count(Seq::empty()) == 0,
    ensures
        counted_by_workers(files, peek, pairs, count, workers, workers) == counted_in_set(
            files,
            pairs,
            count,
        ),
    decreases pairs.len(),
{
    if pairs.len() == 0 {
        no_pair_counts_nothing(files, peek, pairs, count, workers, workers);
    } else {
        let front = pairs.drop_last();
        assert forall|i: int| 0 <= i < front.len() implies #[trigger] front[i] == pair_of(
            front[i],
        ) by {
            assert(front[i] == pairs[i]);
        }
        assert(pairs[pairs.len() - 1] == pair_of(pairs.last()));
        workers_count_the_set(files, peek, front, count, workers);
        one_pair_more(files, peek, pairs, count, workers, workers);
        assert(shard_of(pairs.last(), workers) < workers);
    }
}

/// Without a host pair nothing is counted.
proof fn no_pair_counts_nothing(
    files: Seq<Seq<SeenFrame>>,
    peek: Peek,
    pairs: Seq<Option<(IpAddr, IpAddr)>>,
    count: spec_fn(Seq<Packet>) -> nat,
    workers: nat,
    n: nat,
)
    requires
        pairs.len() == 0,
    ensures
        counted_by_workers(files, peek, pairs, count, workers, n) == 0,
    decreases n,
{
    if n > 0 {
        no_pair_counts_nothing(files, peek, pairs, count, workers, (n - 1) as nat);
    }
}

/// Whether workers all ended well and each counted its own packets, host pair
/// by host pair: `field` is one of their counts.
pub open spec fn counted_well(
    results: Seq<Option<WorkerCounts>>,
    field: spec_fn(WorkerCounts) -> u64,
    files: Seq<Seq<SeenFrame>>,
    peek: Peek,
    pairs: Seq<Option<(IpAddr, IpAddr)>>,
    count: spec_fn(Seq<Packet>) -> nat,
) -> bool {
    forall|s: int|
        0 <= s < results.len() ==> (#[trigger] results[s]) is Some && field(results[s]->0)
            == counted_by_pair(
            set_routed(files, results.len(), s as nat),
            peek,
            pairs,
            count,
        )
}

/// The merged count is what the workers count together.
proof fn merged_is_counted(
    results: Seq<Option<WorkerCounts>>,
    field: spec_fn(WorkerCounts) -> u64,
    files: Seq<Seq<SeenFrame>>,
    peek: Peek,
    pairs: Seq<Option<(IpAddr, IpAddr)>>,
    count: spec_fn(Seq<Packet>) -> nat,
    n: nat,
)
    requires
        counted_well(results, field, files, peek, pairs, count),
        n <= results.len(),
    ensures
        count_sum(results.take(n as int), field) == counted_by_workers(
            files,
            peek,
            pairs,
            count,
            results.len(),
            n,
        ),
    decreases n,
{
    if n > 0 {
        merged_is_counted(results, field, files, peek, pairs, count, (n - 1) as nat);
        assert(results.take(n as int).drop_last() =~= results.take(n - 1));
        assert(results.take(n as int).last() == results[n - 1]);
    }
}

/// The answers do not depend on the number of cores: where no worker dies, and
/// each counts its packets host pair by host pair, the merged counts of the
/// same set are the same with however many workers, and are what is counted of
/// each host pair of the set, added up.
pub proof fn the_counts_do_not_depend_on_the_workers(
    a: Seq<Option<WorkerCounts>>,
    b: Seq<Option<WorkerCounts>>,
    field: spec_fn(WorkerCounts) -> u64,
    files: Seq<Seq<SeenFrame>>,
    peek: Peek,
    pairs: Seq<Option<(IpAddr, IpAddr)>>,
    count: spec_fn(Seq<Packet>) -> nat,
)
    requires
        a.len() > 0,
        b.len() > 0,
        forall|i: int| 0 <= i < files.len() ==> read_off(#[trigger] files[i], peek),
        forall|i: int| 0 <= i < pairs.len() ==> #[trigger] pairs[i] == pair_of(pairs[i]),
        count(Seq::empty()) == 0,
        counted_well(a, field, files, peek, pairs, count),
        counted_well(b, field, files, peek, pairs, count),
    ensures
        count_sum(a, field) == count_sum(b, field),
        count_sum(a, field) == counted_in_set(files, pairs, count),
{
    workers_count_the_set(files, peek, pairs, count, a.len());
    workers_count_the_set(files, peek, pairs, count, b.len());
    merged_is_counted(a, field, files, peek, pairs, count, a.len());
    merged_is_counted(b, field, files, peek, pairs, count, b.len());
    assert(a.take(a.len() as int) =~= a);
    assert(b.take(b.len() as int) =~= b);
}

/// The keys of a store that one worker fills with its packets, host pair by
/// host pair: `found` says which keys the packets of a pair give.
pub open spec fn kept_by_pair<K>(
    packets: Seq<Packet>,
    peek: Peek,
    pairs: Seq<Option<(IpAddr, IpAddr)>>,
    found: spec_fn(Seq<Packet>) -> Set<K>,
) -> Set<K>
    decreases pairs.len(),
{
    if pairs.len() == 0 {
        Set::empty()
    } else {
        kept_by_pair(packets, peek, pairs.drop_last(), found).union(
            found(of_pair(packets, peek, pairs.last())),
        )
    }
}

/// The keys that the host pairs of a set give.
pub open spec fn kept_of_set<K>(
    files: Seq<Seq<SeenFrame>>,
    pairs: Seq<Option<(IpAddr, IpAddr)>>,
    found: spec_fn(Seq<Packet>) -> Set<K>,
) -> Set<K>
    decreases pairs.len(),
{
    if pairs.len() == 0 {
        Set::empty()
    } else {
        kept_of_set(files, pairs.drop_last(), found).union(found(flow_in_set(files, pairs.last())))
    }
}

/// The keys of the stores of the first `n` of so many workers, merged.
pub open spec fn merged_keys<K>(
    files: Seq<Seq<SeenFrame>>,
    peek: Peek,
    pairs: Seq<Option<(IpAddr, IpAddr)>>,
    found: spec_fn(Seq<Packet>) -> Set<K>,
    workers: nat,
    n: nat,
) -> Set<K>
    decreases n,
{
    if n == 0 {
        Set::empty()
    } else {
        merged_keys(files, peek, pairs, found, workers, (n - 1) as nat).union(
            kept_by_pair(set_routed(files, workers, (n - 1) as nat), peek, pairs, found),
        )
    }
}

/// One host pair more adds the keys it gives, once its worker is among those
/// merged.
proof fn one_pair_more_merged<K>(
    files: Seq<Seq<SeenFrame>>,
    peek: Peek,
    pairs: Seq<Option<(IpAddr, IpAddr)>>,
    found: spec_fn(Seq<Packet>) -> Set<K>,
    workers: nat,
    n: nat,
)
    requires
        forall|i: int| 0 <= i < files.len() ==> read_off(#[trigger] files[i], peek),
        pairs.len() > 0,
        pairs.last() == pair_of(pairs.last()),
        found(Seq::empty()) == Set::<K>::empty(),
    ensures
        merged_keys(files, peek, pairs, found, workers, n) == merged_keys(
            files,
            peek,
            pairs.drop_last(),
            found,
            workers,
            n,
        ).union(
            if shard_of(pairs.last(), workers) < n {
                found(flow_in_set(files, pairs.last()))
            } else {
                Set::empty()
            },
        ),
    decreases n,
{
    if n > 0 {
        one_pair_more_merged(files, peek, pairs, found, workers, (n - 1) as nat);
        a_flow_stays_whole(files, peek, pairs.last(), workers, (n - 1) as nat);
    }
    assert(merged_keys(files, peek, pairs, found, workers, n) =~= merged_keys(
        files,
        peek,
        pairs.drop_last(),
        found,
        workers,
        n,
    ).union(
        if shard_of(pairs.last(), workers) < n {
            found(flow_in_set(files, pairs.last()))
        } else {
            Set::empty()
        },
    ));
}

/// Without a host pair nothing is kept.
proof fn no_pair_keeps_nothing<K>(
    files: Seq<Seq<SeenFrame>>,
    peek: Peek,
    pairs: Seq<Option<(IpAddr, IpAddr)>>,
    found: spec_fn(Seq<Packet>) -> Set<K>,
    workers: nat,
    n: nat,
)
    requires
        pairs.len() == 0,
    ensures
        merged_keys(files, peek, pairs, found, workers, n) == Set::<K>::empty(),
    decreases n,
{
    if n > 0 {
        no_pair_keeps_nothing(files, peek, pairs, found, workers, (n - 1) as nat);
    }
    assert(merged_keys(files, peek, pairs, found, workers, n) =~= Set::<K>::empty());
}

/// The merged stores hold what the host pairs of the set give.
proof fn merged_keys_are_the_sets<K>(
    files: Seq<Seq<SeenFrame>>,
    peek: Peek,
    pairs: Seq<Option<(IpAddr, IpAddr)>>,
    found: spec_fn(Seq<Packet>) -> Set<K>,
    workers: nat,
)
    requires
        workers > 0,
        forall|i: int| 0 <= i < files.len() ==> read_off(#[trigger] files[i], peek),
        forall|i: int| 0 <= i < pairs.len() ==> #[trigger] pairs[i] == pair_of(pairs[i]),
        found(Seq::empty()) == Set::<K>::empty(),
    ensures
        merged_keys(files, peek, pairs, found, workers, workers) == kept_of_set(
            files,
            pairs,
            found,
        ),
    decreases pairs.len(),
{
    if pairs.len() == 0 {
        no_pair_keeps_nothing(files, peek, pairs, found, workers, workers);
    } else {
        let front = pairs.drop_last();
        assert forall|i: int| 0 <= i < front.len() implies #[trigger] front[i] == pair_of(
            front[i],
        ) by {
            assert(front[i] == pairs[i]);
        }
        assert(pairs[pairs.len() - 1] == pair_of(pairs.last()));
        merged_keys_are_the_sets(files, peek, front, found, workers);
        one_pair_more_merged(files, peek, pairs, found, workers, workers);
        assert(shard_of(pairs.last(), workers) < workers);
    }
}

/// The merged stores do not depend on the number of workers: where nothing is
/// evicted, no worker dies, and a worker's store holds the keys that the packets
/// of each host pair give, the stores of any number of workers merge to the same
/// keys, and so to as many entries.
pub proof fn the_merged_stores_do_not_depend_on_the_workers<K>(
    files: Seq<Seq<SeenFrame>>,
    peek: Peek,
    pairs: Seq<Option<(IpAddr, IpAddr)>>,
    found: spec_fn(Seq<Packet>) -> Set<K>,
    a: nat,
    b: nat,
)
    requires
        a > 0,
        b > 0,
        forall|i: int| 0 <= i < files.len() ==> read_off(#[trigger] files[i], peek),
        forall|i: int| 0 <= i < pairs.len() ==> #[trigger] pairs[i] == pair_of(pairs[i]),
        found(Seq::empty()) == Set::<K>::empty(),
    ensures
        merged_keys(files, peek, pairs, found, a, a) == merged_keys(files, peek, pairs, found, b, b),
        merged_keys(files, peek, pairs, found, a, a).len() == merged_keys(
            files,
            peek,
            pairs,
            found,
            b,
            b,
        ).len(),
{
    merged_keys_are_the_sets(files, peek, pairs, found, a);
    merged_keys_are_the_sets(files, peek, pairs, found, b);
}

/// The totals of a set whose files were read for so many workers.
pub open spec fn totals_of(
    start: ReadProgress,
    files: Seq<Seq<SeenFrame>>,
    workers: nat,
) -> ReadProgress
    decreases files.len(),
{
    if files.len() == 0 {
        start
    } else {
        let read = ReaderState::start(workers).takes_all(files.last());
        totals_of(start, files.drop_last(), workers).absorbed(
            FileRead {
                count: read.count as u64,
                unshardable: read.unshardable as u64,
                latest: read.latest,
                budget_spent: false,
                stopped: None,
            },
        )
    }
}

/// The totals of a set do not depend on the number of workers: the packets
/// read, the unshardable ones among them, and the newest capture time.
pub proof fn the_totals_do_not_depend_on_the_workers(
    start: ReadProgress,
    files: Seq<Seq<SeenFrame>>,
    a: nat,
    b: nat,
)
    ensures
        totals_of(start, files, a) == totals_of(start, files, b),
    decreases files.len(),
{
    if files.len() > 0 {
        the_totals_do_not_depend_on_the_workers(start, files.drop_last(), a, b);
        reading_does_not_depend_on_the_workers(files.last(), a, b);
    }
}

} // verus!
