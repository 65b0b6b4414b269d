use crossbeam_channel::bounded;
use sipnab::channel::Outbox;
use sipnab::net::IpAddr;
use sipnab::packet::{frame_digest, stamp_digest, FrameOrigin, Packet, SweepClock, Timestamp};
use sipnab::parallel::dispatch::{
    lost_weight, next_file_of_reader, plan_read, queue_depth, read_ahead_charge, shard_send,
    worker_count, DirectSink, DispatchAction, Dispatcher, FileOutcome, ReadPlan, ReaderMsg, SetRun, Settled,
    ShardSink,
};
use sipnab::parallel::reader::{FileRead, ReadProgress, ShardBatch, ShardReader, BATCH};
use sipnab::parallel::runway::{Admission, Runway, DISPATCH_RESERVE_BYTES, READ_AHEAD_BYTES};
use sipnab::parallel::shard::shard_for;
use sipnab::parallel::{
    compaction_notice, final_sweep, lost_packets_notice, merge_counts, shard_fallback_summary,
    ReconResult, WorkerCounts,
};

fn ip(a: u8, b: u8, c: u8, d: u8) -> IpAddr {
    IpAddr::v4(a, b, c, d)
}

fn packet(nanos: i128, data: Vec<u8>) -> Packet {
    let n = data.len();
    Packet {
        timestamp: Timestamp { nanos },
        data,
        caplen: n,
        origlen: n,
        source: None,
        link_type: 1,
        origin: None,
    }
}

#[test]
fn dead_worker_shard_send_is_counted() {
    let (tx, rx) = bounded::<u32>(4);
    let mut tx = Outbox::new(tx);
    assert_eq!(shard_send(&mut tx, 1u32, 1), 0, "live worker loses nothing");
    assert_eq!(rx.try_recv(), Ok(1), "the item reaches the worker");
    drop(rx);
    assert_eq!(shard_send(&mut tx, 2u32, 1), 1, "one lost packet is counted");
    assert_eq!(
        shard_send(&mut tx, 3u32, 128),
        128,
        "a lost batch counts every packet in it"
    );
}

#[test]
fn shard_fallback_summary_is_silent_when_every_packet_sharded() {
    assert_eq!(shard_fallback_summary(0, 4_000_000, 8), None);
    assert_eq!(shard_fallback_summary(0, 0, 2), None);
}

#[test]
fn shard_fallback_summary_is_silent_on_the_single_threaded_path() {
    assert_eq!(shard_fallback_summary(4_000_000, 4_000_000, 1), None);
    assert_eq!(shard_fallback_summary(4_000_000, 4_000_000, 0), None);
    assert_ne!(
        shard_fallback_summary(4_000_000, 4_000_000, 2),
        None,
        "two workers must report what one worker suppresses"
    );
}

#[test]
fn shard_fallback_summary_names_the_exact_count_and_share() {
    assert_eq!(
        shard_fallback_summary(12, 4_000_000, 4).as_deref(),
        Some(
            "NOT SHARDED: 12 of 4000000 packet(s) (0.0%) carried no host pair the \
             shard peek could read, so they were dispatched to worker 0 instead of \
             being spread across the 4 workers."
        )
    );
}

#[test]
fn shard_fallback_summary_is_emphatic_when_nothing_sharded() {
    assert_eq!(
        shard_fallback_summary(4_000_000, 4_000_000, 4).as_deref(),
        Some(
            "NOT SHARDED: 4000000 of 4000000 packet(s) (100.0%) carried no host pair \
             the shard peek could read, so they were dispatched to worker 0 instead \
             of being spread across the 4 workers. --cores BOUGHT NOTHING ON THIS \
             CAPTURE — every packet ran on worker 0 while the other 3 worker(s) \
             idled, so this run was single-threaded whatever --cores said. The peek \
             cannot follow this capture's encapsulation; report its link type."
        )
    );
}

#[test]
fn shard_fallback_summary_flags_a_mostly_single_threaded_run() {
    assert_eq!(
        shard_fallback_summary(3, 4, 2).as_deref(),
        Some(
            "NOT SHARDED: 3 of 4 packet(s) (75.0%) carried no host pair the shard \
             peek could read, so they were dispatched to worker 0 instead of being \
             spread across the 2 workers. MOST OF THIS RUN WAS SINGLE-THREADED — the \
             majority of the capture ran on worker 0, so --cores bought far less than \
             the 2 workers suggest. The peek cannot follow part of this capture's \
             encapsulation; report its link type."
        )
    );
}

#[test]
fn shard_fallback_emphasis_thresholds_are_exact() {
    let mostly = "MOST OF THIS RUN WAS SINGLE-THREADED";
    let nothing = "--cores BOUGHT NOTHING ON THIS CAPTURE";

    let just_under = shard_fallback_summary(49, 100, 8).expect("49 fell back");
    assert!(!just_under.contains(mostly), "49% is not a majority");
    assert!(!just_under.contains(nothing), "49% is not all of it");

    let at_half = shard_fallback_summary(50, 100, 8).expect("50 fell back");
    assert!(at_half.contains(mostly), "50% is exactly the threshold");
    assert!(!at_half.contains(nothing), "50% is not all of it");

    let all = shard_fallback_summary(100, 100, 8).expect("100 fell back");
    assert!(all.contains(nothing), "100% is all of it");
    assert!(
        !all.contains(mostly),
        "the total case must not also claim the majority case"
    );
}

#[test]
fn shard_fallback_summary_guards_the_zero_denominator() {
    assert_eq!(
        shard_fallback_summary(5, 0, 4).as_deref(),
        Some(
            "NOT SHARDED: 5 of 0 packet(s) carried no host pair the shard peek could \
             read, so they were dispatched to worker 0 instead of being spread across \
             the 4 workers."
        )
    );
}

#[test]
fn the_share_is_what_doubles_print() {
    let cases: [(u64, u64); 15] = [
        (1, 3),
        (2, 3),
        (1, 8),
        (1, 16),
        (1, 2000),
        (1, 2001),
        (49_999, 100_000),
        (7, 13),
        (3, 5),
        (999, 1000),
        (9995, 10_000),
        (123_456_789, 987_654_321),
        (u64::MAX / 3, u64::MAX),
        (u64::MAX - 1, u64::MAX),
        (1, u64::MAX),
    ];
    for (part, whole) in cases {
        let said = shard_fallback_summary(part, whole, 2).expect("some fell back");
        let share = part as f64 * 100.0 / whole as f64;
        assert!(
            said.contains(&format!("({share:.1}%)")),
            "{part} of {whole}: {share:.1} is not in {said}"
        );
        assert_eq!(
            said.contains("MOST OF THIS RUN"),
            share >= 50.0 && part < whole,
            "{part} of {whole}"
        );
    }
    let mut n: u64 = 88_172_645_463_325_252;
    for _ in 0..2000 {
        n ^= n << 13;
        n ^= n >> 7;
        n ^= n << 17;
        let whole = (n >> (n % 60)).max(1);
        n = n.wrapping_mul(6_364_136_223_846_793_005).wrapping_add(1);
        let part = (n % whole).max(1);
        let said = shard_fallback_summary(part, whole, 2).expect("some fell back");
        let share = part as f64 * 100.0 / whole as f64;
        assert!(
            said.contains(&format!("({share:.1}%)")),
            "{part} of {whole}: {share:.1} is not in {said}"
        );
    }
}

#[test]
fn jobs_one_is_always_shard_zero() {
    assert_eq!(shard_for(ip(10, 0, 0, 1), ip(10, 0, 0, 2), 1), 0);
    assert_eq!(shard_for(ip(1, 2, 3, 4), ip(5, 6, 7, 8), 0), 0);
}

#[test]
fn direction_independent() {
    for n in [2usize, 4, 8, 12, 16] {
        let a = ip(10, 20, 30, 40);
        let b = ip(10, 31, 5, 9);
        assert_eq!(
            shard_for(a, b, n),
            shard_for(b, a, n),
            "src/dst order must not change the shard (n={n})"
        );
    }
}

#[test]
fn shard_in_range() {
    for n in [2usize, 4, 7, 12] {
        for i in 0..500u32 {
            let s = shard_for(ip(10, 20, (i >> 8) as u8, i as u8), ip(10, 30, 0, 1), n);
            assert!(s < n, "shard {s} out of range for n={n}");
        }
    }
}

#[test]
fn distributes_across_workers() {
    let n = 8;
    let mut buckets = [0usize; 8];
    for i in 0..2000u32 {
        let s = shard_for(ip(10, 20, (i >> 8) as u8, i as u8), ip(10, 30, 0, 1), n);
        buckets[s] += 1;
    }
    for (w, &c) in buckets.iter().enumerate() {
        assert!(c > 0, "worker {w} got nothing — sharding not distributing");
    }
}

fn result_of(progress: &ReadProgress, workers: usize) -> ReconResult<(), ()> {
    ReconResult {
        dialog_store: (),
        stream_store: (),
        sip_count: 0,
        rtp_count: 0,
        total_count: 0,
        dropped_count: progress.dropped,
        workers,
        packets_read: progress.count,
        unshardable_count: progress.unshardable,
    }
}

#[test]
fn channel_fed_cores_path_counts_every_unshardable_packet() {
    let mut progress = ReadProgress::new();
    for i in 0..7 {
        let shard = progress.route(Timestamp { nanos: i }, None, 2);
        assert_eq!(shard, 0);
    }
    for i in 1..=6 {
        progress.route(Timestamp { nanos: i }, Some((ip(10, 0, 0, 1), ip(10, 0, 0, 2))), 2);
    }
    let r = result_of(&progress, 2);
    assert_eq!(r.packets_read, 13, "thirteen raw packets were sharded");
    assert_eq!(
        r.unshardable_count, 7,
        "the seven ARP frames carry no host pair the peek can read"
    );
    assert_eq!(r.workers, 2);
    assert_eq!(
        r.shard_fallback_notice().as_deref(),
        Some(
            "NOT SHARDED: 7 of 13 packet(s) (53.8%) carried no host pair the shard \
             peek could read, so they were dispatched to worker 0 instead of being \
             spread across the 2 workers. MOST OF THIS RUN WAS SINGLE-THREADED — the \
             majority of the capture ran on worker 0, so --cores bought far less than \
             the 2 workers suggest. The peek cannot follow part of this capture's \
             encapsulation; report its link type."
        )
    );
}

/// Read frames that each have, or have not, a host pair.
fn read_frames(frames: Vec<(Packet, bool)>, shards: usize, budget: Option<u64>) -> (FileRead, Vec<ShardBatch>) {
    let mut reader = ShardReader::new(shards, budget);
    let mut batches = Vec::new();
    for (p, known) in frames {
        if !reader.wants_frame() {
            break;
        }
        let hosts = if known {
            Some((ip(10, 0, 0, 1), ip(10, 0, 0, 2)))
        } else {
            None
        };
        batches.extend(reader.accept(p, hosts));
    }
    let (read, rest) = reader.finish();
    batches.extend(rest);
    (read, batches)
}

#[test]
fn file_fed_cores_path_counts_every_unshardable_packet() {
    let mut frames = Vec::new();
    for i in 0..3u8 {
        frames.push((packet(i128::from(i), vec![i; 42]), false));
    }
    for i in 3..5u8 {
        frames.push((packet(i128::from(i), vec![i; 114]), true));
    }
    let plan = plan_read(1, 4, None).expect("one file reads");
    let (read, _) = read_frames(frames, plan.workers, None);
    let mut run = SetRun::new(1);
    assert!(matches!(run.settle(FileOutcome::Read(read)), Settled::Complete));
    let (progress, _) = run.totals();
    let r = result_of(&progress, plan.workers);
    assert_eq!(r.packets_read, 5, "five raw packets were sharded");
    assert_eq!(r.unshardable_count, 3, "the three ARP frames fell back");
    assert_eq!(r.workers, 4);
    assert_eq!(
        r.shard_fallback_notice().as_deref(),
        Some(
            "NOT SHARDED: 3 of 5 packet(s) (60.0%) carried no host pair the shard \
             peek could read, so they were dispatched to worker 0 instead of being \
             spread across the 4 workers. MOST OF THIS RUN WAS SINGLE-THREADED — the \
             majority of the capture ran on worker 0, so --cores bought far less than \
             the 4 workers suggest. The peek cannot follow part of this capture's \
             encapsulation; report its link type."
        )
    );
}

#[test]
fn frames_reach_their_worker_in_batches_and_in_order() {
    let frames: Vec<(Packet, bool)> =
        (0..300u16).map(|i| (packet(i128::from(i), i.to_be_bytes().to_vec()), true)).collect();
    let (read, batches) = read_frames(frames, 4, None);
    assert_eq!(read.count, 300);
    assert_eq!(read.unshardable, 0);
    assert_eq!(read.latest, Some(Timestamp { nanos: 299 }));
    assert!(!read.budget_spent);
    let sizes: Vec<usize> = batches.iter().map(|b| b.packets.len()).collect();
    assert_eq!(sizes, vec![BATCH, BATCH, 300 - 2 * BATCH]);
    let all: Vec<&Packet> = batches.iter().flat_map(|b| b.packets.iter()).collect();
    for (i, p) in all.iter().enumerate() {
        assert_eq!(p.data, (i as u16).to_be_bytes().to_vec());
        assert_eq!(p.origin.as_ref().map(|o| o.ordinal), Some(i as u64));
    }
}

#[test]
fn a_budget_stops_the_read_inside_a_file() {
    let frames: Vec<(Packet, bool)> = (0..5).map(|i| (packet(i, vec![0]), true)).collect();
    let (read, _) = read_frames(frames, 2, Some(3));
    assert_eq!(read.count, 3);
    assert!(read.budget_spent);
    let mut run = SetRun::new(2);
    assert_eq!(run.budget(Some(3)), Some(3));
    assert!(matches!(run.settle(FileOutcome::Read(read)), Settled::BudgetSpent));
    assert_eq!(run.next_file(), None, "the set is done");
}

#[test]
fn a_missing_file_does_not_take_the_rest_of_the_set_with_it() {
    let mut run = SetRun::new(3);
    let first = (0..9).map(|i| (packet(i, vec![0]), true)).collect();
    let last = (0..5).map(|i| (packet(i, vec![0]), true)).collect();
    assert_eq!(run.next_file(), Some(0));
    run.settle(FileOutcome::Read(read_frames(first, 4, None).0));
    assert_eq!(run.next_file(), Some(1));
    match run.settle(FileOutcome::OpenFailed("rot.pcap1-vanished: gone".to_string())) {
        Settled::Skipped(e) => assert_eq!(e, "rot.pcap1-vanished: gone"),
        _ => panic!("a later file that cannot be opened is skipped"),
    }
    assert_eq!(run.next_file(), Some(2));
    run.settle(FileOutcome::Read(read_frames(last, 4, None).0));
    assert_eq!(run.next_file(), None);
    let (progress, tally) = run.totals();
    assert_eq!(progress.count, 14, "the two readable files must be read in full");
    assert_eq!((tally.given, tally.complete, tally.skipped), (3, 2, 1));
    assert!(tally.lost);
}

#[test]
fn a_first_file_that_cannot_be_opened_refuses_the_set() {
    let mut run = SetRun::new(2);
    match run.settle(FileOutcome::OpenFailed("no such file".to_string())) {
        Settled::Refused(e) => assert_eq!(e, "no such file"),
        _ => panic!("the first file must open"),
    }
    assert_eq!(run.next_file(), None);
}

#[test]
fn a_filter_that_will_not_compile_refuses_the_set_wherever_it_stands() {
    let mut run = SetRun::new(2);
    run.settle(FileOutcome::Read(FileRead::empty()));
    match run.settle(FileOutcome::FilterFailed("loopback-dlt-loop.pcap: filter".to_string())) {
        Settled::Refused(e) => assert_eq!(e, "loopback-dlt-loop.pcap: filter"),
        _ => panic!("a filter that does not compile refuses the set"),
    }
}

#[test]
fn a_read_that_stops_short_is_kept_and_the_set_goes_on() {
    let mut reader = ShardReader::new(2, None);
    reader.accept(packet(7, vec![1]), None);
    reader.stop("truncated".to_string());
    let (read, rest) = reader.finish();
    assert_eq!(rest.len(), 1);
    let mut run = SetRun::new(2);
    match run.settle(FileOutcome::Read(read)) {
        Settled::StoppedEarly(e) => assert_eq!(e, "truncated"),
        _ => panic!("the read stopped on an error"),
    }
    assert_eq!(run.next_file(), Some(1));
    let (progress, tally) = run.totals();
    assert_eq!((progress.count, progress.unshardable), (1, 1));
    assert_eq!(tally.stopped_early, 1);
    assert_eq!(final_sweep(&progress.clock), Some(Timestamp { nanos: 7 }));
}

#[test]
fn a_set_is_forwarded_file_by_file() {
    let mut dispatcher = Dispatcher::new(2, 2);
    assert_eq!(dispatcher.listens_to(), Some((0, 0)));
    let batch = ShardBatch { shard: 1, packets: vec![packet(1, vec![9; 100])] };
    match dispatcher.on_message(Some(ReaderMsg::Batch { charge: 100, batch }), "a.pcap") {
        DispatchAction::Forward { announce, charge, batch } => {
            assert!(announce, "the first batch announces its file");
            assert_eq!((charge, batch.shard, batch.packets.len()), (100, 1, 1));
        }
        _ => panic!("a batch is forwarded"),
    }
    dispatcher.note_lost(1);
    let read = FileRead { count: 1, ..FileRead::empty() };
    match dispatcher.on_message(Some(ReaderMsg::Done(FileOutcome::Read(read))), "a.pcap") {
        DispatchAction::FileDone { announce, settled } => {
            assert!(!announce);
            assert!(matches!(settled, Settled::Complete));
        }
        _ => panic!("the file is settled"),
    }
    assert_eq!(dispatcher.listens_to(), Some((1, 1)));
    match dispatcher.on_message(None, "b.pcap") {
        DispatchAction::ReaderVanished(e) => {
            assert_eq!(e, "the reader thread for 'b.pcap' stopped without reporting");
        }
        _ => panic!("a vanished reader refuses the set"),
    }
    let (progress, _) = dispatcher.totals();
    assert_eq!((progress.count, progress.dropped), (1, 1));
}

#[test]
fn a_direct_sink_sends_each_batch_to_its_worker_and_counts_what_is_lost() {
    let (tx0, rx0) = bounded(4);
    let (tx1, rx1) = bounded(4);
    let txs = vec![Outbox::new(tx0), Outbox::new(tx1)];
    let mut sink = DirectSink { txs, dropped: 0 };
    assert!(sink.emit(ShardBatch { shard: 0, packets: vec![packet(1, vec![1]), packet(2, vec![2])] }));
    drop(rx1);
    let lost = vec![packet(3, vec![3]), packet(4, vec![4]), packet(5, vec![5])];
    assert!(sink.emit(ShardBatch { shard: 1, packets: lost }), "a dead worker does not stop the read");
    assert_eq!(sink.dropped, 3);
    let got = rx0.try_recv().expect("worker 0 has its batch");
    assert_eq!(got.len(), 2);
    assert_eq!(got[1].data, vec![2]);
}

#[test]
fn read_plans_and_reader_turns() {
    assert_eq!(plan_read(0, 4, None).unwrap_err(), "no capture files to read");
    let one = plan_read(1, 1, None).unwrap();
    assert!(matches!(one, ReadPlan { workers: 2, readers: 1, parallel: false }));
    let many = plan_read(9, 4, None).unwrap();
    assert!(matches!(many, ReadPlan { workers: 4, readers: 4, parallel: true }));
    let budgeted = plan_read(9, 4, Some(10)).unwrap();
    assert!(!budgeted.parallel, "a budget is only meaningful read in order");
    assert_eq!(next_file_of_reader(1, 4, 9), Some(5));
    assert_eq!(next_file_of_reader(5, 4, 9), None);
    assert_eq!(lost_weight(true, 7), 0);
    assert_eq!(lost_weight(false, 7), 7);
    assert!(queue_depth(100) >= 1);
    let charge = read_ahead_charge(&[packet(1, vec![0; 100]), packet(2, vec![0; 50])]);
    assert!(charge >= 150);
}

#[test]
fn counts_merge_and_a_dead_worker_counts_nothing() {
    let merged = merge_counts(&[
        Some(WorkerCounts { sip: 1, rtp: 2, total: 3 }),
        None,
        Some(WorkerCounts { sip: 10, rtp: 20, total: 30 }),
    ]);
    assert_eq!((merged.sip, merged.rtp, merged.total), (11, 22, 33));
    assert_eq!(compaction_notice(0, 0), None);
    assert!(compaction_notice(5, 2).expect("five were evicted").contains('5'));
    assert_eq!(lost_packets_notice(0), None);
    assert!(lost_packets_notice(12).expect("twelve were lost").contains("12"));
    let mut clock = SweepClock::new();
    assert_eq!(final_sweep(&clock), None);
    clock.observe(Timestamp { nanos: 9 });
    clock.observe(Timestamp { nanos: 4 });
    assert_eq!(final_sweep(&clock), Some(Timestamp { nanos: 9 }));
    let origin = FrameOrigin { ordinal: 3, digest: None };
    assert_eq!(origin.ordinal, 3);
}

#[test]
fn the_dispatched_files_reader_is_never_charged_the_runway() {
    let mut runway = Runway::new(3, 0);
    assert_eq!(
        runway.acquire(0, 1 << 20),
        Admission::Admitted,
        "the file being dispatched must be admitted with an empty runway, \
         or the run deadlocks the moment the readers ahead spend it"
    );
}

#[test]
fn the_dispatched_files_reader_waits_when_its_reserve_is_spent() {
    let mut runway = Runway::new(2, 0);
    assert_eq!(
        runway.acquire(0, DISPATCH_RESERVE_BYTES),
        Admission::Admitted,
        "an untouched reserve admits a batch the size of the whole reserve"
    );
    assert_eq!(
        runway.acquire(0, 4096),
        Admission::Wait,
        "with the reserve spent, even the file being dispatched must wait: \
         the alternative is a reader that keeps reading into a queue \
         nobody is draining"
    );
    runway.release(4096);
    assert_eq!(
        runway.acquire(0, 4096),
        Admission::Admitted,
        "forwarding a batch must hand its bytes back and wake the reader"
    );
}

#[test]
fn only_the_next_file_in_line_may_spend_the_runway() {
    let mut runway = Runway::new(4, 1000);
    assert_eq!(runway.acquire(1, 400), Admission::Admitted, "file 1 is next in line");
    assert_eq!(
        runway.acquire(2, 100),
        Admission::Wait,
        "file 2 must not spend a budget file 1 has not finished with, \
         however much of it is free"
    );
    runway.retire(1);
    assert_eq!(
        runway.acquire(2, 100),
        Admission::Admitted,
        "the claim must pass on the moment file 1 is finished"
    );
}

#[test]
fn a_batch_larger_than_the_whole_runway_is_still_admitted() {
    let mut runway = Runway::new(2, 100);
    assert_eq!(
        runway.acquire(1, 5_000_000),
        Admission::Admitted,
        "one oversized batch must go through, or a jumbo capture stops \
         dead"
    );
}

#[test]
fn every_byte_the_dispatch_reserve_lends_comes_back() {
    let mut runway = Runway::new(2, 0);
    assert_eq!(runway.acquire(0, 4096), Admission::Admitted);
    assert_eq!(runway.acquire(0, 8192), Admission::Admitted);
    assert_eq!(
        runway.reserve_free(),
        DISPATCH_RESERVE_BYTES - 12288,
        "both batches must be charged while they are in flight"
    );
    runway.release(4096);
    runway.release(8192);
    assert_eq!(
        runway.reserve_free(),
        DISPATCH_RESERVE_BYTES,
        "forwarding both must restore the reserve exactly — no more, no less"
    );
}

#[test]
fn cancelling_the_runway_releases_a_waiting_reader() {
    let mut runway = Runway::new(4, 0);
    assert_eq!(
        runway.acquire(2, 10),
        Admission::Wait,
        "file 2 must be waiting: the budget is empty and it is not next in \
         line"
    );
    assert!(!runway.canceled());
    runway.cancel();
    assert!(runway.canceled());
    assert_eq!(
        runway.acquire(2, 10),
        Admission::Canceled,
        "a canceled runway must release its waiters, and tell them the \
         run is over rather than admitting them"
    );
}

#[test]
fn reaching_a_file_returns_what_its_read_ahead_held() {
    let mut runway = Runway::new(3, 1000);
    assert_eq!(runway.acquire(1, 900), Admission::Admitted);
    assert_eq!(runway.acquire(1, 200), Admission::Wait);
    runway.advance(1);
    assert_eq!(runway.claimant(), 2);
    assert_eq!(runway.acquire(2, 1000), Admission::Admitted);
    assert!(READ_AHEAD_BYTES > DISPATCH_RESERVE_BYTES);
}

#[test]
fn every_file_of_a_set_is_counted() {
    let lengths = [7usize, 11, 13, 17, 19];
    let mut run = SetRun::new(lengths.len());
    for (i, len) in lengths.iter().enumerate() {
        assert_eq!(run.next_file(), Some(i));
        let frames = (0..*len).map(|s| (packet(s as i128, vec![i as u8]), true)).collect();
        run.settle(FileOutcome::Read(read_frames(frames, 4, None).0));
    }
    let (progress, tally) = run.totals();
    assert_eq!(progress.count, lengths.iter().sum::<usize>() as u64);
    assert_eq!(tally.complete, lengths.len());
    assert!(!tally.lost);
}

#[test]
fn a_set_read_side_by_side_is_released_in_capture_order() {
    let files: u16 = 4;
    let per_file: u16 = 200;
    let readers = 2;
    // What each reader thread has queued, long before the dispatcher looks.
    let mut queues: Vec<std::collections::VecDeque<ReaderMsg>> =
        (0..readers).map(|_| std::collections::VecDeque::new()).collect();
    for first in (0..readers).rev() {
        let mut next = Some(first);
        while let Some(file) = next {
            let frames = (0..per_file)
                .map(|i| {
                    let seq = file as u16 * per_file + i;
                    (packet(i128::from(seq), seq.to_be_bytes().to_vec()), i % 3 != 0)
                })
                .collect();
            let (read, batches) = read_frames(frames, 3, None);
            for batch in batches {
                let charge = read_ahead_charge(&batch.packets);
                queues[first].push_back(ReaderMsg::Batch { charge, batch });
            }
            queues[first].push_back(ReaderMsg::Done(FileOutcome::Read(read)));
            next = next_file_of_reader(file, readers, usize::from(files));
        }
    }
    let mut dispatcher = Dispatcher::new(usize::from(files), readers);
    let mut seen: Vec<Vec<u16>> = vec![Vec::new(); 3];
    while let Some((_, queue)) = dispatcher.listens_to() {
        match dispatcher.on_message(queues[queue].pop_front(), "set") {
            DispatchAction::Forward { batch, .. } => {
                for p in batch.packets {
                    seen[batch.shard].push(u16::from_be_bytes([p.data[0], p.data[1]]));
                }
            }
            DispatchAction::FileDone { settled, .. } => {
                assert!(matches!(settled, Settled::Complete));
            }
            DispatchAction::ReaderVanished(e) => panic!("{e}"),
        }
    }
    let (progress, _) = dispatcher.totals();
    assert_eq!(progress.count, u64::from(files * per_file));
    assert_eq!(seen.iter().map(Vec::len).sum::<usize>(), usize::from(files * per_file));
    for worker in &seen {
        assert!(
            worker.windows(2).all(|w| w[0] < w[1]),
            "a worker sees its packets in capture order"
        );
    }
}

#[test]
fn what_is_read_does_not_depend_on_the_workers() {
    let frames = || -> Vec<(Packet, Option<(IpAddr, IpAddr)>)> {
        (0..500u16)
            .map(|i| {
                let hosts = if i % 7 == 0 {
                    None
                } else {
                    Some((ip(10, 0, 0, (i % 5) as u8), ip(10, 0, 1, (i % 3) as u8)))
                };
                (packet(i128::from(i), i.to_be_bytes().to_vec()), hosts)
            })
            .collect()
    };
    let read = |workers: usize| {
        let mut reader = ShardReader::new(workers, None);
        let mut lists: Vec<Vec<Packet>> = (0..workers).map(|_| Vec::new()).collect();
        let mut give = |batch: ShardBatch| lists[batch.shard].extend(batch.packets);
        for (p, hosts) in frames() {
            if let Some(batch) = reader.accept(p, hosts) {
                give(batch);
            }
        }
        let (read, rest) = reader.finish();
        rest.into_iter().for_each(give);
        (read, lists)
    };
    let flow = |lists: &[Vec<Packet>], first: u16| -> Vec<u64> {
        let of_flow = |p: &Packet| {
            let n = u16::from_be_bytes([p.data[0], p.data[1]]);
            n % 7 != 0 && n % 15 == first
        };
        let holding: Vec<&Vec<Packet>> =
            lists.iter().filter(|l| l.iter().any(of_flow)).collect();
        assert_eq!(holding.len(), 1, "one worker sees a host pair");
        holding[0]
            .iter()
            .filter(|p| of_flow(p))
            .map(|p| p.origin.as_ref().map_or(0, |o| o.ordinal))
            .collect()
    };
    let (read_two, lists_two) = read(2);
    let (read_five, lists_five) = read(5);
    assert_eq!((read_two.count, read_five.count), (500, 500));
    assert_eq!((read_two.unshardable, read_five.unshardable), (72, 72));
    assert_eq!(read_two.latest, read_five.latest);
    for first in 0..15 {
        assert_eq!(flow(&lists_two, first), flow(&lists_five, first));
    }
}

#[test]
fn a_limit_is_one_for_the_whole_set() {
    let mut run = SetRun::new(3);
    let mut total = 0;
    while run.next_file().is_some() {
        let frames = (0..60u8).map(|i| (packet(i128::from(i), vec![i]), true)).collect();
        let (read, _) = read_frames(frames, 2, run.budget(Some(100)));
        total += read.count;
        run.settle(FileOutcome::Read(read));
    }
    assert_eq!(total, 100);
    let (progress, tally) = run.totals();
    assert_eq!(progress.count, 100);
    assert_eq!((tally.complete, tally.stopped_early), (1, 1), "the third file is not read");
}

#[test]
fn a_digest_is_stamped_once_and_only_where_there_is_an_origin() {
    let mut bare = packet(1, vec![1, 2, 3]);
    stamp_digest(&mut bare);
    assert!(bare.origin.is_none());
    let mut read = packet(1, vec![1, 2, 3]);
    read.origin = Some(FrameOrigin { ordinal: 7, digest: None });
    stamp_digest(&mut read);
    let first = read.origin;
    assert_eq!(first.and_then(|o| o.digest), Some(frame_digest(&[1, 2, 3])));
    stamp_digest(&mut read);
    assert_eq!(read.origin, first);
}

#[test]
fn a_dispatcher_begins_with_nothing_read() {
    let (progress, tally) = Dispatcher::new(3, 2).totals();
    assert_eq!((progress.count, progress.dropped, progress.unshardable), (0, 0, 0));
    assert!(progress.clock.latest.is_none());
    assert_eq!((tally.given, tally.complete, tally.stopped_early, tally.skipped), (3, 0, 0, 0));
    assert!(!tally.lost);
    assert_eq!((worker_count(0), worker_count(1), worker_count(2), worker_count(9)), (2, 2, 2, 9));
}
