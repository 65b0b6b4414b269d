use sipnab::clock::Moment;
use sipnab::net::{is_broadcast_or_multicast, IpAddr, SocketAddr};
use sipnab::process_isolation::adoption::refuse_all;
use sipnab::process_isolation::handle::{
    book_outcome, log_totals, reap_within, ChildState, KillRefused, KillTally, ReapStep,
    ScannerKillHandle, ServingEnds, Written, SHUTDOWN_GRACE,
};
use sipnab::process_isolation::limits::{PerDstRateLimiter, RateLimiter, MAX_PER_DST_PER_MINUTE};
use sipnab::process_isolation::send::{
    run_step, HeldSockets, LoopStep, RawOutcome, ScannerKillWorker, SendStep,
};
use sipnab::process_isolation::spawn::{
    plan_spawn, worker_args, worker_environment, KillWorkerSpawn, DEFAULT_RATE_LIMIT,
};
use sipnab::process_isolation::worker_process::{FdPlan, SendFd};
use sipnab::process_isolation::wire::{
    read_frame, write_frame, FaultKind, FrameReader, FrameStep, ReadEvent, MAX_FRAME_BYTES,
};
use sipnab::process_isolation::{
    kill_responses_sent, HandedOver, KillCounts, KillRequest, KillResponse, SendCounters, SendPath,
    KILL_OUTCOME_CAPACITY, KILL_REQUEST_CAPACITY,
};
use sipnab::transmit::{CaptureSource, TransmitPermit};

const SECOND: u64 = 1_000_000_000;
const T0: Moment = Moment { nanos: 1_000 * SECOND };

fn at(nanos: u64) -> Moment {
    Moment { nanos: T0.nanos + nanos }
}

fn localhost_v4() -> IpAddr {
    IpAddr::v4(127, 0, 0, 1)
}

fn test_net_v4(host: u8) -> IpAddr {
    IpAddr::v4(192, 0, 2, host)
}

fn test_net_v6(host: u16) -> IpAddr {
    IpAddr::V6(0x2001_0db8_0000_0000_0000_0000_0000_0000 + u128::from(host))
}

fn sample_response() -> Vec<u8> {
    b"SIP/2.0 200 OK\r\nContent-Length: 0\r\n\r\n".to_vec()
}

fn request_to(dst: IpAddr, dst_port: u16, response_bytes: Vec<u8>) -> KillRequest {
    KillRequest::SendResponse {
        dst_addr: dst,
        dst_port,
        src_addr: localhost_v4(),
        src_port: 5060,
        response_bytes,
    }
}

// ── The wire ─────────────────────────────────────────────────────────

/// A request as a message body.
fn encode(request: &KillRequest) -> Vec<u8> {
    format!("{request:?}").into_bytes()
}

fn encode_response(response: &KillResponse) -> Vec<u8> {
    format!("{response:?}").into_bytes()
}

fn a_request(payload: Vec<u8>) -> KillRequest {
    KillRequest::SendResponse {
        dst_addr: test_net_v4(9),
        dst_port: 5060,
        src_addr: IpAddr::V6(1),
        src_port: 5061,
        response_bytes: payload,
    }
}

#[test]
fn a_request_and_a_response_round_trip() {
    let sent = encode(&a_request(b"SIP/2.0 403 Forbidden\r\n\r\n".to_vec()));
    let pipe = write_frame(&sent).expect("write");
    let (back, used) = read_frame(&pipe).expect("read").expect("a frame was written");
    assert_eq!(back, sent);
    assert_eq!(used, pipe.len());

    let sent = encode_response(&KillResponse::Rejected {
        reason: "broadcast destination".to_string(),
    });
    let pipe = write_frame(&sent).expect("write");
    let (back, _) = read_frame(&pipe).expect("read").expect("a frame was written");
    assert_eq!(back, sent);
}

#[test]
fn frames_are_read_one_at_a_time_and_in_order() {
    let mut pipe = Vec::new();
    for reason in ["first", "second", "third"] {
        pipe.extend(write_frame(reason.as_bytes()).expect("write"));
    }
    let mut rest: &[u8] = &pipe;
    let mut seen = Vec::new();
    while let Some((body, used)) = read_frame(rest).expect("read") {
        seen.push(String::from_utf8(body).expect("text"));
        rest = &rest[used..];
    }
    assert_eq!(seen, vec!["first", "second", "third"]);
}

#[test]
fn a_clean_close_reads_as_no_message() {
    let got = read_frame(&[]).expect("a clean close is not an error");
    assert!(got.is_none());
}

#[test]
fn a_truncated_frame_is_an_error_and_not_a_close() {
    let whole = write_frame(&encode(&a_request(vec![0u8; 64]))).expect("write");
    for cut in [1usize, 2, 3, 5, whole.len() - 1] {
        let err = read_frame(&whole[..cut])
            .expect_err("a partial frame must not read as a clean close");
        assert_eq!(err.kind, FaultKind::UnexpectedEof, "cut at {cut}: {}", err.message);
    }
}

#[test]
fn an_oversized_length_is_refused_without_allocating() {
    let hostile = u32::MAX.to_be_bytes().to_vec();
    let err = read_frame(&hostile).expect_err("4 GiB must be refused");
    assert_eq!(err.kind, FaultKind::InvalidData);
    assert!(
        err.message.contains(&MAX_FRAME_BYTES.to_string()),
        "the refusal must name the limit it applied: {}",
        err.message
    );

    let over = u32::try_from(MAX_FRAME_BYTES + 1).expect("fits");
    let err = read_frame(&over.to_be_bytes()).expect_err("one byte over the limit must be refused");
    assert_eq!(err.kind, FaultKind::InvalidData);
}

#[test]
fn the_largest_legitimate_payload_still_fits_a_frame() {
    let widest = u16::MAX as usize - 20 - 8;
    // A byte vector is written as decimal numbers.
    let body = serde_json::to_vec(&vec![0xFFu8; widest]).expect("encodes");
    let pipe = write_frame(&body).expect("the widest legal SIP payload must fit one frame");
    assert!(
        pipe.len() > widest,
        "the encoding cannot be smaller than the bytes it carries"
    );
    let (back, _) = read_frame(&pipe).expect("read").expect("a frame was written");
    let response_bytes: Vec<u8> = serde_json::from_slice(&back).expect("decodes");
    assert_eq!(response_bytes.len(), widest);
    assert!(response_bytes.iter().all(|b| *b == 0xFF));
}

#[test]
fn a_message_over_the_limit_is_refused_before_it_is_written() {
    let body = serde_json::to_vec(&vec![0u8; MAX_FRAME_BYTES]).expect("encodes");
    let err = write_frame(&body).expect_err("a byte vector this wide cannot encode inside one frame");
    assert_eq!(err.kind, FaultKind::InvalidData);
    assert!(write_frame(&vec![0u8; MAX_FRAME_BYTES]).is_ok());
    assert!(write_frame(&vec![0u8; MAX_FRAME_BYTES + 1]).is_err());
}

#[test]
fn an_interrupted_read_is_retried_rather_than_reported() {
    let pipe = write_frame(b"RateLimited").expect("encode");
    let mut reader = FrameReader::new();
    let mut rest: &[u8] = &pipe;
    let mut interrupted = false;
    loop {
        let event = if !interrupted {
            interrupted = true;
            ReadEvent::Interrupted
        } else {
            let n = reader.wants().min(rest.len()).min(3);
            let (now, later) = rest.split_at(n);
            rest = later;
            ReadEvent::Bytes(now.to_vec())
        };
        match reader.feed(event) {
            FrameStep::More => {}
            FrameStep::Frame(body) => {
                assert_eq!(body, b"RateLimited");
                break;
            }
            other => panic!("retried, got {other:?}"),
        }
    }
    assert!(interrupted, "the interruption really happened");
}

#[test]
fn a_failing_read_is_an_error_not_a_clean_close() {
    match FrameReader::new().feed(ReadEvent::Failed("broken pipe".to_string())) {
        FrameStep::Fault(e) => {
            assert_eq!(e.kind, FaultKind::Broken);
            assert_eq!(e.message, "broken pipe");
        }
        other => panic!("a dead pipe, got {other:?}"),
    }
    assert!(matches!(FrameReader::new().feed(ReadEvent::End), FrameStep::CleanEnd));
}

// ── The permit ───────────────────────────────────────────────────────

fn live_permit() -> TransmitPermit {
    TransmitPermit::for_source(&CaptureSource::Live { device: "lo".to_string() })
        .expect("a live source must grant a transmit permit")
}

#[test]
fn a_file_source_yields_no_permit_so_no_worker_can_be_spawned() {
    let file = CaptureSource::File { paths: vec!["/tmp/evidence.pcap".to_string()] };
    assert!(
        TransmitPermit::for_source(&file).is_none(),
        "spawning a worker takes a TransmitPermit, so a None here \
         means no send descriptor can exist on a file run"
    );
}

#[test]
fn a_spawn_is_planned_from_what_is_open() {
    let spawn = KillWorkerSpawn::from_current_exe(Ok("/bin/sipnab".to_string()), None, None, "warn")
        .expect("the program is known");
    let plan = plan_spawn(&spawn, Some(41), None, Some(40), None, &live_permit());
    assert_eq!(plan.descriptors, vec![(SendFd::RawV4, 41), (SendFd::UdpV4, 40)]);
    assert_eq!(plan.placement.moves, vec![(41, 3), (40, 5)]);
    assert_eq!(plan.placement.vacant, vec![4, 6]);
    assert_eq!(
        plan.args,
        vec![
            "--rate-limit", "10", "--send-fds", "raw4,udp4", "--run-as", "nobody", "--log-level",
            "warn"
        ]
    );
    assert_eq!(
        KillWorkerSpawn::<String>::from_current_exe(Err("gone".to_string()), None, None, "warn").unwrap_err(),
        "gone"
    );
    let set = KillWorkerSpawn {
        rate_limit: Some(3),
        run_as: Some("capture".to_string()),
        ..spawn
    };
    let args = worker_args(&set, FdPlan::new(&[]));
    assert_eq!((args.rate_limit, args.run_as.as_str()), (3, "capture"));
    assert_eq!(DEFAULT_RATE_LIMIT, 10);
}

// ── The worker's decisions ───────────────────────────────────────────

fn worker(raw: bool, udp_v4: bool, udp_v6: bool, rate: u32) -> ScannerKillWorker {
    ScannerKillWorker::new(rate, HeldSockets { raw, udp_v4, udp_v6 }, T0)
}

fn answer(step: SendStep) -> KillResponse {
    match step {
        SendStep::Answer(response) => response,
        other => panic!("nothing may be sent, got {other:?}"),
    }
}

#[test]
fn rate_limiter_enforces_limit() {
    let mut worker = worker(false, false, false, 10);
    let mut outcomes = Vec::new();
    for i in 0..15u8 {
        let dst = test_net_v4(i.wrapping_add(1));
        outcomes.push(answer(worker.process_send(dst, localhost_v4(), &sample_response(), T0)));
    }
    let admitted = outcomes.iter().filter(|o| matches!(o, KillResponse::Error { .. })).count();
    let limited = outcomes.iter().filter(|o| matches!(o, KillResponse::RateLimited)).count();
    assert_eq!(admitted, 10, "should admit exactly 10 in one window");
    assert_eq!(limited, 5, "should rate-limit the remaining 5");
}

fn decide(dst: IpAddr, body: &[u8]) -> KillResponse {
    answer(worker(false, false, false, 10).process_send(dst, localhost_v4(), body, T0))
}

#[test]
fn broadcast_address_rejected() {
    let outcome = decide(IpAddr::v4(255, 255, 255, 255), &sample_response());
    assert!(
        matches!(outcome, KillResponse::Rejected { .. }),
        "broadcast should be rejected, got {outcome:?}"
    );
    assert_eq!(
        outcome,
        KillResponse::Rejected {
            reason: "rejected broadcast/multicast destination: 255.255.255.255".to_string()
        }
    );
}

#[test]
fn multicast_v4_rejected() {
    let outcome = decide(IpAddr::v4(224, 0, 0, 1), &sample_response());
    assert!(
        matches!(outcome, KillResponse::Rejected { .. }),
        "multicast should be rejected, got {outcome:?}"
    );
}

#[test]
fn multicast_v6_rejected() {
    let multicast_v6 = IpAddr::V6(0xff02 << 112 | 1);
    let outcome = decide(multicast_v6, &sample_response());
    assert!(
        matches!(outcome, KillResponse::Rejected { .. }),
        "IPv6 multicast should be rejected, got {outcome:?}"
    );
}

#[test]
fn empty_response_rejected() {
    let outcome = decide(localhost_v4(), &[]);
    assert!(
        matches!(outcome, KillResponse::Rejected { .. }),
        "empty response should be rejected, got {outcome:?}"
    );
}

#[test]
fn a_send_goes_through_the_socket_of_its_family() {
    let mut w = worker(false, true, false, 10);
    assert!(matches!(
        w.process_send(localhost_v4(), localhost_v4(), &sample_response(), T0),
        SendStep::SendUdp { v6: false }
    ));
    assert_eq!(
        w.after_udp(localhost_v4(), 5060, Ok(())),
        KillResponse::Sent { path: SendPath::Ephemeral }
    );
    assert_eq!(
        w.after_udp(localhost_v4(), 5060, Err("EPERM".to_string())),
        KillResponse::Error { message: "send to 127.0.0.1:5060 failed: EPERM".to_string() }
    );
    let mut w = worker(true, true, true, 10);
    assert!(matches!(
        w.process_send(test_net_v6(1), test_net_v6(2), &sample_response(), T0),
        SendStep::SendRaw { v6: true }
    ));
    assert_eq!(
        answer(w.after_raw(test_net_v6(1), RawOutcome::Sent)),
        KillResponse::Sent { path: SendPath::Raw }
    );
    assert!(matches!(
        w.after_raw(test_net_v6(1), RawOutcome::NotBuilt),
        SendStep::SendUdp { v6: true }
    ));
}

#[test]
fn a_failed_spoofed_send_falls_back_to_the_ephemeral_path() {
    for (dst, src) in [
        (test_net_v4(10), test_net_v4(20)),
        (test_net_v6(10), test_net_v6(20)),
    ] {
        let mut worker = worker(true, false, false, 100);
        assert!(matches!(
            worker.process_send(dst, src, &sample_response(), T0),
            SendStep::SendRaw { .. }
        ));
        let outcome = answer(worker.after_raw(dst, RawOutcome::Failed));
        let named = dst.to_text();
        assert_eq!(
            outcome,
            KillResponse::Error { message: format!("no UDP socket available for {named}") },
            "the raw failure must reach the ephemeral path for {named}"
        );
    }
}

#[test]
fn mixed_address_families_skip_spoofing_and_take_the_ephemeral_path() {
    let mut worker = worker(true, false, false, 100);
    let dst = test_net_v4(11);
    let outcome = answer(worker.process_send(dst, test_net_v6(21), &sample_response(), T0));
    let named = dst.to_text();
    assert_eq!(
        outcome,
        KillResponse::Error { message: format!("no UDP socket available for {named}") }
    );
}

#[test]
fn an_unsendable_request_is_published_as_an_error() {
    let mut worker = worker(false, false, false, 100);
    match run_step(Some(request_to(test_net_v4(12), 5060, sample_response()))) {
        LoopStep::Process { dst_addr, src_addr, response_bytes, .. } => {
            let outcome = answer(worker.process_send(dst_addr, src_addr, &response_bytes, T0));
            assert!(matches!(outcome, KillResponse::Error { .. }));
        }
        other => panic!("a request is decided on, got {other:?}"),
    }
    assert!(matches!(run_step(Some(KillRequest::Shutdown)), LoopStep::Exit));
}

#[test]
fn the_worker_exits_when_no_sender_can_reach_it() {
    assert!(
        matches!(run_step(None), LoopStep::Exit),
        "the worker must return when its channel disconnects"
    );
}

#[test]
fn broadcast_multicast_detection() {
    assert!(is_broadcast_or_multicast(IpAddr::v4(255, 255, 255, 255)));
    assert!(is_broadcast_or_multicast(IpAddr::v4(224, 0, 0, 1)));
    assert!(is_broadcast_or_multicast(IpAddr::V6(0xff02 << 112 | 1)));
    assert!(!is_broadcast_or_multicast(IpAddr::v4(10, 0, 0, 1)));
    assert!(!is_broadcast_or_multicast(IpAddr::V6(1)));
}

#[test]
fn addresses_are_written_as_usual() {
    let cases: [(u128, &str); 9] = [
        (0, "::"),
        (1, "::1"),
        (0xff02 << 112 | 1, "ff02::1"),
        (0x2001_0db8_0000_0000_0000_0000_0000_000a, "2001:db8::a"),
        (0x2001_0db8_0000_0001_0000_0000_0000_000a, "2001:db8:0:1::a"),
        (0x0001_0000_0002_0000_0003_0000_0004_0000, "1:0:2:0:3:0:4:0"),
        (0x0001_0000_0000_0002_0000_0000_0000_0003, "1:0:0:2::3"),
        (0xffff_c000_0201, "::ffff:192.0.2.1"),
        (0x0001_0000_0000_0000_0000_0000_0000_0000, "1::"),
    ];
    for (bits, text) in cases {
        assert_eq!(IpAddr::V6(bits).to_text(), text);
    }
    assert_eq!(IpAddr::v4(10, 0, 255, 1).to_text(), "10.0.255.1");
    assert_eq!(SocketAddr { ip: IpAddr::V6(1), port: 53 }.to_text(), "[::1]:53");
    assert_eq!(SocketAddr { ip: IpAddr::v4(1, 2, 3, 4), port: 5060 }.to_text(), "1.2.3.4:5060");
}

// ── The limits ───────────────────────────────────────────────────────

#[test]
fn per_dst_cleanup_is_amortized_to_once_per_second() {
    let mut lim = PerDstRateLimiter::new();
    let stale_a = IpAddr::v4(203, 0, 113, 7);
    let stale_b = IpAddr::v4(203, 0, 113, 8);

    lim.allow(stale_a, T0);
    lim.cleanup_if_due(at(200 * SECOND));
    assert_eq!(lim.remembered(), 0, "first due cleanup must sweep the stale bucket");

    lim.allow(stale_b, T0);
    lim.cleanup_if_due(at(200 * SECOND + SECOND / 2));
    assert_eq!(
        lim.remembered(),
        1,
        "cleanup within the same 1s window must be skipped (amortized)"
    );

    lim.cleanup_if_due(at(202 * SECOND));
    assert_eq!(lim.remembered(), 0, "cleanup must run again once ≥1s has elapsed");
}

#[test]
fn the_per_destination_cap_answers_three_times_and_refuses_the_fourth() {
    let mut lim = PerDstRateLimiter::new();
    let victim = IpAddr::v4(203, 0, 113, 9);
    for attempt in 1..=3 {
        assert!(lim.allow(victim, T0), "response {attempt} of 3 must be allowed");
    }
    assert!(
        !lim.allow(victim, T0),
        "a 4th response to one destination inside a minute must be refused"
    );
    let bystander = IpAddr::v4(203, 0, 113, 10);
    assert!(
        lim.allow(bystander, T0),
        "the cap is per destination, so a different destination must keep \
         its own budget"
    );
}

#[test]
fn rate_limiter_unit_allows_within_limit() {
    let mut limiter = RateLimiter::new(5, T0);
    for _ in 0..5 {
        assert!(limiter.allow(T0));
    }
    assert!(!limiter.allow(T0), "6th request should be rejected");
}

#[test]
fn the_global_limit_resets_when_its_window_rolls_over() {
    let mut lim = RateLimiter::new(1, T0);
    assert!(lim.allow(T0));
    assert!(!lim.allow(T0), "one per window");
    assert!(lim.allow(at(2 * SECOND)), "a new window admits again");
    assert!(!lim.allow(at(2 * SECOND)), "and is limited in turn");
}

#[test]
fn a_destinations_allowance_returns_after_its_minute() {
    let mut lim = PerDstRateLimiter::new();
    let dst = test_net_v4(30);
    for _ in 0..MAX_PER_DST_PER_MINUTE {
        assert!(lim.allow(dst, T0));
    }
    assert!(!lim.allow(dst, at(59 * SECOND)), "capped within the minute");
    for _ in 0..MAX_PER_DST_PER_MINUTE {
        assert!(lim.allow(dst, at(61 * SECOND)), "a new minute admits again, counting from one");
    }
    assert!(!lim.allow(dst, at(61 * SECOND)));
}

// ── The handle ───────────────────────────────────────────────────────

fn attached() -> (ScannerKillHandle, ServingEnds) {
    ScannerKillHandle::attach(Vec::new())
}

fn deliver(handle: &mut ScannerKillHandle, counters: &mut SendCounters, ends: &mut ServingEnds, outcome: KillResponse) -> Option<String> {
    handle.shared.take_outcome(counters, &mut ends.outcomes, outcome)
}

#[test]
fn handle_send_and_receive() {
    let (mut handle, mut ends) = attached();
    let mut counters = SendCounters::new();
    let mut worker = worker(false, true, false, 10);

    let sent = handle.send_kill(request_to(localhost_v4(), 5099, sample_response()));
    assert!(sent.result.is_ok(), "send should succeed");

    match run_step(ends.requests.try_recv().ok()) {
        LoopStep::Process { dst_addr, dst_port, src_addr, response_bytes, .. } => {
            assert_eq!(&response_bytes, &sample_response());
            assert_eq!((dst_addr, dst_port), (localhost_v4(), 5099));
            assert!(matches!(
                worker.process_send(dst_addr, src_addr, &response_bytes, T0),
                SendStep::SendUdp { v6: false }
            ));
            let outcome = worker.after_udp(dst_addr, dst_port, Ok(()));
            deliver(&mut handle, &mut counters, &mut ends, outcome);
        }
        other => panic!("the request must reach the worker, got {other:?}"),
    }
    assert_eq!(
        handle.try_recv_response(),
        Some(KillResponse::Sent { path: SendPath::Ephemeral })
    );
    let counts = handle.counts();
    assert_eq!((counts.accepted, counts.sent), (1, 1), "{counts:?}");
    assert_eq!(kill_responses_sent(&counters), (0, 1));
}

#[test]
fn a_refused_request_is_counted_not_silently_dropped() {
    let (mut handle, _ends) = attached();
    let offer = |handle: &mut ScannerKillHandle| {
        handle.send_kill(request_to(localhost_v4(), 59_996, sample_response()))
    };
    loop {
        let sent = offer(&mut handle);
        match sent.result {
            Ok(()) => {}
            Err(KillRefused::Full(_)) => {
                assert!(sent.notice.is_some(), "the first refusal is said");
                break;
            }
            Err(KillRefused::Disconnected(_)) => panic!("the worker is there"),
        }
    }
    let before = handle.counts().dropped_requests;
    let mut refused = 0usize;
    for _ in 0..2 {
        let sent = offer(&mut handle);
        if matches!(sent.result, Err(KillRefused::Full(_))) {
            refused += 1;
        }
        assert!(sent.notice.is_none(), "it is said once");
    }
    assert_eq!(before, 1, "the first refusal is counted");
    assert_eq!(
        refused, 2,
        "a full queue stays full, so the next two must be refused as Full, \
         not reported as a dead worker"
    );
    let counts = handle.counts();
    assert_eq!(counts.dropped_requests, 3, "every refusal must be counted: {counts:?}");
    assert!(counts.any_dropped(), "a dropped kill response must be visible: {counts:?}");
    assert_eq!(counts.accepted, KILL_REQUEST_CAPACITY as u64);
    assert!(
        !handle.defense_disabled(),
        "a full queue is backpressure, not a dead worker — the defense is \
         still armed"
    );
}

#[test]
fn is_alive_true_for_running_worker() {
    let (mut handle, _ends) = attached();
    assert!(handle.is_alive(None, true), "a serving worker must be alive");
    assert!(!handle.defense_disabled());
    handle.begin_shutdown();
    handle.shared.outcomes_ended();
    assert!(!handle.is_alive(None, false), "after shutdown the worker is gone");
    assert!(handle.is_alive(Some(true), false), "a child is asked itself");
}

#[test]
fn a_dead_worker_disables_the_defense_and_counts_what_was_in_flight() {
    let (mut handle, ends) = attached();
    for _ in 0..3 {
        assert!(handle
            .send_kill(request_to(localhost_v4(), 9, sample_response()))
            .result
            .is_ok());
    }
    drop(ends);
    let said = handle.shared.outcomes_ended();
    assert!(said.is_some(), "the death is said");
    assert!(handle.defense_disabled());
    let dead = handle.counts();
    assert_eq!(dead.accepted, 3);
    assert_eq!(
        dead.lost_to_worker_exit, 3,
        "every accepted request without an outcome is lost with the worker: {dead:?}"
    );
    assert!(!handle.is_alive(None, false), "a dead worker must report not-alive");

    let result = handle.send_kill(request_to(localhost_v4(), 9, sample_response())).result;
    assert!(
        matches!(result, Err(KillRefused::Disconnected(_))),
        "a send to a dead worker must fail, not vanish: {result:?}"
    );
    let after = handle.counts();
    assert_eq!(
        after.accepted, 3,
        "a refused send is not accepted, so the ledger still closes: {after:?}"
    );
}

#[test]
fn a_kill_flood_never_blocks_the_sender() {
    let (mut handle, _ends) = attached();
    let flood = 8 * KILL_REQUEST_CAPACITY + 2_000;
    let (mut accepted, mut refused) = (0usize, 0usize);
    for _ in 0..flood {
        match handle.send_kill(request_to(localhost_v4(), 59_999, sample_response())).result {
            Ok(()) => accepted += 1,
            Err(KillRefused::Full(_)) => refused += 1,
            Err(KillRefused::Disconnected(_)) => {}
        }
    }
    assert!(accepted > 0, "the flood must actually reach the queue");
    assert!(refused > 0, "a stopped worker must fill the queue");
    let counts = handle.counts();
    assert_eq!(
        counts.dropped_requests, refused as u64,
        "every refusal must be counted, not silently dropped: {counts:?}"
    );
    assert_eq!(
        accepted as u64 + counts.dropped_requests,
        flood as u64,
        "every offered request must be either accepted or counted as \
         dropped; accepted={accepted} counts={counts:?}"
    );
    assert!(
        !handle.defense_disabled(),
        "a full queue is backpressure, not a dead worker — the defense is \
         still armed"
    );
}

#[test]
fn outcomes_are_counted_even_when_nothing_reads_the_stream() {
    let total = 2 * KILL_OUTCOME_CAPACITY;
    let (mut handle, mut ends) = attached();
    let mut counters = SendCounters::new();
    let mut notices = 0;
    for _ in 0..total {
        let sent = handle.send_kill(request_to(localhost_v4(), 59_998, sample_response()));
        assert!(sent.result.is_ok());
        let request = ends.requests.try_recv().ok();
        let refused = refuse_all(request, "test").expect("a request is answered");
        if deliver(&mut handle, &mut counters, &mut ends, refused).is_some() {
            notices += 1;
        }
    }
    let counts = handle.counts();
    assert_eq!(counts.outcomes(), total as u64);
    assert_eq!(counts.unobserved_outcomes, (total - KILL_OUTCOME_CAPACITY) as u64);
    assert_eq!(notices, 1, "the overflow is said once");
    assert!(
        counts.any_dropped(),
        "an overflowing stream must be visible, not silent: {counts:?}"
    );
    assert_eq!(counts.rejected, total as u64);
}

#[test]
fn shutdown_returns_even_when_the_request_queue_is_full() {
    let (mut handle, mut ends) = attached();
    let mut counters = SendCounters::new();
    while handle
        .send_kill(request_to(localhost_v4(), 59_997, sample_response()))
        .result
        .is_ok()
    {}
    handle.begin_shutdown();
    // What was queued is drained; half of it is answered before the pipe goes.
    let mut n = 0;
    while let Ok(request) = ends.requests.try_recv() {
        n += 1;
        if n % 2 == 0 {
            let refused = refuse_all(Some(request), "test").expect("a request is answered");
            deliver(&mut handle, &mut counters, &mut ends, refused);
        }
    }
    handle.shared.outcomes_ended();
    let counts = handle.counts();
    assert_eq!(counts.lost_to_worker_exit, 128);
    assert_eq!(
        counts.accepted,
        counts.outcomes() + counts.lost_to_worker_exit,
        "every accepted request is accounted for once the worker is gone: {counts:?}"
    );
    assert!(!handle.defense_disabled());
}

#[test]
fn every_outcome_class_is_booked_in_its_own_counter() {
    let mut tally = KillTally::new();
    tally.record(&KillResponse::Sent { path: SendPath::Ephemeral });
    for _ in 0..2 {
        tally.record(&KillResponse::RateLimited);
    }
    tally.record(&KillResponse::Rejected { reason: "broadcast".to_string() });
    for _ in 0..3 {
        tally.record(&KillResponse::Error { message: "no socket".to_string() });
    }
    let c = tally.snapshot();
    assert_eq!((c.sent, c.rate_limited, c.rejected, c.errored), (1, 2, 1, 3));
    assert_eq!(c.outcomes(), 7);
    assert!(!c.any_dropped());

    tally.note_unobserved_outcome();
    let c = tally.snapshot();
    assert_eq!(c.unobserved_outcomes, 1);
    assert!(c.any_dropped());
    assert_eq!(
        c.outcomes(),
        7,
        "an outcome nobody watched is still one outcome, not two"
    );
}

#[test]
fn a_sent_outcome_moves_the_counter_for_its_own_path() {
    let mut tally = KillTally::new();
    let mut counters = SendCounters::new();
    book_outcome(&mut tally, &mut counters, &KillResponse::Sent { path: SendPath::Raw });
    assert_eq!(counters.read(), (1, 0), "a spoofed send is counted as raw");
    book_outcome(&mut tally, &mut counters, &KillResponse::Sent { path: SendPath::Ephemeral });
    assert_eq!(
        counters.read(),
        (1, 1),
        "an ephemeral send is counted as ephemeral, and not as raw"
    );
    book_outcome(&mut tally, &mut counters, &KillResponse::RateLimited);
    assert_eq!(counters.read(), (1, 1), "only a send moves a send counter");
    let c = tally.snapshot();
    assert_eq!((c.sent, c.rate_limited), (2, 1), "and the class is booked too");
}

#[test]
fn every_accepted_request_ends_in_one_class_or_is_lost_with_the_worker() {
    let mut tally = KillTally::new();
    for _ in 0..6 {
        tally.note_accepted();
    }
    tally.note_accepted();
    tally.unaccept();
    for outcome in [
        KillResponse::Sent { path: SendPath::Ephemeral },
        KillResponse::RateLimited,
        KillResponse::Rejected { reason: "broadcast".to_string() },
        KillResponse::Error { message: "no socket".to_string() },
    ] {
        book_outcome(&mut tally, &mut SendCounters::new(), &outcome);
    }

    let live = tally.snapshot();
    assert_eq!(live.accepted, 6, "a request the queue refused is un-accepted");
    assert_eq!(live.outcomes(), 4);
    assert_eq!(
        live.lost_to_worker_exit, 0,
        "two requests are in flight, not lost, while the worker lives"
    );

    tally.note_worker_gone();
    let dead = tally.snapshot();
    assert_eq!(dead.lost_to_worker_exit, 2, "{dead:?}");
    assert_eq!(
        dead.accepted,
        dead.outcomes() + dead.lost_to_worker_exit,
        "the ledger closes: {dead:?}"
    );
    assert!(
        dead.any_dropped(),
        "requests lost with the worker must be visible: {dead:?}"
    );
}

#[test]
fn a_kill_offered_after_shutdown_is_refused_and_disables_the_defense() {
    let (mut handle, _ends) = attached();
    handle.begin_shutdown();
    handle.shared.outcomes_ended();
    assert!(!handle.defense_disabled(), "an orderly stop is not a failure");

    let err = handle
        .send_kill(KillRequest::Shutdown)
        .result
        .expect_err("no worker is left to take it");
    assert!(matches!(err, KillRefused::Disconnected(KillRequest::Shutdown)));
    assert!(handle.defense_disabled());
    assert!(handle.send_kill(KillRequest::Shutdown).result.is_err());
    assert!(handle.defense_disabled(), "and it stays disabled");
}

#[test]
fn shutdown_exits_cleanly() {
    let (mut handle, ends) = attached();
    handle.begin_shutdown();
    let asked = ends.requests.try_recv().ok();
    assert!(matches!(asked, Some(KillRequest::Shutdown)));
    assert!(refuse_all(asked, "test").is_none());
    assert!(
        refuse_all(ends.requests.try_recv().ok(), "test").is_none(),
        "the peer must see end of stream when the handle shuts down"
    );
    handle.shared.outcomes_ended();
    assert!(!handle.defense_disabled());
}

#[test]
fn a_request_too_large_to_frame_is_booked_as_an_error() {
    let (mut handle, mut ends) = attached();
    let mut counters = SendCounters::new();
    assert!(handle
        .send_kill(request_to(localhost_v4(), 9, vec![0u8; MAX_FRAME_BYTES]))
        .result
        .is_ok());
    assert!(handle
        .send_kill(request_to(localhost_v4(), 9, sample_response()))
        .result
        .is_ok());
    while let Ok(request) = ends.requests.try_recv() {
        let written = match write_frame(&encode(&request)) {
            Ok(_) => Written::Whole,
            Err(e) => Written::Unframeable(e.message),
        };
        let whole = matches!(written, Written::Whole);
        assert!(handle.shared.forwarded(true, written), "the pipe is still usable");
        if whole {
            let refused = refuse_all(Some(request), "test").expect("a request is answered");
            deliver(&mut handle, &mut counters, &mut ends, refused);
        }
    }
    let counts = handle.counts();
    assert_eq!(
        (counts.accepted, counts.errored, counts.rejected),
        (2, 1, 1),
        "{counts:?}"
    );
    assert!(!handle.shared.forwarded(true, Written::PipeClosed));
}

#[test]
fn the_worker_inherits_only_its_own_environment_variables() {
    let parent: Vec<(String, String)> = [
        "SIPNAB_API_KEY",
        "SIPNAB_API_SIGNING_KEY",
        "SIPNAB_MCP_SIGNING_KEY",
        "SIPNAB_HEP_AUTH",
        "SIPNAB_MCP_TOKEN",
        "HOME",
        "PATH",
        "SIPNAB_LOG",
        "LLVM_PROFILE_FILE",
        "NO_COLOR",
        "RUST_BACKTRACE",
        "LD_LIBRARY_PATH",
        "LD_PRELOAD",
        "TSAN_OPTIONS",
    ]
    .into_iter()
    .map(|name| (name.to_string(), "fixture".to_string()))
    .collect();
    let mut kept: Vec<String> =
        worker_environment(parent).into_iter().map(|(name, _)| name).collect();
    kept.sort();
    assert_eq!(
        kept,
        vec![
            "LD_LIBRARY_PATH",
            "LLVM_PROFILE_FILE",
            "NO_COLOR",
            "RUST_BACKTRACE",
            "SIPNAB_LOG",
            "TSAN_OPTIONS",
        ],
        "what starting and logging the same binary needs, and no credential; \
         LD_PRELOAD stays behind too, since nothing the worker runs needs it"
    );
}

#[test]
fn totals_are_put_into_words() {
    let clean = KillCounts {
        sent: 4,
        rate_limited: 3,
        rejected: 2,
        errored: 1,
        dropped_requests: 0,
        unobserved_outcomes: 0,
        accepted: 10,
        lost_to_worker_exit: 0,
    };
    assert_eq!(
        log_totals(&clean),
        (
            "Scanner-kill totals: 4 sent, 3 rate-limited, 2 rejected, 1 failed".to_string(),
            false
        )
    );
    let lossy = KillCounts { dropped_requests: 5, lost_to_worker_exit: 6, ..clean };
    let (text, warn) = log_totals(&lossy);
    assert!(warn);
    assert!(text.contains("; 5 request(s) dropped"), "{text}");
    assert!(text.contains("6 lost with the worker process"), "{text}");
}

#[test]
fn a_worker_that_stays_is_killed_after_its_grace() {
    let deadline = at(SHUTDOWN_GRACE);
    assert_eq!(reap_within(ChildState::Exited, T0, deadline), ReapStep::Done);
    assert_eq!(reap_within(ChildState::Running, T0, deadline), ReapStep::LookAgain);
    assert_eq!(reap_within(ChildState::Running, deadline, deadline), ReapStep::Kill);
    assert_eq!(reap_within(ChildState::Unknown, T0, deadline), ReapStep::Kill);
}

#[test]
fn the_handle_names_what_it_handed_over() {
    let given = vec![HandedOver { kind: "udp4", inode: 42 }];
    let (handle, _ends) = ScannerKillHandle::attach(given.clone());
    assert_eq!(handle.handed_over(), &given);
}

#[test]
fn exactly_the_request_is_offered_and_nothing_after_a_shutdown() {
    let (mut handle, ends) = attached();
    let sent = handle.send_kill(request_to(localhost_v4(), 5099, sample_response()));
    assert!(sent.result.is_ok());
    match ends.requests.try_recv() {
        Ok(KillRequest::SendResponse { dst_port, response_bytes, .. }) => {
            assert_eq!(dst_port, 5099);
            assert_eq!(response_bytes, sample_response());
        }
        other => panic!("the request must be queued, got {other:?}"),
    }
    assert!(ends.requests.try_recv().is_err(), "it is queued once");
    handle.begin_shutdown();
    handle.begin_shutdown();
    assert!(matches!(ends.requests.try_recv(), Ok(KillRequest::Shutdown)));
    assert!(ends.requests.try_recv().is_err(), "a second shutdown asks nothing");
    let refused = handle.send_kill(request_to(localhost_v4(), 5099, sample_response()));
    assert!(matches!(refused.result, Err(KillRefused::Disconnected(_))));
}
