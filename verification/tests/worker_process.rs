use sipnab::net::IpAddr;
use sipnab::process_isolation::adoption::{
    adoption_order, caps_all_clear, check_adoption, descriptor_matches, exit_code, harden, refusal,
    refuse_all, HardenEvent, HardenNext, HardenStep, Placement, Probe, SendSockets, SocketFamily,
    SocketType, WorkerEnd,
};
use sipnab::process_isolation::worker_process::{
    FdPlan, SendFd, WorkerArgs, FIRST_FREE_FD, KILL_WORKER_ARG,
};
use sipnab::process_isolation::{KillRequest, KillResponse};

#[test]
fn every_send_descriptor_has_its_own_fixed_slot_above_stdio() {
    let slots: Vec<i32> = SendFd::all().iter().map(|k| k.slot()).collect();
    assert_eq!(
        slots,
        vec![3, 4, 5, 6],
        "the worker adopts these numbers, so they are the contract between \
         the two processes and must not move"
    );
    assert_eq!(FIRST_FREE_FD, 7);
    assert_eq!(KILL_WORKER_ARG, "--internal-kill-worker");
}

#[test]
fn the_plan_names_exactly_the_descriptors_that_exist() {
    let unprivileged = FdPlan::new(&[SendFd::UdpV4, SendFd::UdpV6]);
    assert_eq!(unprivileged.render(), "udp4,udp6");
    assert!(!unprivileged.contains(SendFd::RawV4));
    assert!(unprivileged.contains(SendFd::UdpV6));

    let spoofing = FdPlan::new(&[SendFd::UdpV4, SendFd::RawV4]);
    assert_eq!(
        spoofing.render(),
        "raw4,udp4",
        "rendered in slot order, whatever order the kinds arrived in"
    );

    let nothing = FdPlan::new(&[]);
    assert!(nothing.is_empty());
    assert_eq!(
        nothing.render(),
        "none",
        "an empty plan is spelled out, never an empty argument a parser \
         could read as missing"
    );
}

#[test]
fn a_plan_survives_the_command_line() {
    for kinds in [
        vec![],
        vec![SendFd::UdpV4],
        vec![SendFd::RawV6, SendFd::UdpV4, SendFd::UdpV6],
        SendFd::all().to_vec(),
    ] {
        let plan = FdPlan::new(&kinds);
        assert_eq!(
            FdPlan::parse(&plan.render()),
            Ok(plan.clone()),
            "{kinds:?} did not survive render/parse"
        );
    }
}

#[test]
fn a_send_fds_value_the_parent_never_writes_is_refused() {
    for bad in ["", "udp5", "udp4,", "udp4,udp4", "raw4,none", "UDP4"] {
        assert!(
            FdPlan::parse(bad).is_err(),
            "{bad:?} must be refused: adopting a descriptor the parent did \
             not place would wrap whatever happens to sit at that number"
        );
    }
}

fn some_args() -> WorkerArgs {
    WorkerArgs {
        rate_limit: 7,
        send_fds: FdPlan::new(&[SendFd::RawV4, SendFd::UdpV6]),
        run_as: "nobody".to_string(),
        log_level: "warn".to_string(),
    }
}

#[test]
fn worker_arguments_survive_the_command_line() {
    let args = some_args();
    let rendered = args.to_args();
    assert_eq!(
        rendered,
        vec![
            "--rate-limit",
            "7",
            "--send-fds",
            "raw4,udp6",
            "--run-as",
            "nobody",
            "--log-level",
            "warn"
        ]
    );
    assert_eq!(WorkerArgs::parse(&rendered), Ok(args));
}

#[test]
fn a_missing_duplicated_or_unknown_worker_argument_is_refused() {
    let full = some_args().to_args();
    for flag in ["--rate-limit", "--send-fds", "--run-as", "--log-level"] {
        let at = full.iter().position(|a| a == flag).expect("rendered");
        let mut missing = full.clone();
        missing.drain(at..at + 2);
        let err = WorkerArgs::parse(&missing).expect_err("a flag is missing");
        assert!(err.contains(flag), "the refusal must name {flag}: {err}");

        let mut twice = full.clone();
        twice.extend_from_slice(&full[at..at + 2]);
        let err = WorkerArgs::parse(&twice).expect_err("a flag is repeated");
        assert!(err.contains(flag), "the refusal must name {flag}: {err}");
    }
    let mut unknown = full.clone();
    unknown.push("--kill-scanner".to_string());
    assert!(WorkerArgs::parse(&unknown).is_err());

    let mut dangling = full.clone();
    dangling.push("--rate-limit".to_string());
    assert!(
        WorkerArgs::parse(&dangling).is_err(),
        "a flag with no value"
    );

    let mut not_a_number = full;
    let at = not_a_number
        .iter()
        .position(|a| a == "--rate-limit")
        .expect("rendered");
    not_a_number[at + 1] = "ten".to_string();
    assert!(WorkerArgs::parse(&not_a_number).is_err());
}

#[test]
fn refused_values_are_quoted_with_their_escapes() {
    let err = FdPlan::parse("a\"\n").unwrap_err();
    assert!(err.contains(&format!("{:?}", "a\"\n")), "{err}");
}

#[test]
fn only_a_descriptor_of_the_promised_family_and_type_is_adopted() {
    let expected = [
        (SendFd::RawV4, SocketFamily::Inet, SocketType::Raw),
        (SendFd::RawV6, SocketFamily::Inet6, SocketType::Raw),
        (SendFd::UdpV4, SocketFamily::Inet, SocketType::Dgram),
        (SendFd::UdpV6, SocketFamily::Inet6, SocketType::Dgram),
    ];
    for (kind, family, sock_type) in expected {
        assert!(
            descriptor_matches(kind, family, sock_type),
            "{kind:?} must accept its own shape"
        );
    }
    let stream = SocketType::Other(libc::SOCK_STREAM);
    let unix = SocketFamily::Other(libc::AF_UNIX);
    for kind in SendFd::all() {
        for (family, sock_type) in [
            (SocketFamily::Inet, stream),
            (SocketFamily::Inet6, stream),
            (unix, SocketType::Dgram),
        ] {
            assert!(
                !descriptor_matches(kind, family, sock_type),
                "{kind:?} must refuse family {family:?} type {sock_type:?}"
            );
        }
        for (other, family, sock_type) in expected {
            if other != kind {
                assert!(
                    !descriptor_matches(kind, family, sock_type),
                    "{kind:?} must refuse the shape of {other:?}"
                );
            }
        }
    }
}

#[test]
fn a_descriptor_is_adopted_only_after_it_was_probed() {
    let probe = |family, sock_type| Probe::Socket {
        family,
        sock_type,
        family_number: 2,
        type_number: 1,
    };
    assert!(check_adoption(SendFd::UdpV4, probe(SocketFamily::Inet, SocketType::Dgram)).is_ok());
    let wrong = check_adoption(SendFd::UdpV4, probe(SocketFamily::Inet, SocketType::Other(1)));
    assert!(wrong.unwrap_err().contains("udp4"));
    let closed = check_adoption(SendFd::RawV6, Probe::NotASocket("EBADF".to_string()));
    assert!(closed.unwrap_err().contains("EBADF"));
    assert_eq!(
        adoption_order(&FdPlan::new(&[SendFd::UdpV6, SendFd::RawV4])).len(),
        2
    );
}

#[test]
fn capabilities_are_clear_only_when_every_set_reads_zero() {
    let clear = "Name:\tsipnab\nCapInh:\t0000000000000000\n\
                 CapPrm:\t0000000000000000\nCapEff:\t0000000000000000\n\
                 CapBnd:\t000001ffffffffff\nCapAmb:\t0000000000000000\n";
    assert_eq!(
        caps_all_clear(clear),
        Ok(()),
        "the bounding set is a ceiling, not a holding, and is not required \
         to be empty"
    );

    for set in ["CapInh", "CapPrm", "CapEff", "CapAmb"] {
        let held = clear.replace(
            &format!("{set}:\t0000000000000000"),
            &format!("{set}:\t0000000000002000"),
        );
        let err = caps_all_clear(&held).expect_err("CAP_NET_RAW is held");
        assert!(err.contains(set), "the refusal must name {set}: {err}");
    }

    let unreadable = "Name:\tsipnab\nCapInh:\t0000000000000000\n";
    assert!(
        caps_all_clear(unreadable).is_err(),
        "a status with no CapEff line proves nothing about the effective set"
    );
}

#[test]
fn placement_moves_each_source_to_its_slot_and_vacates_the_rest() {
    let p = Placement::plan(&[(SendFd::UdpV4, 40), (SendFd::RawV4, 41)]);
    assert_eq!(p.moves.len(), 2);
    assert_eq!(
        p.moves,
        vec![(41, 3), (40, 5)],
        "in slot order, each source to its own slot"
    );
    let mut vacant = p.vacant.clone();
    vacant.sort_unstable();
    assert_eq!(vacant, vec![4, 6]);

    let none = Placement::plan(&[]);
    assert_eq!(none.moves.len(), 0);
    let mut vacant = none.vacant.clone();
    vacant.sort_unstable();
    assert_eq!(
        vacant,
        vec![3, 4, 5, 6],
        "nothing placed, everything vacated"
    );
}

#[test]
fn a_worker_holding_no_send_descriptor_refuses_and_one_holding_any_does_not() {
    let empty: SendSockets<(), u32> = SendSockets { raw: None, udp_v4: None, udp_v6: None };
    let reason = refusal(&empty).expect("nothing to send through");
    assert!(reason.contains("no send descriptor"), "{reason}");

    let one = SendSockets { udp_v4: Some(5), ..empty };
    assert_eq!(refusal(&one), None, "one descriptor is enough to serve");
}

#[test]
fn a_refusing_worker_answers_each_request_and_stops_at_shutdown() {
    let request = || KillRequest::SendResponse {
        dst_addr: IpAddr::v4(192, 0, 2, 1),
        dst_port: 5060,
        src_addr: IpAddr::v4(192, 0, 2, 2),
        src_port: 5060,
        response_bytes: b"SIP/2.0 200 OK\r\n\r\n".to_vec(),
    };
    let mut seen = Vec::new();
    for msg in [request(), request(), KillRequest::Shutdown, request()] {
        match refuse_all(Some(msg), "no descriptor here") {
            Some(reply) => seen.push(reply),
            None => break,
        }
    }
    let refused = KillResponse::Rejected {
        reason: "no descriptor here".to_string(),
    };
    assert_eq!(
        seen,
        vec![
            refused,
            KillResponse::Rejected {
                reason: "no descriptor here".to_string()
            }
        ],
        "two requests before the Shutdown, two refusals, nothing after it"
    );
}

#[test]
fn a_worker_gives_up_root_and_every_capability_before_it_serves() {
    let mut step = HardenStep::SeeRoot;
    for event in [
        HardenEvent::Root(true),
        HardenEvent::Done,
        HardenEvent::Root(false),
        HardenEvent::Done,
        HardenEvent::Failed("EINVAL".to_string()),
    ] {
        match harden(step, event, "nobody") {
            HardenNext::Go { step: next, .. } => step = next,
            other => panic!("not done yet, got {other:?}"),
        }
    }
    assert_eq!(step, HardenStep::MakeUndumpable);
    assert!(matches!(
        harden(step, HardenEvent::Done, "nobody"),
        HardenNext::Ready { warning: None }
    ));
    for (step, event) in [
        (HardenStep::DropRoot, HardenEvent::Failed("EPERM".to_string())),
        (HardenStep::SeeRootAgain, HardenEvent::Root(true)),
        (HardenStep::ClearCapabilities, HardenEvent::Failed("CapEff".to_string())),
    ] {
        assert!(matches!(harden(step, event, "nobody"), HardenNext::Refuse(_)));
    }
    assert!(matches!(
        harden(HardenStep::SeeRoot, HardenEvent::Root(false), "nobody"),
        HardenNext::Go { step: HardenStep::ClearCapabilities, warning: None }
    ));
}

#[test]
fn each_end_has_its_own_exit_code() {
    let codes = [
        WorkerEnd::Finished,
        WorkerEnd::BadArguments,
        WorkerEnd::NotAdopted,
        WorkerEnd::NotHardened,
        WorkerEnd::StreamFailed,
    ]
    .map(exit_code);
    println!("{codes:?}");
    assert_eq!(codes[0], 0);
    assert_eq!(codes[4], 5);
    for i in 0..codes.len() {
        for j in 0..i {
            assert_ne!(codes[i], codes[j]);
        }
    }
}

#[test]
fn a_plan_is_read_in_slot_order_only() {
    assert!(FdPlan::parse("raw4,udp4").is_ok());
    match FdPlan::parse("udp4,raw4") {
        Err(e) => assert_eq!(e, "--send-fds: raw4 out of slot order in \"udp4,raw4\""),
        Ok(plan) => panic!("no plan is written like this, got {plan:?}"),
    }
}
