use sipnab::privilege::{
    block_privilege_escalation, check_chroot, check_username, disable_core_dumps, do_chroot,
    drop_next, drop_privileges, first_buffer, resolve_user, setcap_command, setup_capabilities,
    setup_outcome, verify_dropped, ChrootEnd, CommandEnd, DropEvent, DropStep, LookupStatus,
    LookupStep, Platform, ProcessIds, SkipReason, CAPTURE_CAPS,
};

fn ids(uid: u32, gid: u32) -> ProcessIds {
    ProcessIds { uid, gid, euid: uid, egid: gid }
}

#[test]
fn no_priv_drop_flag_skips_immediately() {
    assert!(drop_privileges(None, true, true, Platform::Linux).is_ok());
}

#[test]
fn non_root_skips_privilege_drop() {
    assert!(drop_privileges(None, false, false, Platform::Linux).is_ok());
}

#[test]
fn drop_privileges_with_target_user_non_root_is_noop() {
    assert!(drop_privileges(Some("nobody"), false, false, Platform::Linux).is_ok());
}

#[test]
fn root_drops_to_the_named_user_or_to_nobody() {
    for (named, user) in [(Some("capture"), "capture"), (None, "nobody")] {
        match drop_privileges(named, false, true, Platform::Linux) {
            DropStep::Resolve(u) => assert_eq!(u, user),
            other => panic!("root has to drop, got {other:?}"),
        }
    }
    assert!(matches!(
        drop_privileges(None, false, true, Platform::MacOs),
        DropStep::Skipped(SkipReason::NoUserNamed)
    ));
}

#[test]
fn a_drop_goes_through_every_step_and_reads_back() {
    let mut step = drop_privileges(Some("nobody"), false, true, Platform::Linux);
    for event in [
        DropEvent::Resolved(65534, 65533),
        DropEvent::Done,
        DropEvent::Done,
        DropEvent::Done,
        DropEvent::Ids(ids(65534, 65533)),
    ] {
        assert!(!step.is_ok());
        step = drop_next(step, event);
    }
    assert!(matches!(step, DropStep::Dropped));
    assert!(step.is_ok());
}

fn failure(step: DropStep, error: &str) -> String {
    match drop_next(step, DropEvent::Refused(error.to_string())) {
        DropStep::Failed(e) => e,
        other => panic!("a refusal must end the drop, got {other:?}"),
    }
}

#[test]
fn drop_supplementary_groups_reports_failure_instead_of_returning_ok() {
    let msg = failure(DropStep::ClearGroups(7, 8), "EPERM");
    assert!(
        msg.contains("setgroups"),
        "the failure must name the syscall that refused, got: {msg}"
    );
    assert_eq!(msg, "setgroups failed: EPERM");
}

#[test]
fn set_gid_reports_a_refused_setgid_rather_than_returning_ok() {
    let msg = failure(DropStep::SetGid(7, 8), "EPERM");
    assert!(
        msg.contains("setgid"),
        "the failure must name the syscall that refused, got: {msg}"
    );
    assert_eq!(msg, "setgid(8) failed: EPERM");
}

#[test]
fn set_uid_reports_a_refused_setuid_rather_than_returning_ok() {
    let msg = failure(DropStep::SetUid(7, 8), "EPERM");
    assert!(
        msg.contains("setuid"),
        "the failure must name the syscall that refused, got: {msg}"
    );
    assert_eq!(msg, "setuid(7) failed: EPERM");
}

#[test]
fn a_user_that_cannot_be_resolved_ends_the_drop() {
    assert_eq!(failure(DropStep::Resolve("x".to_string()), "no such user"), "no such user");
}

#[test]
fn setcap_command_root_is_direct() {
    let (prog, args) = setcap_command("/usr/local/bin/sipnab", true);
    assert_eq!(prog, "setcap");
    assert_eq!(
        args,
        vec![CAPTURE_CAPS.to_string(), "/usr/local/bin/sipnab".to_string()]
    );
    assert_eq!(args.last().unwrap(), "/usr/local/bin/sipnab");
}

#[test]
fn setcap_command_non_root_wraps_sudo() {
    let (prog, args) = setcap_command("/home/u/.cargo/bin/sipnab", false);
    assert_eq!(prog, "sudo");
    assert_eq!(args[0], "setcap");
    assert_eq!(args[1], CAPTURE_CAPS);
    assert_eq!(args.last().unwrap(), "/home/u/.cargo/bin/sipnab");
}

#[test]
fn capture_caps_cover_raw_and_admin() {
    assert!(CAPTURE_CAPS.contains("cap_net_raw"));
    assert!(CAPTURE_CAPS.contains("cap_net_admin"));
    assert!(CAPTURE_CAPS.ends_with("+ep"));
}

#[test]
fn verify_dropped_rejects_ids_that_are_not_the_ones_requested() {
    let (uid, gid) = (1000u32, 1001u32);
    let (wrong_uid, wrong_gid) = (uid.wrapping_add(1), gid.wrapping_add(1));
    let msg = verify_dropped(wrong_uid, wrong_gid, ids(uid, gid))
        .expect_err("the process does not hold those ids");
    assert!(
        msg.contains("verification failed"),
        "the message must say the verification failed, got: {msg}"
    );
    assert!(
        msg.contains(&wrong_uid.to_string()) && msg.contains(&uid.to_string()),
        "the message must carry both the expected and the actual uid so the \
         operator can see which half of the drop did not happen, got: {msg}"
    );
    assert_eq!(
        msg,
        "Privilege drop verification failed: expected uid=1001/gid=1002, got uid=1000/gid=1001"
    );
}

#[test]
fn verify_dropped_accepts_the_ids_the_process_actually_holds() {
    let (uid, gid) = (1000, 1001);
    assert!(
        verify_dropped(uid, gid, ids(uid, gid)).is_ok(),
        "a process already holding the target ids has completed the drop"
    );
}

#[test]
fn effective_ids_that_were_kept_are_reported() {
    let kept = ProcessIds { uid: 7, gid: 8, euid: 0, egid: 8 };
    let msg = verify_dropped(7, 8, kept).expect_err("still root");
    assert_eq!(
        msg,
        "Privilege drop verification failed: real ids are correct but EFFECTIVE ids are not — \
         expected euid=7/egid=8, got euid=0/egid=8. The process still holds privileges it was \
         asked to give up."
    );
}

#[test]
fn resolve_user_rejects_a_username_with_an_interior_null_byte() {
    let msg = check_username("root\0nobody").expect_err("a null byte cannot cross the C boundary");
    assert!(
        msg.contains("null byte"),
        "the failure must name the null byte rather than report 'not found', \
         got: {msg}"
    );
    assert!(check_username("nobody").is_ok());
}

#[test]
fn resolve_user_nonexistent_returns_error() {
    match resolve_user("nonexistent_user_xyz123", LookupStatus::Fine, false, 1024) {
        LookupStep::Refused(msg) => {
            assert!(
                msg.contains("not found"),
                "Error should mention 'not found', got: {msg}"
            );
            assert!(
                msg.contains("--user"),
                "Error should suggest --user flag, got: {msg}"
            );
        }
        other => panic!("no entry is no user, got {other:?}"),
    }
}

#[test]
fn a_lookup_retries_with_a_larger_buffer_up_to_its_limit() {
    let small = || LookupStatus::BufferTooSmall("ERANGE".to_string());
    assert!(matches!(resolve_user("u", small(), false, 1024), LookupStep::Retry(2048)));
    match resolve_user("u", small(), false, 0x10_0000) {
        LookupStep::Refused(e) => assert_eq!(e, "Failed to resolve user 'u': ERANGE"),
        other => panic!("the buffer is large enough, got {other:?}"),
    }
    assert!(matches!(resolve_user("u", LookupStatus::Fine, true, 1024), LookupStep::Found));
    match resolve_user("u", LookupStatus::Failed("EIO".to_string()), false, 1024) {
        LookupStep::Refused(e) => assert_eq!(e, "Failed to resolve user 'u': EIO"),
        other => panic!("an error is not an absence, got {other:?}"),
    }
    match resolve_user("u", LookupStatus::NoEntry("ENOENT".to_string()), false, 1024) {
        LookupStep::Refused(e) => assert!(e.contains("not found"), "{e}"),
        other => panic!("an absent entry is no user, got {other:?}"),
    }
    assert_eq!(first_buffer(-1), 16_384);
    assert_eq!(first_buffer(512), 512);
}

#[test]
fn do_chroot_without_root_fails_and_names_the_directory() {
    let msg = do_chroot("/tmp", ChrootEnd::NotChanged("Operation not permitted".to_string()))
        .expect_err("non-root chroot must fail");
    assert!(
        msg.contains("chroot") && msg.contains("/tmp"),
        "the operator has to be told which directory could not be entered, \
         got: {msg}"
    );
    assert!(do_chroot("/tmp", ChrootEnd::Both).is_ok());
    assert_eq!(
        do_chroot("/tmp", ChrootEnd::NotEntered("EACCES".to_string())),
        Err("chdir(/) after chroot failed: EACCES".to_string())
    );
}

#[test]
fn do_chroot_rejects_a_path_with_an_interior_null_byte() {
    let msg = check_chroot(Some("/tmp\0/evil")).expect_err("a null byte cannot cross the C boundary");
    assert!(
        msg.contains("null byte"),
        "the failure must name the null byte rather than report an errno from \
         a truncated path, got: {msg}"
    );
    assert_eq!(check_chroot(None), Err("chroot path is not valid UTF-8".to_string()));
    assert!(check_chroot(Some("/tmp")).is_ok());
}

#[test]
fn capabilities_are_set_up_on_linux_only() {
    assert!(setup_capabilities(Platform::MacOs, Some("/bin/sipnab"), true).is_err());
    assert_eq!(
        setup_capabilities(Platform::Linux, None, true),
        Err("executable path is not valid UTF-8".to_string())
    );
    let (program, args) = setup_capabilities(Platform::Linux, Some("/bin/sipnab"), false).unwrap();
    assert_eq!(program, "sudo");
    assert_eq!(args, vec!["setcap", CAPTURE_CAPS, "/bin/sipnab"]);
    assert!(setup_outcome("sudo", "/bin/sipnab", CommandEnd::Exited(Some(0))).is_ok());
    assert_eq!(
        setup_outcome("sudo", "/bin/sipnab", CommandEnd::Exited(Some(-3))),
        Err("setcap failed (exit Some(-3)) on /bin/sipnab".to_string())
    );
    assert_eq!(
        setup_outcome("sudo", "/bin/sipnab", CommandEnd::Exited(None)),
        Err("setcap failed (exit None) on /bin/sipnab".to_string())
    );
    assert_eq!(
        setup_outcome("sudo", "/bin/sipnab", CommandEnd::NotRun("ENOENT".to_string())),
        Err(
            "failed to run 'sudo' (is 'setcap' installed? on Debian: 'sudo apt install \
             libcap2-bin'): ENOENT"
                .to_string()
        )
    );
}

#[test]
fn disable_core_dumps_does_not_panic() {
    for attempt in [Ok(()), Err("EPERM".to_string())] {
        let _ = disable_core_dumps(Platform::Linux, attempt);
    }
}

#[test]
fn a_core_dump_that_stays_possible_is_reported() {
    assert!(disable_core_dumps(Platform::Linux, Ok(())).is_ok());
    let linux = disable_core_dumps(Platform::Linux, Err("EPERM".to_string())).unwrap_err();
    assert!(linux.starts_with("prctl(PR_SET_DUMPABLE, 0) failed: EPERM."), "{linux}");
    let mac = disable_core_dumps(Platform::MacOs, Err("EPERM".to_string())).unwrap_err();
    assert!(mac.starts_with("setrlimit(RLIMIT_CORE, 0) failed: EPERM."), "{mac}");
    let other = disable_core_dumps(Platform::Other, Ok(())).unwrap_err();
    assert!(other.contains("--allow-coredump"), "{other}");
}

#[test]
fn escalation_is_blocked_only_where_the_flag_reads_back() {
    assert!(block_privilege_escalation(Platform::Linux, Ok(1)).is_ok());
    assert!(block_privilege_escalation(Platform::MacOs, Ok(0)).is_ok());
    let unset = block_privilege_escalation(Platform::Linux, Ok(0)).unwrap_err();
    assert!(unset.contains("reads back as 0"), "{unset}");
    assert_eq!(
        block_privilege_escalation(Platform::Linux, Err("EINVAL".to_string())),
        Err("prctl(PR_SET_NO_NEW_PRIVS, 1) failed: EINVAL".to_string())
    );
}
