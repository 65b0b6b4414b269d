//! Giving up privileges once the capture devices are open.
//!
//! Each function decides from what the system answered; the system calls are
//! made by whoever drives them. A step that fails is never passed over: the
//! process either has given up everything it was asked to, and this has been
//! read back, or it is told that it has not.
use crate::text::{chars_of, decimal, decimal_text};
use vstd::prelude::*;
use vstd::string::*;

verus! {

/// Capabilities a live capture needs, in the effective and permitted sets.
pub const CAPTURE_CAPS: &'static str = "cap_net_raw,cap_net_admin+ep";

/// The platform a run is on, as far as it matters here.
#[derive(Debug, Clone, Copy, PartialEq, Eq, Structural)]
pub enum Platform {
    /// Linux.
    Linux,
    /// macOS.
    MacOs,
    /// Another one.
    Other,
}

/// Why privileges are not dropped.
#[derive(Debug, Clone, Copy, PartialEq, Eq, Structural)]
pub enum SkipReason {
    /// It was asked for.
    Disabled,
    /// There is nothing to drop.
    NotRoot,
    /// On this platform a user has to be named.
    NoUserNamed,
}

/// The ids a process runs with.
#[derive(Debug, Clone, Copy, PartialEq, Eq, Structural)]
pub struct ProcessIds {
    /// Real user id.
    pub uid: u32,
    /// Real group id.
    pub gid: u32,
    /// Effective user id.
    pub euid: u32,
    /// Effective group id.
    pub egid: u32,
}

/// Where dropping privileges stands.
#[derive(Debug)]
pub enum DropStep {
    /// There is nothing to do.
    Skipped(SkipReason),
    /// Find out the ids of this user.
    Resolve(String),
    /// Clear the supplementary groups, on the way to these ids.
    ClearGroups(u32, u32),
    /// Set the group id, on the way to these ids.
    SetGid(u32, u32),
    /// Set the user id, on the way to these ids.
    SetUid(u32, u32),
    /// Read back which ids the process has; these are expected.
    ReadBack(u32, u32),
    /// Privileges are dropped.
    Dropped,
    /// They are not, for this reason.
    Failed(String),
}

/// What came of a step.
#[derive(Debug)]
pub enum DropEvent {
    /// The user has these ids.
    Resolved(u32, u32),
    /// The step was done.
    Done,
    /// The step was refused, like this.
    Refused(String),
    /// The process has these ids.
    Ids(ProcessIds),
}

impl DropStep {
    /// Whether the call that this step belongs to succeeds with it.
    pub open spec fn is_ok_spec(self) -> bool {
        self is Skipped || self is Dropped
    }

    /// Whether the drop is over and nothing went wrong.
    pub fn is_ok(&self) -> (r: bool)
        ensures
            r == self.is_ok_spec(),
    {
        match self {
            DropStep::Skipped(_) => true,
            DropStep::Dropped => true,
            _ => false,
        }
    }
}

/// Begin to drop privileges to an unprivileged user.
///
/// Nothing is dropped where that was asked for, or where the process is not
/// root. On macOS a user has to be named. Without a name the user is `nobody`.
pub fn drop_privileges(
    target_user: Option<&str>,
    no_priv_drop: bool,
    root: bool,
    platform: Platform,
) -> (r: DropStep)
    ensures
        if no_priv_drop {
            r == DropStep::Skipped(SkipReason::Disabled)
        } else if !root {
            r == DropStep::Skipped(SkipReason::NotRoot)
        } else if platform == Platform::MacOs && target_user is None {
            r == DropStep::Skipped(SkipReason::NoUserNamed)
        } else {
            r is Resolve && r->Resolve_0@ == match target_user {
                Some(user) => user@,
                None => "nobody"@,
            }
        },
{
    if no_priv_drop {
        return DropStep::Skipped(SkipReason::Disabled);
    }
    if !root {
        return DropStep::Skipped(SkipReason::NotRoot);
    }
    match target_user {
        Some(user) => DropStep::Resolve(String::from_str(user)),
        None => match platform {
            Platform::MacOs => DropStep::Skipped(SkipReason::NoUserNamed),
            _ => DropStep::Resolve(String::from_str("nobody")),
        },
    }
}

/// Where dropping privileges stands, as plain values.
pub ghost enum DropView {
    /// There is nothing to do.
    Skipped(SkipReason),
    /// Find out the ids of this user.
    Resolve(Seq<char>),
    /// Clear the supplementary groups.
    ClearGroups(u32, u32),
    /// Set the group id.
    SetGid(u32, u32),
    /// Set the user id.
    SetUid(u32, u32),
    /// Read back which ids the process has.
    ReadBack(u32, u32),
    /// Privileges are dropped.
    Dropped,
    /// They are not.
    Failed(Seq<char>),
}

impl View for DropStep {
    type V = DropView;

    open spec fn view(&self) -> DropView {
        match *self {
            DropStep::Skipped(why) => DropView::Skipped(why),
            DropStep::Resolve(user) => DropView::Resolve(user@),
            DropStep::ClearGroups(uid, gid) => DropView::ClearGroups(uid, gid),
            DropStep::SetGid(uid, gid) => DropView::SetGid(uid, gid),
            DropStep::SetUid(uid, gid) => DropView::SetUid(uid, gid),
            DropStep::ReadBack(uid, gid) => DropView::ReadBack(uid, gid),
            DropStep::Dropped => DropView::Dropped,
            DropStep::Failed(e) => DropView::Failed(e@),
        }
    }
}

/// What came of a step, as plain values.
pub ghost enum EventView {
    /// The user has these ids.
    Resolved(u32, u32),
    /// The step was done.
    Done,
    /// The step was refused.
    Refused(Seq<char>),
    /// The process has these ids.
    Ids(ProcessIds),
}

impl View for DropEvent {
    type V = EventView;

    open spec fn view(&self) -> EventView {
        match *self {
            DropEvent::Resolved(uid, gid) => EventView::Resolved(uid, gid),
            DropEvent::Done => EventView::Done,
            DropEvent::Refused(e) => EventView::Refused(e@),
            DropEvent::Ids(ids) => EventView::Ids(ids),
        }
    }
}

/// Whether an event answers a step that is not the last.
pub open spec fn answers_step(step: DropView, event: EventView) -> bool {
    match step {
        DropView::Resolve(_) => event is Resolved || event is Refused,
        DropView::ClearGroups(_, _) => event is Done || event is Refused,
        DropView::SetGid(_, _) => event is Done || event is Refused,
        DropView::SetUid(_, _) => event is Done || event is Refused,
        DropView::ReadBack(_, _) => event is Ids,
        _ => false,
    }
}

/// What is said where the ids read back are not the expected ones.
pub open spec fn ids_message(uid: u32, gid: u32, ids: ProcessIds) -> Seq<char> {
    if ids.uid != uid || ids.gid != gid {
        "Privilege drop verification failed: expected uid="@ + decimal_text(uid as nat) + "/gid="@
            + decimal_text(gid as nat) + ", got uid="@ + decimal_text(ids.uid as nat) + "/gid="@
            + decimal_text(ids.gid as nat)
    } else {
        "Privilege drop verification failed: real ids are correct but EFFECTIVE ids are not — expected euid="@
            + decimal_text(uid as nat) + "/egid="@ + decimal_text(gid as nat) + ", got euid="@
            + decimal_text(ids.euid as nat) + "/egid="@ + decimal_text(ids.egid as nat)
            + ". The process still holds privileges it was asked to give up."@
    }
}

/// Whether a process runs with the given ids, real and effective.
pub open spec fn runs_as(ids: ProcessIds, uid: u32, gid: u32) -> bool {
    ids.uid == uid && ids.gid == gid && ids.euid == uid && ids.egid == gid
}

/// Confirm that the process now runs with the expected ids, real and
/// effective.
pub fn verify_dropped(expected_uid: u32, expected_gid: u32, ids: ProcessIds) -> (r: Result<
    (),
    String,
>)
    ensures
        r is Ok <==> runs_as(ids, expected_uid, expected_gid),
        r matches Err(e) ==> e@ == ids_message(expected_uid, expected_gid, ids),
{
    if ids.uid != expected_uid || ids.gid != expected_gid {
        let mut s = String::from_str("Privilege drop verification failed: expected uid=");
        s.append(decimal(expected_uid as u64).as_str());
        s.append("/gid=");
        s.append(decimal(expected_gid as u64).as_str());
        s.append(", got uid=");
        s.append(decimal(ids.uid as u64).as_str());
        s.append("/gid=");
        s.append(decimal(ids.gid as u64).as_str());
        return Err(s);
    }
    if ids.euid != expected_uid || ids.egid != expected_gid {
        let mut s = String::from_str(
            "Privilege drop verification failed: real ids are correct but EFFECTIVE ids are not — expected euid=",
        );
        s.append(decimal(expected_uid as u64).as_str());
        s.append("/egid=");
        s.append(decimal(expected_gid as u64).as_str());
        s.append(", got euid=");
        s.append(decimal(ids.euid as u64).as_str());
        s.append("/egid=");
        s.append(decimal(ids.egid as u64).as_str());
        s.append(". The process still holds privileges it was asked to give up.");
        return Err(s);
    }
    Ok(())
}

/// How dropping privileges goes on: groups first, then the group id, then the
/// user id, because once the user id is gone the others would be refused.
pub open spec fn dropped_next(step: DropView, event: EventView) -> DropView {
    match (step, event) {
        (DropView::Resolve(user), EventView::Resolved(uid, gid)) => DropView::ClearGroups(uid, gid),
        (DropView::Resolve(user), EventView::Refused(e)) => DropView::Failed(e),
        (DropView::ClearGroups(uid, gid), EventView::Done) => DropView::SetGid(uid, gid),
        (DropView::ClearGroups(uid, gid), EventView::Refused(e)) => DropView::Failed(
            "setgroups failed: "@ + e,
        ),
        (DropView::SetGid(uid, gid), EventView::Done) => DropView::SetUid(uid, gid),
        (DropView::SetGid(uid, gid), EventView::Refused(e)) => DropView::Failed(
            "setgid("@ + decimal_text(gid as nat) + ") failed: "@ + e,
        ),
        (DropView::SetUid(uid, gid), EventView::Done) => DropView::ReadBack(uid, gid),
        (DropView::SetUid(uid, gid), EventView::Refused(e)) => DropView::Failed(
            "setuid("@ + decimal_text(uid as nat) + ") failed: "@ + e,
        ),
        (DropView::ReadBack(uid, gid), EventView::Ids(ids)) => if runs_as(ids, uid, gid) {
            DropView::Dropped
        } else {
            DropView::Failed(ids_message(uid, gid, ids))
        },
        _ => step,
    }
}

/// What a refused call is reported as.
fn refused(call: &str, id: u32, error: &str) -> (r: String)
    ensures
        r@ == call@ + "("@ + decimal_text(id as nat) + ") failed: "@ + error@,
{
    let mut s = String::from_str(call);
    s.append("(");
    s.append(decimal(id as u64).as_str());
    s.append(") failed: ");
    s.append(error);
    s
}

/// Go on with dropping privileges after a step. Any refusal ends it: a process
/// that could not give something up is not to go on as though it had.
pub fn drop_next(step: DropStep, event: DropEvent) -> (r: DropStep)
    requires
        answers_step(step@, event@),
    ensures
        r@ == dropped_next(step@, event@),
{
    match (step, event) {
        (DropStep::Resolve(_), DropEvent::Resolved(uid, gid)) => DropStep::ClearGroups(uid, gid),
        (DropStep::Resolve(_), DropEvent::Refused(e)) => DropStep::Failed(e),
        (DropStep::ClearGroups(uid, gid), DropEvent::Done) => DropStep::SetGid(uid, gid),
        (DropStep::ClearGroups(_, _), DropEvent::Refused(e)) => {
            let mut s = String::from_str("setgroups failed: ");
            s.append(e.as_str());
            DropStep::Failed(s)
        },
        (DropStep::SetGid(uid, gid), DropEvent::Done) => DropStep::SetUid(uid, gid),
        (DropStep::SetGid(_, gid), DropEvent::Refused(e)) => {
            let s = refused("setgid", gid, e.as_str());
            proof {
                reveal_strlit("setgid");
                reveal_strlit("(");
                reveal_strlit("setgid(");
                assert("setgid"@ + "("@ =~= "setgid("@);
            }
            DropStep::Failed(s)
        },
        (DropStep::SetUid(uid, gid), DropEvent::Done) => DropStep::ReadBack(uid, gid),
        (DropStep::SetUid(uid, _), DropEvent::Refused(e)) => {
            let s = refused("setuid", uid, e.as_str());
            proof {
                reveal_strlit("setuid");
                reveal_strlit("(");
                reveal_strlit("setuid(");
                assert("setuid"@ + "("@ =~= "setuid("@);
            }
            DropStep::Failed(s)
        },
        (DropStep::ReadBack(uid, gid), DropEvent::Ids(ids)) => match verify_dropped(
            uid,
            gid,
            ids,
        ) {
            Ok(()) => DropStep::Dropped,
            Err(e) => DropStep::Failed(e),
        },
        (step, _) => step,
    }
}

/// Where a drop stands after a run of events.
pub open spec fn dropped_after(step: DropView, events: Seq<EventView>) -> DropView
    decreases events.len(),
{
    if events.len() == 0 {
        step
    } else {
        dropped_next(dropped_after(step, events.drop_last()), events.last())
    }
}

/// Whether every one of a run of events answers the step it comes after.
pub open spec fn all_answer(step: DropView, events: Seq<EventView>) -> bool
    decreases events.len(),
{
    events.len() > 0 ==> all_answer(step, events.drop_last()) && answers_step(
        dropped_after(step, events.drop_last()),
        events.last(),
    )
}

/// How far a drop has come, where it has not failed.
spec fn stage(step: DropView) -> nat {
    match step {
        DropView::ClearGroups(_, _) => 1,
        DropView::SetGid(_, _) => 2,
        DropView::SetUid(_, _) => 3,
        DropView::ReadBack(_, _) => 4,
        DropView::Dropped => 5,
        _ => 0,
    }
}

/// Each event that is not a refusal brings a drop one step further.
proof fn a_step_at_a_time(user: Seq<char>, events: Seq<EventView>)
    requires
        all_answer(DropView::Resolve(user), events),
    ensures
        ({
            let now = dropped_after(DropView::Resolve(user), events);
            now is Failed || {
                &&& stage(now) == events.len()
                &&& events.len() == 0 ==> now is Resolve
            }
        }),
    decreases events.len(),
{
    if events.len() > 0 {
        a_step_at_a_time(user, events.drop_last());
    }
}

/// Privileges are dropped only where every step was done, in order, and the
/// process reads back as running with the resolved ids, effective ones
/// included.
pub proof fn a_drop_is_complete_or_fails(user: Seq<char>, events: Seq<EventView>)
    requires
        all_answer(DropView::Resolve(user), events),
        dropped_after(DropView::Resolve(user), events) is Dropped,
    ensures
        events.len() == 5,
        events[0] matches EventView::Resolved(uid, gid) && {
            &&& events[1] is Done
            &&& events[2] is Done
            &&& events[3] is Done
            &&& events[4] matches EventView::Ids(ids) && runs_as(ids, uid, gid)
        },
{
    a_step_at_a_time(user, events);
    reveal_with_fuel(dropped_after, 6);
    assert(events.drop_last().last() == events[3]);
    assert(events.drop_last().drop_last().last() == events[2]);
    assert(events.drop_last().drop_last().drop_last().last() == events[1]);
    assert(events.drop_last().drop_last().drop_last().drop_last().last() == events[0]);
}

/// A step that failed stays failed, whatever comes after it.
pub proof fn a_failed_drop_stays_failed(e: Seq<char>, events: Seq<EventView>)
    ensures
        dropped_after(DropView::Failed(e), events) == DropView::Failed(e),
    decreases events.len(),
{
    if events.len() > 0 {
        a_failed_drop_stays_failed(e, events.drop_last());
    }
}

/// The command that grants a program the capture capabilities: through `sudo`
/// where the process is not root.
pub fn setcap_command(exe: &str, as_root: bool) -> (r: (String, Vec<String>))
    ensures
        as_root ==> r.0@ == "setcap"@ && r.1@.len() == 2 && r.1@[0]@ == CAPTURE_CAPS@
            && r.1@[1]@ == exe@,
        !as_root ==> r.0@ == "sudo"@ && r.1@.len() == 3 && r.1@[0]@ == "setcap"@ && r.1@[1]@
            == CAPTURE_CAPS@ && r.1@[2]@ == exe@,
{
    let mut args: Vec<String> = Vec::new();
    let mut program = String::from_str("setcap");
    if !as_root {
        args.push(program);
        program = String::from_str("sudo");
    }
    args.push(String::from_str(CAPTURE_CAPS));
    args.push(String::from_str(exe));
    (program, args)
}

/// The command that lets this program capture without root, or why there is
/// none: file capabilities exist on Linux only, and the program's path has to
/// be text.
pub fn setup_capabilities(platform: Platform, exe: Option<&str>, root: bool) -> (r: Result<
    (String, Vec<String>),
    String,
>)
    ensures
        r is Ok <==> platform == Platform::Linux && exe is Some,
        platform != Platform::Linux ==> r is Err && r->Err_0@
            == "--setup-caps is Linux-only (setcap / file capabilities are not available on this platform). Run sipnab under sudo for live capture instead."@,
        platform == Platform::Linux && exe is None ==> r is Err && r->Err_0@
            == "executable path is not valid UTF-8"@,
        r matches Ok((program, args)) ==> (root ==> program@ == "setcap"@ && args@.len() == 2
            && args@[0]@ == CAPTURE_CAPS@ && args@[1]@ == exe->0@) && (!root ==> program@ == "sudo"@
            && args@.len() == 3 && args@[0]@ == "setcap"@ && args@[1]@ == CAPTURE_CAPS@
            && args@[2]@ == exe->0@),
{
    match platform {
        Platform::Linux => match exe {
            Some(path) => Ok(setcap_command(path, root)),
            None => Err(String::from_str("executable path is not valid UTF-8")),
        },
        _ => Err(
            String::from_str(
                "--setup-caps is Linux-only (setcap / file capabilities are not available on this platform). Run sipnab under sudo for live capture instead.",
            ),
        ),
    }
}

/// What came of running the command.
#[derive(Debug)]
pub enum CommandEnd {
    /// It could not be run, like this.
    NotRun(String),
    /// It ended with this code, or with none where a signal ended it.
    Exited(Option<i32>),
}

/// An exit code, as it is reported.
pub open spec fn code_text(code: Option<i32>) -> Seq<char> {
    match code {
        None => "None"@,
        Some(n) => "Some("@ + signed_text(n) + ")"@,
    }
}

/// A signed number in decimal.
pub open spec fn signed_text(n: i32) -> Seq<char> {
    if n < 0 {
        seq!['-'] + decimal_text((-(n as int)) as nat)
    } else {
        decimal_text(n as nat)
    }
}

/// A signed number in decimal.
fn signed(n: i32) -> (r: String)
    ensures
        r@ == signed_text(n),
{
    let mut s = String::new();
    if n < 0 {
        s.push('-');
        s.append(decimal((-(n as i64)) as u64).as_str());
        assert(s@ =~= signed_text(n));
        s
    } else {
        decimal(n as u64)
    }
}

/// What running the command means: capabilities are granted where it exits
/// with zero.
pub fn setup_outcome(program: &str, exe: &str, end: CommandEnd) -> (r: Result<(), String>)
    ensures
        r is Ok <==> end == CommandEnd::Exited(Some(0i32)),
        r matches Err(message) ==> message@ == match end {
            CommandEnd::NotRun(e) => "failed to run '"@ + program@
                + "' (is 'setcap' installed? on Debian: 'sudo apt install libcap2-bin'): "@ + e@,
            CommandEnd::Exited(code) => "setcap failed (exit "@ + code_text(code) + ") on "@ + exe@,
        },
{
    match end {
        CommandEnd::NotRun(e) => {
            let mut s = String::from_str("failed to run '");
            s.append(program);
            s.append("' (is 'setcap' installed? on Debian: 'sudo apt install libcap2-bin'): ");
            s.append(e.as_str());
            Err(s)
        },
        CommandEnd::Exited(code) => {
            let text = match code {
                Some(n) => {
                    if n == 0 {
                        return Ok(());
                    }
                    let mut t = String::from_str("Some(");
                    t.append(signed(n).as_str());
                    t.append(")");
                    t
                },
                None => String::from_str("None"),
            };
            let mut s = String::from_str("setcap failed (exit ");
            s.append(text.as_str());
            s.append(") on ");
            s.append(exe);
            Err(s)
        },
    }
}

/// What the attempt to keep key material out of core files means. A failure is
/// reported, never passed over, and a platform without a way to do it is a
/// failure.
pub fn disable_core_dumps(platform: Platform, attempt: Result<(), String>) -> (r: Result<
    (),
    String,
>)
    ensures
        r is Ok <==> platform != Platform::Other && attempt is Ok,
        r matches Err(message) ==> message@ == match platform {
            Platform::Linux => "prctl(PR_SET_DUMPABLE, 0) failed: "@ + attempt->Err_0@
                + ". Decryption keys are resident in this process and a crash would write them to a core file; pass --allow-coredump to run anyway"@,
            Platform::MacOs => "setrlimit(RLIMIT_CORE, 0) failed: "@ + attempt->Err_0@
                + ". Decryption keys are resident in this process and a crash would write them to a core file; pass --allow-coredump to run anyway"@,
            Platform::Other =>
                "disabling core dumps is not implemented for this platform, so decryption keys resident in this process could still reach a core file; pass --allow-coredump to run anyway"@,
        },
{
    let head: &str = match platform {
        Platform::Linux => "prctl(PR_SET_DUMPABLE, 0) failed: ",
        Platform::MacOs => "setrlimit(RLIMIT_CORE, 0) failed: ",
        Platform::Other => {
            return Err(
                String::from_str(
                    "disabling core dumps is not implemented for this platform, so decryption keys resident in this process could still reach a core file; pass --allow-coredump to run anyway",
                ),
            );
        },
    };
    match attempt {
        Ok(()) => Ok(()),
        Err(e) => {
            let mut s = String::from_str(head);
            s.append(e.as_str());
            s.append(
                ". Decryption keys are resident in this process and a crash would write them to a core file; pass --allow-coredump to run anyway",
            );
            Err(s)
        },
    }
}

/// What the attempt to block regaining privileges means. `attempt` is the flag
/// as it reads back after it was set, or the error of setting it. The flag is
/// believed only where it reads back set; off Linux there is none to set.
pub fn block_privilege_escalation(platform: Platform, attempt: Result<i32, String>) -> (r: Result<
    (),
    String,
>)
    ensures
        r is Ok <==> platform != Platform::Linux || attempt == Ok::<i32, String>(1i32),
        r matches Err(message) ==> message@ == match attempt {
            Err(e) => "prctl(PR_SET_NO_NEW_PRIVS, 1) failed: "@ + e@,
            Ok(flag) =>
                "prctl(PR_SET_NO_NEW_PRIVS, 1) reported success but the flag reads back as "@
                    + signed_text(flag) + ", so exec can still grant privileges"@,
        },
{
    match platform {
        Platform::Linux => {},
        _ => {
            return Ok(());
        },
    }
    match attempt {
        Err(e) => {
            let mut s = String::from_str("prctl(PR_SET_NO_NEW_PRIVS, 1) failed: ");
            s.append(e.as_str());
            Err(s)
        },
        Ok(flag) => {
            if flag == 1 {
                return Ok(());
            }
            let mut s = String::from_str(
                "prctl(PR_SET_NO_NEW_PRIVS, 1) reported success but the flag reads back as ",
            );
            s.append(signed(flag).as_str());
            s.append(", so exec can still grant privileges");
            Err(s)
        },
    }
}

/// Whether a text holds a null character, at which a system call would take it
/// to end.
pub open spec fn holds_null(s: Seq<char>) -> bool {
    exists|i: int| 0 <= i < s.len() && #[trigger] s[i] == '\0'
}

/// Whether a text holds a null character.
fn has_null(s: &str) -> (r: bool)
    ensures
        r == holds_null(s@),
{
    let chars = chars_of(s);
    let mut i: usize = 0;
    while i < chars.len()
        invariant
            i <= chars.len(),
            chars@ == s@,
            forall|k: int| 0 <= k < i ==> #[trigger] chars@[k] != '\0',
        decreases chars.len() - i,
    {
        if chars[i] == '\0' {
            assert(s@[i as int] == '\0');
            return true;
        }
        i += 1;
    }
    false
}

/// Whether a user's name can be looked up: one that holds a null character
/// would be looked up as a shorter, different name.
pub fn check_username(username: &str) -> (r: Result<(), String>)
    ensures
        r is Err <==> holds_null(username@),
        r matches Err(e) ==> e@ == "Username '"@ + username@ + "' contains a null byte"@,
{
    if has_null(username) {
        let mut s = String::from_str("Username '");
        s.append(username);
        s.append("' contains a null byte");
        return Err(s);
    }
    Ok(())
}

/// What a lookup in the password database returned.
#[derive(Debug)]
pub enum LookupStatus {
    /// It went well.
    Fine,
    /// The buffer was too small.
    BufferTooSmall(String),
    /// There is no such entry.
    NoEntry(String),
    /// Another error.
    Failed(String),
}

/// How a lookup goes on.
#[derive(Debug)]
pub enum LookupStep {
    /// Look again with a buffer of this size.
    Retry(usize),
    /// The entry is there.
    Found,
    /// The user is not there, or the lookup failed, as described.
    Refused(String),
}

/// Size of the first buffer: what the system suggests, or a default where it
/// suggests nothing.
pub fn first_buffer(suggested: i64) -> (r: u64)
    ensures
        r == if suggested > 0 {
            suggested as int
        } else {
            16_384
        },
{
    if suggested > 0 {
        suggested as u64
    } else {
        16_384
    }
}

/// The message for a user that is not there.
pub open spec fn not_found_text(user: Seq<char>) -> Seq<char> {
    "User '"@ + user + "' not found. Create it with 'useradd -r -s /usr/sbin/nologin "@ + user
        + "' or use --user <name>"@
}

/// The message for a lookup that failed.
pub open spec fn lookup_failed_text(user: Seq<char>, error: Seq<char>) -> Seq<char> {
    "Failed to resolve user '"@ + user + "': "@ + error
}

/// The message for a lookup that failed.
fn lookup_failed(username: &str, error: &str) -> (r: String)
    ensures
        r@ == lookup_failed_text(username@, error@),
{
    let mut s = String::from_str("Failed to resolve user '");
    s.append(username);
    s.append("': ");
    s.append(error);
    s
}

/// Go on with looking up a user. A buffer that is too small is doubled, up to
/// a mebibyte. "Not there" arrives in two ways: as no result without an error,
/// and as an error that says so.
pub fn resolve_user(username: &str, status: LookupStatus, found: bool, buffer: usize) -> (r:
    LookupStep)
    ensures
        match status {
            LookupStatus::BufferTooSmall(e) => if buffer < 0x10_0000 {
                r == LookupStep::Retry((2 * buffer) as usize)
            } else {
                r is Refused && r->Refused_0@ == lookup_failed_text(username@, e@)
            },
            LookupStatus::Fine => if found {
                r is Found
            } else {
                r is Refused && r->Refused_0@ == not_found_text(username@)
            },
            LookupStatus::NoEntry(e) => r is Refused && r->Refused_0@ == if found {
                lookup_failed_text(username@, e@)
            } else {
                not_found_text(username@)
            },
            LookupStatus::Failed(e) => r is Refused && r->Refused_0@ == lookup_failed_text(
                username@,
                e@,
            ),
        },
{
    let missing: bool = match &status {
        LookupStatus::Fine => !found,
        LookupStatus::NoEntry(_) => !found,
        _ => false,
    };
    if missing {
        let mut s = String::from_str("User '");
        s.append(username);
        s.append("' not found. Create it with 'useradd -r -s /usr/sbin/nologin ");
        s.append(username);
        s.append("' or use --user <name>");
        return LookupStep::Refused(s);
    }
    match status {
        LookupStatus::Fine => LookupStep::Found,
        LookupStatus::BufferTooSmall(e) => {
            if buffer < 0x10_0000 {
                return LookupStep::Retry(2 * buffer);
            }
            LookupStep::Refused(lookup_failed(username, e.as_str()))
        },
        LookupStatus::NoEntry(e) => LookupStep::Refused(lookup_failed(username, e.as_str())),
        LookupStatus::Failed(e) => LookupStep::Refused(lookup_failed(username, e.as_str())),
    }
}

/// What came of confining the process to a directory.
#[derive(Debug)]
pub enum ChrootEnd {
    /// The root was changed, and the working directory to it.
    Both,
    /// The root could not be changed, like this.
    NotChanged(String),
    /// The root was changed, and the working directory could not be, like
    /// this.
    NotEntered(String),
}

/// Whether a directory can be named to the system: its path has to be text
/// without a null character.
pub fn check_chroot(dir: Option<&str>) -> (r: Result<(), String>)
    ensures
        r is Ok <==> dir is Some && !holds_null(dir->0@),
        r matches Err(e) ==> e@ == if dir is None {
            "chroot path is not valid UTF-8"@
        } else {
            "chroot path contains null byte"@
        },
{
    match dir {
        None => Err(String::from_str("chroot path is not valid UTF-8")),
        Some(d) => {
            if has_null(d) {
                Err(String::from_str("chroot path contains null byte"))
            } else {
                Ok(())
            }
        },
    }
}

/// What confining the process to a directory means: it is confined only where
/// both steps were done.
pub fn do_chroot(dir: &str, end: ChrootEnd) -> (r: Result<(), String>)
    ensures
        r is Ok <==> end is Both,
        r matches Err(message) ==> message@ == match end {
            ChrootEnd::NotChanged(e) => "chroot("@ + dir@ + ") failed: "@ + e@,
            ChrootEnd::NotEntered(e) => "chdir(/) after chroot failed: "@ + e@,
            ChrootEnd::Both => seq![],
        },
{
    match end {
        ChrootEnd::Both => Ok(()),
        ChrootEnd::NotChanged(e) => {
            let mut s = String::from_str("chroot(");
            s.append(dir);
            s.append(") failed: ");
            s.append(e.as_str());
            Err(s)
        },
        ChrootEnd::NotEntered(e) => {
            let mut s = String::from_str("chdir(/) after chroot failed: ");
            s.append(e.as_str());
            Err(s)
        },
    }
}

/// Privileges are given up wherever there are any and nobody asked to keep
/// them: to the user that was named, or to `nobody`; on macOS a user has to be
/// named.
pub proof fn privileges_are_given_up_where_there_are_any(
    user: Option<&str>,
    keep: bool,
    root: bool,
    platform: Platform,
    r: DropStep,
)
    requires
        call_ensures(drop_privileges, (user, keep, root, platform), r),
    ensures
        keep || !root ==> r is Skipped,
        !keep && root && user is Some ==> r is Resolve && r->Resolve_0@ == user->0@,
        !keep && root && user is None && platform != Platform::MacOs ==> r is Resolve
            && r->Resolve_0@ == "nobody"@,
        !keep && root && user is None && platform == Platform::MacOs ==> r is Skipped,
        r == DropStep::Skipped(SkipReason::Disabled) <==> keep,
        r == DropStep::Skipped(SkipReason::NotRoot) <==> !keep && !root,
{
}

/// Groups are given up before the group id, that before the user id, and all is
/// read back before it is believed; the ids on the way are those that the user
/// was found to have. Whatever is refused fails the drop, with the words of the
/// refusal.
pub proof fn privileges_are_given_up_in_order(step: DropStep, event: DropEvent, r: DropStep)
    requires
        call_ensures(drop_next, (step, event), r),
    ensures
        event matches DropEvent::Resolved(uid, gid) ==> (step is Resolve ==> r
            == DropStep::ClearGroups(uid, gid)),
        event is Done ==> (step matches DropStep::ClearGroups(uid, gid) ==> r == DropStep::SetGid(
            uid,
            gid,
        )),
        event is Done ==> (step matches DropStep::SetGid(uid, gid) ==> r == DropStep::SetUid(
            uid,
            gid,
        )),
        event is Done ==> (step matches DropStep::SetUid(uid, gid) ==> r == DropStep::ReadBack(
            uid,
            gid,
        )),
        event matches DropEvent::Ids(ids) ==> (step matches DropStep::ReadBack(uid, gid) ==> (
        r is Dropped <==> ids.uid == uid && ids.euid == uid && ids.gid == gid && ids.egid == gid)
            && (r is Dropped || r is Failed)),
        event is Refused && (step is Resolve || step is ClearGroups || step is SetGid
            || step is SetUid) ==> r is Failed,
        event matches DropEvent::Refused(e) ==> (step is Resolve ==> r is Failed && r->Failed_0@
            == e@),
        r is Dropped ==> step is ReadBack || step is Dropped,
{
}

/// A drop is well where it was made or there was nothing to drop, and at no
/// other step.
pub proof fn a_drop_is_well_once_it_is_made(step: &DropStep, r: bool)
    requires
        call_ensures(DropStep::is_ok, (step,), r),
    ensures
        r <==> *step is Dropped || *step is Skipped,
{
}

/// The ids that were asked for have to read back, real and effective alike.
pub proof fn every_id_has_to_read_back(uid: u32, gid: u32, ids: ProcessIds, r: Result<(), String>)
    requires
        call_ensures(verify_dropped, (uid, gid, ids), r),
    ensures
        r is Err <==> ids.uid != uid || ids.gid != gid || ids.euid != uid || ids.egid != gid,
        ids.uid != uid || ids.gid != gid ==> r->Err_0@
            == "Privilege drop verification failed: expected uid="@ + decimal_text(uid as nat)
            + "/gid="@ + decimal_text(gid as nat) + ", got uid="@ + decimal_text(ids.uid as nat)
            + "/gid="@ + decimal_text(ids.gid as nat),
        ids.uid == uid && ids.gid == gid && r is Err ==> r->Err_0@
            == "Privilege drop verification failed: real ids are correct but EFFECTIVE ids are not — expected euid="@
            + decimal_text(uid as nat) + "/egid="@ + decimal_text(gid as nat) + ", got euid="@
            + decimal_text(ids.euid as nat) + "/egid="@ + decimal_text(ids.egid as nat)
            + ". The process still holds privileges it was asked to give up."@,
{
}

/// The capture capabilities are granted to the program by its path, directly
/// where the process is root and through `sudo` where it is not, on Linux only.
pub proof fn capabilities_are_granted_to_the_program(
    platform: Platform,
    exe: Option<&str>,
    root: bool,
    r: Result<(String, Vec<String>), String>,
)
    requires
        call_ensures(setup_capabilities, (platform, exe, root), r),
    ensures
        r is Ok <==> platform == Platform::Linux && exe is Some,
        r matches Ok((program, args)) ==> {
            let n = args@.len();
            &&& args@[n - 1]@ == exe->0@
            &&& args@[n - 2]@ == "cap_net_raw,cap_net_admin+ep"@
            &&& root ==> program@ == "setcap"@ && n == 2
            &&& !root ==> program@ == "sudo"@ && n == 3 && args@[0]@ == "setcap"@
        },
{
}

/// Capabilities were granted where the command ended with zero, and at no other
/// end.
pub proof fn only_a_command_that_ended_well_granted(
    program: &str,
    exe: &str,
    end: CommandEnd,
    r: Result<(), String>,
)
    requires
        call_ensures(setup_outcome, (program, exe, end), r),
    ensures
        end is NotRun ==> r is Err,
        end matches CommandEnd::Exited(code) ==> (r is Ok <==> code is Some && code->0 == 0),
        end matches CommandEnd::NotRun(e) ==> r->Err_0@ == "failed to run '"@ + program@
            + "' (is 'setcap' installed? on Debian: 'sudo apt install libcap2-bin'): "@ + e@,
        end matches CommandEnd::Exited(None) ==> r->Err_0@ == "setcap failed (exit "@ + "None"@
            + ") on "@ + exe@,
        end matches CommandEnd::Exited(Some(n)) ==> (n > 0 ==> r->Err_0@ == "setcap failed (exit "@
            + ("Some("@ + decimal_text(n as nat) + ")"@) + ") on "@ + exe@),
        end matches CommandEnd::Exited(Some(n)) ==> (n < 0 ==> r->Err_0@ == "setcap failed (exit "@
            + ("Some("@ + (seq!['-'] + decimal_text((0 - n) as nat)) + ")"@) + ") on "@ + exe@),
{
}

/// A hardening that failed is reported as failed: core files are disabled only
/// where the attempt succeeded on a platform that has one, and escalation is
/// blocked on Linux only where the flag reads back set.
pub proof fn a_failed_hardening_is_reported(
    platform: Platform,
    dumps: Result<(), String>,
    flag: Result<i32, String>,
    a: Result<(), String>,
    b: Result<(), String>,
)
    requires
        call_ensures(disable_core_dumps, (platform, dumps), a),
        call_ensures(block_privilege_escalation, (platform, flag), b),
    ensures
        dumps is Err ==> a is Err,
        platform == Platform::Other ==> a is Err,
        dumps is Ok && platform != Platform::Other ==> a is Ok,
        platform == Platform::Linux ==> (b is Ok <==> flag is Ok && flag->Ok_0 == 1),
        platform != Platform::Linux ==> b is Ok,
{
}

/// A name or a path that the system would take to end early is refused, and so
/// is a path that is no text; every other one is taken.
pub proof fn what_would_be_cut_short_is_refused(
    name: &str,
    dir: Option<&str>,
    a: Result<(), String>,
    b: Result<(), String>,
)
    requires
        call_ensures(check_username, (name,), a),
        call_ensures(check_chroot, (dir,), b),
    ensures
        a is Ok <==> forall|i: int| 0 <= i < name@.len() ==> #[trigger] name@[i] != '\0',
        dir is None ==> b is Err,
        dir matches Some(d) ==> (b is Ok <==> forall|i: int|
            0 <= i < d@.len() ==> #[trigger] d@[i] != '\0'),
{
}

/// A lookup is made again with twice the room while it lacks room and has less
/// than a mebibyte; a user that is there is found, and one that is not is said
/// not to be, however the system says so.
pub proof fn a_lookup_finds_the_user_or_says_why(
    name: &str,
    status: LookupStatus,
    found: bool,
    room: usize,
    r: LookupStep,
    suggested: i64,
    first: u64,
)
    requires
        call_ensures(resolve_user, (name, status, found, room), r),
        call_ensures(first_buffer, (suggested,), first),
    ensures
        r is Found <==> status is Fine && found,
        r is Retry <==> status is BufferTooSmall && room < 1_048_576,
        r matches LookupStep::Retry(n) ==> n == room + room,
        (status is Fine || status is NoEntry) && !found ==> r is Refused && r->Refused_0@
            == "User '"@ + name@ + "' not found. Create it with 'useradd -r -s /usr/sbin/nologin "@
            + name@ + "' or use --user <name>"@,
        status matches LookupStatus::Failed(e) ==> r is Refused && r->Refused_0@
            == "Failed to resolve user '"@ + name@ + "': "@ + e@,
        status matches LookupStatus::BufferTooSmall(e) ==> (room >= 1_048_576 ==> r is Refused
            && r->Refused_0@ == "Failed to resolve user '"@ + name@ + "': "@ + e@),
        suggested > 0 ==> first == suggested,
        suggested <= 0 ==> first == 16_384,
{
}

/// A process is confined where its root and its working directory were both
/// changed.
pub proof fn both_steps_confine(dir: &str, end: ChrootEnd, r: Result<(), String>)
    requires
        call_ensures(do_chroot, (dir, end), r),
    ensures
        r is Err <==> end is NotChanged || end is NotEntered,
        end matches ChrootEnd::NotChanged(e) ==> r->Err_0@ == "chroot("@ + dir@ + ") failed: "@
            + e@,
        end matches ChrootEnd::NotEntered(e) ==> r->Err_0@ == "chdir(/) after chroot failed: "@
            + e@,
{
}

/// The command that grants the capabilities is run as it is by root, and through
/// `sudo` by anyone else.
pub proof fn only_root_grants_by_itself(exe: &str, root: bool, r: (String, Vec<String>))
    requires
        call_ensures(setcap_command, (exe, root), r),
    ensures
        r.1@.last()@ == exe@,
        r.1@[r.1@.len() - 2]@ == "cap_net_raw,cap_net_admin+ep"@,
        root ==> r.0@ == "setcap"@ && r.1@.len() == 2,
        !root ==> r.0@ == "sudo"@ && r.1@.len() == 3 && r.1@[0]@ == "setcap"@,
{
}

/// What is to be done next is shown as what it is, and so is what came of it.
pub proof fn each_step_is_shown_as_it_is(step: DropStep, event: DropEvent)
    ensures
        step matches DropStep::Skipped(why) ==> step@ == DropView::Skipped(why),
        step matches DropStep::Resolve(user) ==> step@ == DropView::Resolve(user@),
        step matches DropStep::ClearGroups(u, g) ==> step@ == DropView::ClearGroups(u, g),
        step matches DropStep::SetGid(u, g) ==> step@ == DropView::SetGid(u, g),
        step matches DropStep::SetUid(u, g) ==> step@ == DropView::SetUid(u, g),
        step matches DropStep::ReadBack(u, g) ==> step@ == DropView::ReadBack(u, g),
        step is Dropped ==> step@ is Dropped,
        step matches DropStep::Failed(e) ==> step@ == DropView::Failed(e@),
        event matches DropEvent::Resolved(u, g) ==> event@ == EventView::Resolved(u, g),
        event is Done ==> event@ is Done,
        event matches DropEvent::Refused(e) ==> event@ == EventView::Refused(e@),
        event matches DropEvent::Ids(ids) ==> event@ == EventView::Ids(ids),
{
}

} // verus!
