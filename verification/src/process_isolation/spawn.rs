//! Starting the worker: its command line, its environment, and which
//! descriptors it gets.
use crate::process_isolation::adoption::{moves_for, vacant_for, Placement};
use crate::process_isolation::worker_process::{
    all_kinds, args_text, text_views, ArgsView, FdPlan, SendFd, WorkerArgs,
};
use crate::text::same_text;
use crate::transmit::TransmitPermit;
use vstd::prelude::*;
use vstd::string::*;

verus! {

/// Responses per second where none are configured.
pub const DEFAULT_RATE_LIMIT: u32 = 10;

/// How to start the worker. `P` is how the system names an executable.
#[derive(Debug, Clone)]
pub struct KillWorkerSpawn<P> {
    /// The executable to run.
    pub program: P,
    /// Responses per second across all destinations; `None` for the default.
    pub rate_limit: Option<u32>,
    /// The account the worker becomes if it starts as root; `None` for
    /// `nobody`.
    pub run_as: Option<String>,
    /// How loudly the worker logs.
    pub log_level: String,
}

impl<P> KillWorkerSpawn<P> {
    /// Run the worker from the executable that this process was started from,
    /// or pass on why its path cannot be read.
    pub fn from_current_exe(
        program: Result<P, String>,
        rate_limit: Option<u32>,
        run_as: Option<String>,
        log_level: &str,
    ) -> (r: Result<Self, String>)
        ensures
            match program {
                Ok(p) => r matches Ok(s) && s.program == p && s.rate_limit == rate_limit
                    && s.run_as == run_as && s.log_level@ == log_level@,
                Err(e) => r == Err::<KillWorkerSpawn<P>, String>(e),
            },
    {
        match program {
            Err(e) => Err(e),
            Ok(program) => Ok(
                KillWorkerSpawn {
                    program,
                    rate_limit,
                    run_as,
                    log_level: String::from_str(log_level),
                },
            ),
        }
    }
}

/// What the worker is told.
pub open spec fn told<P>(spawn: KillWorkerSpawn<P>, send_fds: FdPlan) -> ArgsView {
    ArgsView {
        rate_limit: match spawn.rate_limit {
            Some(n) => n,
            None => DEFAULT_RATE_LIMIT,
        },
        send_fds,
        run_as: match spawn.run_as {
            Some(s) => s@,
            None => "nobody"@,
        },
        log_level: spawn.log_level@,
    }
}

/// What the worker is told, given which descriptors it gets.
pub fn worker_args<P>(spawn: &KillWorkerSpawn<P>, send_fds: FdPlan) -> (r: WorkerArgs)
    ensures
        r@ == told(*spawn, send_fds),
{
    let rate_limit: u32 = match spawn.rate_limit {
        Some(n) => n,
        None => DEFAULT_RATE_LIMIT,
    };
    let run_as: String = match &spawn.run_as {
        Some(s) => s.clone(),
        None => String::from_str("nobody"),
    };
    WorkerArgs { rate_limit, send_fds, run_as, log_level: spawn.log_level.clone() }
}

/// Whether a variable may cross to the worker. The list holds what running the
/// same program the same way needs, and nothing that could be a credential.
pub open spec fn crosses(name: Seq<char>) -> bool {
    ||| name == "SIPNAB_LOG"@
    ||| name == "NO_COLOR"@
    ||| name == "RUST_BACKTRACE"@
    ||| name == "LD_LIBRARY_PATH"@
    ||| name == "DYLD_LIBRARY_PATH"@
    ||| name == "LLVM_PROFILE_FILE"@
    ||| name == "ASAN_OPTIONS"@
    ||| name == "LSAN_OPTIONS"@
    ||| name == "MSAN_OPTIONS"@
    ||| name == "TSAN_OPTIONS"@
    ||| name == "UBSAN_OPTIONS"@
}

/// Whether a variable may cross to the worker.
fn may_cross(name: &str) -> (r: bool)
    ensures
        r == crosses(name@),
{
    same_text(name, "SIPNAB_LOG") || same_text(name, "NO_COLOR") || same_text(
        name,
        "RUST_BACKTRACE",
    ) || same_text(name, "LD_LIBRARY_PATH") || same_text(name, "DYLD_LIBRARY_PATH") || same_text(
        name,
        "LLVM_PROFILE_FILE",
    ) || same_text(name, "ASAN_OPTIONS") || same_text(name, "LSAN_OPTIONS") || same_text(
        name,
        "MSAN_OPTIONS",
    ) || same_text(name, "TSAN_OPTIONS") || same_text(name, "UBSAN_OPTIONS")
}

/// The environment the worker is started with: those of the variables that may
/// cross, in their order, and no others.
pub fn worker_environment<V>(vars: Vec<(String, V)>) -> (r: Vec<(String, V)>)
    ensures
        r@ == vars@.filter(|v: (String, V)| crosses(v.0@)),
{
    let ghost all = vars@;
    let ghost kept = |v: (String, V)| crosses(v.0@);
    let mut vars = vars;
    let mut back: Vec<(String, V)> = Vec::new();
    while vars.len() > 0
        invariant
            vars@ + back@.reverse() =~= all,
        decreases vars.len(),
    {
        let ghost b0 = back@;
        if let Some(v) = vars.pop() {
            back.push(v);
            assert(back@.reverse() =~= seq![v] + b0.reverse());
        }
    }
    let mut out: Vec<(String, V)> = Vec::new();
    let ghost mut done: Seq<(String, V)> = seq![];
    assert(done.filter(kept) =~= out@) by {
        reveal(Seq::filter);
    }
    while back.len() > 0
        invariant
            done + back@.reverse() =~= all,
            kept == (|v: (String, V)| crosses(v.0@)),
            out@ == done.filter(kept),
        decreases back.len(),
    {
        let ghost b0 = back@;
        let ghost d0 = done;
        if let Some(v) = back.pop() {
            proof {
                reveal(Seq::filter);
                done = done.push(v);
                assert(done.drop_last() =~= d0);
                assert(b0.reverse() =~= seq![v] + back@.reverse());
            }
            if may_cross(v.0.as_str()) {
                out.push(v);
            }
        }
    }
    assert(done =~= all);
    out
}

/// What a worker is started with.
#[derive(Debug)]
pub struct SpawnPlan {
    /// The descriptors it is given, by kind and number, in slot order.
    pub descriptors: Vec<(SendFd, i32)>,
    /// Where each goes.
    pub placement: Placement,
    /// The arguments behind the one that selects the worker.
    pub args: Vec<String>,
}

/// The descriptors there are, in slot order.
pub open spec fn present(
    raw_v4: Option<i32>,
    raw_v6: Option<i32>,
    udp_v4: Option<i32>,
    udp_v6: Option<i32>,
) -> Seq<(SendFd, i32)> {
    one(SendFd::RawV4, raw_v4) + one(SendFd::RawV6, raw_v6) + one(SendFd::UdpV4, udp_v4) + one(
        SendFd::UdpV6,
        udp_v6,
    )
}

/// One descriptor, or none.
pub open spec fn one(kind: SendFd, fd: Option<i32>) -> Seq<(SendFd, i32)> {
    match fd {
        Some(n) => seq![(kind, n)],
        None => seq![],
    }
}

/// Plan the start of a worker that is given these descriptors: every one of
/// them is placed, named on the command line, and none else is. It takes a
/// permit, which a run that reads files does not have.
pub fn plan_spawn<P>(
    spawn: &KillWorkerSpawn<P>,
    raw_v4: Option<i32>,
    raw_v6: Option<i32>,
    udp_v4: Option<i32>,
    udp_v6: Option<i32>,
    permit: &TransmitPermit,
) -> (r: SpawnPlan)
    requires
        permit.valid(),
    ensures
        r.descriptors@ == present(raw_v4, raw_v6, udp_v4, udp_v6),
        r.placement.moves@ == moves_for(r.descriptors@, all_kinds()),
        r.placement.vacant@ == vacant_for(r.descriptors@, all_kinds()),
        text_views(r.args@) == args_text(
            told(
                *spawn,
                FdPlan {
                    raw_v4: raw_v4 is Some,
                    raw_v6: raw_v6 is Some,
                    udp_v4: udp_v4 is Some,
                    udp_v6: udp_v6 is Some,
                },
            ),
        ),
{
    let mut descriptors: Vec<(SendFd, i32)> = Vec::new();
    if let Some(fd) = raw_v4 {
        descriptors.push((SendFd::RawV4, fd));
    }
    if let Some(fd) = raw_v6 {
        descriptors.push((SendFd::RawV6, fd));
    }
    if let Some(fd) = udp_v4 {
        descriptors.push((SendFd::UdpV4, fd));
    }
    if let Some(fd) = udp_v6 {
        descriptors.push((SendFd::UdpV6, fd));
    }
    assert(descriptors@ =~= present(raw_v4, raw_v6, udp_v4, udp_v6));
    let placement = Placement::plan(&descriptors);
    let plan = FdPlan {
        raw_v4: raw_v4.is_some(),
        raw_v6: raw_v6.is_some(),
        udp_v4: udp_v4.is_some(),
        udp_v6: udp_v6.is_some(),
    };
    let args = worker_args(spawn, plan).to_args();
    SpawnPlan { descriptors, placement, args }
}

} // verus!
