//! Taking over the inherited descriptors, giving up everything else, and
//! placing descriptors for a new worker.
use crate::number::{fault_text, number_of, read_number};
use crate::process_isolation::send::AnswerView;
use crate::process_isolation::worker_process::{
    all_kinds, debug_text, name_of, slot_of, debug_string, FdPlan, SendFd,
};
use crate::process_isolation::{KillRequest, KillResponse};
use crate::text::{chars_of, decimal, decimal_text, hex_text, hexadecimal, slice_of, text_of};
use crate::words::{
    split_on, split_text, starts, starts_text, trim_end, trim_start, trim_text, views,
};
use vstd::prelude::*;
use vstd::string::*;

verus! {

/// Address family of a socket.
#[derive(Debug, Clone, Copy, PartialEq, Eq, Structural)]
pub enum SocketFamily {
    /// IPv4.
    Inet,
    /// IPv6.
    Inet6,
    /// Another one, by its number.
    Other(i32),
}

/// Type of a socket.
#[derive(Debug, Clone, Copy, PartialEq, Eq, Structural)]
pub enum SocketType {
    /// Raw.
    Raw,
    /// Datagram.
    Dgram,
    /// Another one, by its number.
    Other(i32),
}

/// The family and type that a kind's slot promises.
pub open spec fn promised(kind: SendFd) -> (SocketFamily, SocketType) {
    match kind {
        SendFd::RawV4 => (SocketFamily::Inet, SocketType::Raw),
        SendFd::RawV6 => (SocketFamily::Inet6, SocketType::Raw),
        SendFd::UdpV4 => (SocketFamily::Inet, SocketType::Dgram),
        SendFd::UdpV6 => (SocketFamily::Inet6, SocketType::Dgram),
    }
}

/// Whether a descriptor's family and type are what its slot promises.
pub fn descriptor_matches(kind: SendFd, family: SocketFamily, sock_type: SocketType) -> (r: bool)
    ensures
        r == (promised(kind) == (family, sock_type)),
{
    match kind {
        SendFd::RawV4 => family == SocketFamily::Inet && sock_type == SocketType::Raw,
        SendFd::RawV6 => family == SocketFamily::Inet6 && sock_type == SocketType::Raw,
        SendFd::UdpV4 => family == SocketFamily::Inet && sock_type == SocketType::Dgram,
        SendFd::UdpV6 => family == SocketFamily::Inet6 && sock_type == SocketType::Dgram,
    }
}

/// No socket passes for two kinds.
pub proof fn a_socket_is_of_one_kind(a: SendFd, b: SendFd)
    requires
        a != b,
    ensures
        promised(a) != promised(b),
{
}

/// What a look at a slot shows.
#[derive(Debug)]
pub enum Probe {
    /// A socket, with its family and type, and their numbers.
    Socket {
        /// Its family.
        family: SocketFamily,
        /// Its type.
        sock_type: SocketType,
        /// The family's number.
        family_number: u32,
        /// The type's number.
        type_number: u32,
    },
    /// No socket, for this reason.
    NotASocket(String),
}

/// The message for a slot that does not hold what was promised.
pub open spec fn slot_message(kind: SendFd, probe: Probe) -> Seq<char> {
    "descriptor "@ + decimal_text(slot_of(kind) as nat) + ", promised as "@ + name_of(kind)
        + match probe {
        Probe::Socket { family, sock_type, family_number, type_number } =>
            ", is a socket of family "@ + decimal_text(family_number as nat) + " and type "@
                + decimal_text(type_number as nat),
        Probe::NotASocket(e) => ", is not a socket: "@ + e@,
    }
}

/// Whether a promised descriptor may be taken over. The worker refuses to
/// start rather than wrap the wrong kind of descriptor.
pub fn check_adoption(kind: SendFd, probe: Probe) -> (r: Result<(), String>)
    ensures
        r is Ok <==> (probe matches Probe::Socket { family, sock_type, family_number, type_number }
            && promised(kind) == (family, sock_type)),
        r matches Err(message) ==> message@ == slot_message(kind, probe),
{
    let mut message = String::from_str("descriptor ");
    message.append(decimal(kind.slot() as u64).as_str());
    message.append(", promised as ");
    message.append(kind.name());
    match probe {
        Probe::NotASocket(e) => {
            let mut tail = String::from_str(", is not a socket: ");
            tail.append(e.as_str());
            message.append(tail.as_str());
            Err(message)
        },
        Probe::Socket { family, sock_type, family_number, type_number } => {
            if descriptor_matches(kind, family, sock_type) {
                return Ok(());
            }
            let mut tail = String::from_str(", is a socket of family ");
            tail.append(decimal(family_number as u64).as_str());
            tail.append(" and type ");
            tail.append(decimal(type_number as u64).as_str());
            message.append(tail.as_str());
            Err(message)
        },
    }
}

/// The kinds of a plan in slot order.
pub open spec fn planned(plan: FdPlan) -> Seq<SendFd> {
    all_kinds().filter(|k: SendFd| plan.has(k))
}

/// The descriptors to take over, in slot order.
pub fn adoption_order(plan: &FdPlan) -> (r: Vec<SendFd>)
    ensures
        r@ == planned(*plan),
{
    let kinds = SendFd::all();
    let ghost wanted = |k: SendFd| plan.has(k);
    let mut out: Vec<SendFd> = Vec::new();
    let mut i: usize = 0;
    assert(kinds@.take(0).filter(wanted) =~= Seq::<SendFd>::empty()) by {
        reveal(Seq::filter);
    }
    while i < 4
        invariant
            i <= 4,
            kinds@ == all_kinds(),
            wanted == (|k: SendFd| plan.has(k)),
            out@ == kinds@.take(i as int).filter(wanted),
        decreases 4 - i,
    {
        let kind: SendFd = kinds[i];
        proof {
            reveal(Seq::filter);
            assert(kinds@.take(i + 1).drop_last() =~= kinds@.take(i as int));
            assert(kinds@.take(i + 1).last() == kind);
        }
        if plan.contains(kind) {
            out.push(kind);
        }
        i += 1;
    }
    assert(kinds@.take(4) =~= kinds@);
    out
}

/// The value behind a name and a colon in one of a status text's lines: the
/// first line that has them.
pub open spec fn status_value(lines: Seq<Seq<char>>, name: Seq<char>) -> Option<Seq<char>>
    decreases lines.len(),
{
    if lines.len() == 0 {
        None
    } else if starts(lines[0], name) && starts(lines[0].skip(name.len() as int), seq![':']) {
        Some(trim_end(trim_start(lines[0].skip(name.len() as int + 1))))
    } else {
        status_value(lines.skip(1), name)
    }
}

/// What is wrong with one capability set, if anything: it is missing where it
/// is required, it cannot be read, or it is not empty.
pub open spec fn set_fault(status: Seq<char>, name: Seq<char>, required: bool) -> Option<Seq<char>> {
    match status_value(split_on(status, '\n'), name) {
        None => if required {
            Some(name + " is missing from the status"@)
        } else {
            None
        },
        Some(hex) => match number_of(hex, 16, u64::MAX as nat) {
            Err(f) => Some(
                name + " "@ + debug_text(hex) + " is unreadable: "@ + fault_text(f),
            ),
            Ok(bits) => if bits == 0 {
                None
            } else {
                Some(name + " still holds 0x"@ + hex_text(bits))
            },
        },
    }
}

/// The first thing that is wrong with a process's capability sets: the
/// inheritable, permitted and effective ones have to be there and empty, and
/// the ambient one empty where it is there.
pub open spec fn caps_fault(status: Seq<char>) -> Option<Seq<char>> {
    if set_fault(status, "CapInh"@, true) is Some {
        set_fault(status, "CapInh"@, true)
    } else if set_fault(status, "CapPrm"@, true) is Some {
        set_fault(status, "CapPrm"@, true)
    } else if set_fault(status, "CapEff"@, true) is Some {
        set_fault(status, "CapEff"@, true)
    } else {
        set_fault(status, "CapAmb"@, false)
    }
}

/// The value behind a name and a colon.
fn find_value(lines: &Vec<Vec<char>>, name: &[char]) -> (r: Option<Vec<char>>)
    ensures
        match status_value(views(lines@), name@) {
            Some(v) => r is Some && r->0@ == v,
            None => r is None,
        },
{
    let ghost all = views(lines@);
    let mut i: usize = 0;
    assert(all.skip(0) =~= all);
    while i < lines.len()
        invariant
            i <= lines.len(),
            all == views(lines@),
            status_value(all, name@) == status_value(all.skip(i as int), name@),
        decreases lines.len() - i,
    {
        let line = &lines[i];
        assert(all.skip(i as int)[0] == line@);
        assert(all.skip(i as int).skip(1) =~= all.skip(i + 1));
        if starts_text(line, name) {
            let rest = slice_of(line, name.len(), line.len());
            assert(rest@ =~= line@.skip(name@.len() as int));
            if rest.len() > 0 && rest[0] == ':' {
                let value = slice_of(&rest, 1, rest.len());
                assert(value@ =~= line@.skip(name@.len() as int + 1));
                assert(rest@.take(1) =~= seq![':']);
                return Some(trim_text(&value));
            }
            assert(!starts(rest@, seq![':'])) by {
                if rest@.len() > 0 {
                    assert(rest@.take(1)[0] == rest@[0]);
                }
            }
        }
        i += 1;
    }
    None
}

/// What is wrong with one capability set, if anything.
fn check_set(lines: &Vec<Vec<char>>, name: &str, required: bool, status: Ghost<Seq<char>>) -> (r:
    Option<String>)
    requires
        views(lines@) == split_on(status@, '\n'),
    ensures
        match set_fault(status@, name@, required) {
            Some(text) => r is Some && r->0@ == text,
            None => r is None,
        },
{
    let wanted = chars_of(name);
    match find_value(lines, &wanted) {
        None => {
            if required {
                let mut message = String::from_str(name);
                message.append(" is missing from the status");
                Some(message)
            } else {
                None
            }
        },
        Some(hex) => match read_number(&hex, 16, u64::MAX) {
            Err(f) => {
                let mut message = String::from_str(name);
                message.append(" ");
                message.append(debug_string(text_of(&hex).as_str()).as_str());
                message.append(" is unreadable: ");
                message.append(f.as_str());
                Some(message)
            },
            Ok(bits) => {
                if bits == 0 {
                    return None;
                }
                let mut message = String::from_str(name);
                message.append(" still holds 0x");
                message.append(hexadecimal(bits).as_str());
                Some(message)
            },
        },
    }
}

/// Confirm from the text of a process's status that every capability set is
/// empty. The bounding set is a ceiling on what could be gained and is not
/// looked at. The message names the set.
pub fn caps_all_clear(status: &str) -> (r: Result<(), String>)
    ensures
        match caps_fault(status@) {
            Some(text) => r is Err && r->Err_0@ == text,
            None => r is Ok,
        },
{
    let chars = chars_of(status);
    let lines = split_text(&chars, '\n');
    let ghost text = status@;
    if let Some(message) = check_set(&lines, "CapInh", true, Ghost(text)) {
        return Err(message);
    }
    if let Some(message) = check_set(&lines, "CapPrm", true, Ghost(text)) {
        return Err(message);
    }
    if let Some(message) = check_set(&lines, "CapEff", true, Ghost(text)) {
        return Err(message);
    }
    if let Some(message) = check_set(&lines, "CapAmb", false, Ghost(text)) {
        return Err(message);
    }
    Ok(())
}

/// Where each descriptor goes: from its number in the parent to its slot in
/// the worker, and the slots that nothing is placed in.
#[derive(Debug, Clone, PartialEq, Eq)]
pub struct Placement {
    /// Source and slot, in slot order.
    pub moves: Vec<(i32, i32)>,
    /// Slots that nothing is placed in, in slot order.
    pub vacant: Vec<i32>,
}

/// The first source of a kind.
pub open spec fn source_of(sources: Seq<(SendFd, i32)>, kind: SendFd) -> Option<i32>
    decreases sources.len(),
{
    if sources.len() == 0 {
        None
    } else if sources[0].0 == kind {
        Some(sources[0].1)
    } else {
        source_of(sources.skip(1), kind)
    }
}

/// The moves for the first kinds in slot order.
pub open spec fn moves_for(sources: Seq<(SendFd, i32)>, kinds: Seq<SendFd>) -> Seq<(i32, i32)>
    decreases kinds.len(),
{
    if kinds.len() == 0 {
        seq![]
    } else {
        let before = moves_for(sources, kinds.drop_last());
        match source_of(sources, kinds.last()) {
            Some(fd) => before.push((fd, slot_of(kinds.last()))),
            None => before,
        }
    }
}

/// The empty slots among those of the first kinds in slot order.
pub open spec fn vacant_for(sources: Seq<(SendFd, i32)>, kinds: Seq<SendFd>) -> Seq<i32>
    decreases kinds.len(),
{
    if kinds.len() == 0 {
        seq![]
    } else {
        let before = vacant_for(sources, kinds.drop_last());
        match source_of(sources, kinds.last()) {
            Some(_) => before,
            None => before.push(slot_of(kinds.last())),
        }
    }
}

/// The first source of a kind.
fn find_source(sources: &[(SendFd, i32)], kind: SendFd) -> (r: Option<i32>)
    ensures
        r == source_of(sources@, kind),
{
    let mut i: usize = 0;
    assert(sources@.skip(0) =~= sources@);
    while i < sources.len()
        invariant
            i <= sources.len(),
            source_of(sources@, kind) == source_of(sources@.skip(i as int), kind),
        decreases sources.len() - i,
    {
        assert(sources@.skip(i as int)[0] == sources@[i as int]);
        assert(sources@.skip(i as int).skip(1) =~= sources@.skip(i + 1));
        if sources[i].0 == kind {
            return Some(sources[i].1);
        }
        i += 1;
    }
    None
}

impl Placement {
    /// Plan the moves for a list of kinds and their numbers in the parent. A
    /// slot that the plan leaves empty is named, so that the worker cannot
    /// inherit whatever the parent happened to have open there.
    pub fn plan(sources: &[(SendFd, i32)]) -> (r: Self)
        ensures
            r.moves@ == moves_for(sources@, all_kinds()),
            r.vacant@ == vacant_for(sources@, all_kinds()),
    {
        let kinds = SendFd::all();
        let mut moves: Vec<(i32, i32)> = Vec::new();
        let mut vacant: Vec<i32> = Vec::new();
        let mut i: usize = 0;
        while i < 4
            invariant
                i <= 4,
                kinds@ == all_kinds(),
                moves@ == moves_for(sources@, kinds@.take(i as int)),
                vacant@ == vacant_for(sources@, kinds@.take(i as int)),
            decreases 4 - i,
        {
            let kind: SendFd = kinds[i];
            assert(kinds@.take(i + 1).drop_last() =~= kinds@.take(i as int));
            assert(kinds@.take(i + 1).last() == kind);
            match find_source(sources, kind) {
                Some(fd) => {
                    moves.push((fd, kind.slot()));
                },
                None => {
                    vacant.push(kind.slot());
                },
            }
            i += 1;
        }
        assert(kinds@.take(4) =~= kinds@);
        Placement { moves, vacant }
    }
}

/// Every slot is either filled by exactly one move or named as vacant, never
/// both and never neither.
pub proof fn placement_covers_every_slot_once(sources: Seq<(SendFd, i32)>)
    ensures
        ({
            let m = moves_for(sources, all_kinds());
            let v = vacant_for(sources, all_kinds());
            &&& m.len() + v.len() == 4
            &&& forall|k: SendFd|
                source_of(sources, k) is Some ==> #[trigger] m.contains(
                    (source_of(sources, k)->0, slot_of(k)),
                ) && !v.contains(slot_of(k))
            &&& forall|k: SendFd|
                source_of(sources, k) is None ==> #[trigger] v.contains(slot_of(k))
            &&& forall|i: int, j: int| 0 <= i < j < m.len() ==> m[i].1 < m[j].1
        }),
{
    let all = all_kinds();
    reveal_with_fuel(moves_for, 5);
    reveal_with_fuel(vacant_for, 5);
    assert(all.drop_last().drop_last().drop_last().drop_last().len() == 0);
    assert(all.last() == SendFd::UdpV6);
    assert(all.drop_last().last() == SendFd::UdpV4);
    assert(all.drop_last().drop_last().last() == SendFd::RawV6);
    assert(all.drop_last().drop_last().drop_last().last() == SendFd::RawV4);
    let m = moves_for(sources, all);
    let v = vacant_for(sources, all);
    let m1 = moves_for(sources, all.drop_last().drop_last().drop_last());
    let m2 = moves_for(sources, all.drop_last().drop_last());
    let m3 = moves_for(sources, all.drop_last());
    let v1 = vacant_for(sources, all.drop_last().drop_last().drop_last());
    let v2 = vacant_for(sources, all.drop_last().drop_last());
    let v3 = vacant_for(sources, all.drop_last());
    assert forall|k: SendFd| source_of(sources, k) is Some implies #[trigger] m.contains(
        (source_of(sources, k)->0, slot_of(k)),
    ) && !v.contains(slot_of(k)) by {
        let at = match k {
            SendFd::RawV4 => m1.len() - 1,
            SendFd::RawV6 => m2.len() - 1,
            SendFd::UdpV4 => m3.len() - 1,
            SendFd::UdpV6 => m.len() - 1,
        };
        assert(m[at] == (source_of(sources, k)->0, slot_of(k)));
    }
    assert forall|k: SendFd| source_of(sources, k) is None implies #[trigger] v.contains(
        slot_of(k),
    ) by {
        let at = match k {
            SendFd::RawV4 => v1.len() - 1,
            SendFd::RawV6 => v2.len() - 1,
            SendFd::UdpV4 => v3.len() - 1,
            SendFd::UdpV6 => v.len() - 1,
        };
        assert(v[at] == slot_of(k));
    }
}

/// The send descriptors a worker holds, as sockets it can use: raw ones `R`,
/// ephemeral ones `U`.
#[derive(Debug)]
pub struct SendSockets<R, U> {
    /// Raw sockets for source-spoofed responses.
    pub raw: Option<R>,
    /// Ephemeral IPv4 socket.
    pub udp_v4: Option<U>,
    /// Ephemeral IPv6 socket.
    pub udp_v6: Option<U>,
}

impl<R, U> SendSockets<R, U> {
    /// Whether there is nothing at all to send through.
    pub open spec fn none_held(self) -> bool {
        self.raw is None && self.udp_v4 is None && self.udp_v6 is None
    }

    /// Whether there is nothing at all to send through.
    pub fn is_empty(&self) -> (r: bool)
        ensures
            r == self.none_held(),
    {
        self.raw.is_none() && self.udp_v4.is_none() && self.udp_v6.is_none()
    }
}

/// Why a worker must refuse everything, or `None` when it has something to
/// send through. It never creates a socket, so holding none is holding no
/// permission to transmit.
pub fn refusal<R, U>(sockets: &SendSockets<R, U>) -> (r: Option<&'static str>)
    ensures
        r is Some <==> sockets.none_held(),
        r matches Some(text) ==> text@
            == "the scanner-kill worker holds no send descriptor, so it may not transmit"@,
{
    if sockets.is_empty() {
        Some("the scanner-kill worker holds no send descriptor, so it may not transmit")
    } else {
        None
    }
}

/// What a refusing worker does with what it read: answer, or stop at a
/// shutdown and at the end of the requests.
pub fn refuse_all(request: Option<KillRequest>, reason: &str) -> (r: Option<KillResponse>)
    ensures
        r is Some <==> (request matches Some(q) && q is SendResponse),
        r matches Some(answer) ==> answer@ == AnswerView::Rejected(reason@),
{
    match request {
        Some(KillRequest::SendResponse { .. }) => Some(
            KillResponse::Rejected { reason: String::from_str(reason) },
        ),
        _ => None,
    }
}

/// Giving up what the worker does not need, one thing after the other.
#[derive(Debug, Clone, Copy, PartialEq, Eq, Structural)]
pub enum HardenStep {
    /// See whether the worker is root.
    SeeRoot,
    /// Stop being root.
    DropRoot,
    /// See whether it is still root.
    SeeRootAgain,
    /// Empty every capability set, and confirm it.
    ClearCapabilities,
    /// Block regaining privileges through an exec.
    BlockEscalation,
    /// Keep other processes from reaching into it.
    MakeUndumpable,
}

/// What came of a step.
#[derive(Debug)]
pub enum HardenEvent {
    /// The answer to whether it is root.
    Root(bool),
    /// It was done.
    Done,
    /// It failed, like this.
    Failed(String),
}

/// How giving up goes on.
#[derive(Debug)]
pub enum HardenNext {
    /// Do this next; where there is a warning, say it first.
    Go {
        /// The step.
        step: HardenStep,
        /// The warning.
        warning: Option<String>,
    },
    /// The worker is ready; where there is a warning, say it first.
    Ready {
        /// The warning.
        warning: Option<String>,
    },
    /// The worker must not start.
    Refuse(String),
}

/// Whether an event answers a step.
pub open spec fn fits(step: HardenStep, event: HardenEvent) -> bool {
    if step == HardenStep::SeeRoot || step == HardenStep::SeeRootAgain {
        event is Root
    } else {
        event is Done || event is Failed
    }
}

/// How giving up goes on, as plain values.
pub ghost enum NextView {
    /// Do this next, with this warning.
    Go(HardenStep, Option<Seq<char>>),
    /// The worker is ready, with this warning.
    Ready(Option<Seq<char>>),
    /// The worker must not start, for this reason.
    Refuse(Seq<char>),
}

impl View for HardenNext {
    type V = NextView;

    open spec fn view(&self) -> NextView {
        match *self {
            HardenNext::Go { step, warning } => NextView::Go(step, said(warning)),
            HardenNext::Ready { warning } => NextView::Ready(said(warning)),
            HardenNext::Refuse(reason) => NextView::Refuse(reason@),
        }
    }
}

/// What an optional warning says.
pub open spec fn said(warning: Option<String>) -> Option<Seq<char>> {
    match warning {
        Some(w) => Some(w@),
        None => None,
    }
}

/// How giving up goes on after a step and what came of it: whether it is root,
/// or the error where it failed.
pub open spec fn hardened(
    step: HardenStep,
    root: bool,
    failed: Option<Seq<char>>,
    run_as: Seq<char>,
) -> NextView {
    match step {
        HardenStep::SeeRoot => NextView::Go(
            if root {
                HardenStep::DropRoot
            } else {
                HardenStep::ClearCapabilities
            },
            None,
        ),
        HardenStep::DropRoot => match failed {
            Some(e) => NextView::Refuse(
                "could not stop being root (target user "@ + run_as + "): "@ + e,
            ),
            None => NextView::Go(HardenStep::SeeRootAgain, None),
        },
        HardenStep::SeeRootAgain => if root {
            NextView::Refuse(
                "still root after dropping to "@ + run_as + "; the kill worker never keeps root"@,
            )
        } else {
            NextView::Go(HardenStep::ClearCapabilities, None)
        },
        HardenStep::ClearCapabilities => match failed {
            Some(e) => NextView::Refuse(e),
            None => NextView::Go(HardenStep::BlockEscalation, None),
        },
        HardenStep::BlockEscalation => match failed {
            Some(e) => NextView::Go(
                HardenStep::MakeUndumpable,
                Some("scanner-kill worker: could not block privilege escalation: "@ + e),
            ),
            None => NextView::Go(HardenStep::MakeUndumpable, None),
        },
        HardenStep::MakeUndumpable => match failed {
            Some(e) => NextView::Ready(
                Some(
                    "scanner-kill worker: could not make itself undumpable ("@ + e
                        + "); another process of the same user may be able to reach its send descriptors"@,
                ),
            ),
            None => NextView::Ready(None),
        },
    }
}

/// Whether an event says that it is root.
pub open spec fn says_root(event: HardenEvent) -> bool {
    event matches HardenEvent::Root(true)
}

/// The error of an event, where it is one.
pub open spec fn error_of(event: HardenEvent) -> Option<Seq<char>> {
    match event {
        HardenEvent::Failed(e) => Some(e@),
        _ => None,
    }
}

/// What came of each step, where it is taken.
pub ghost struct HardenFacts {
    /// Whether it was root.
    pub root: bool,
    /// The error of dropping root.
    pub not_dropped: Option<Seq<char>>,
    /// Whether it was root after that.
    pub still_root: bool,
    /// The error of clearing capabilities.
    pub not_cleared: Option<Seq<char>>,
    /// The error of blocking escalation.
    pub not_blocked: Option<Seq<char>>,
    /// The error of making itself undumpable.
    pub not_undumpable: Option<Seq<char>>,
}

/// How far a step is from the last.
pub open spec fn steps_left(step: HardenStep) -> nat {
    match step {
        HardenStep::SeeRoot => 5,
        HardenStep::DropRoot => 4,
        HardenStep::SeeRootAgain => 3,
        HardenStep::ClearCapabilities => 2,
        HardenStep::BlockEscalation => 1,
        HardenStep::MakeUndumpable => 0,
    }
}

/// Where giving up leads from a step on, under given facts.
pub open spec fn hardened_out(step: HardenStep, f: HardenFacts, run_as: Seq<char>) -> NextView
    decreases steps_left(step),
{
    let root = if step == HardenStep::SeeRoot {
        f.root
    } else {
        f.still_root
    };
    let failed = match step {
        HardenStep::DropRoot => f.not_dropped,
        HardenStep::ClearCapabilities => f.not_cleared,
        HardenStep::BlockEscalation => f.not_blocked,
        HardenStep::MakeUndumpable => f.not_undumpable,
        _ => None,
    };
    match hardened(step, root, failed, run_as) {
        NextView::Go(next, w) => if steps_left(next) < steps_left(step) {
            hardened_out(next, f, run_as)
        } else {
            NextView::Go(next, w)
        },
        end => end,
    }
}

/// A worker starts if and only if it is not root and has shed every
/// capability: whatever else fails, it never keeps either.
pub proof fn a_worker_never_keeps_root_or_a_capability(f: HardenFacts, run_as: Seq<char>)
    ensures
        hardened_out(HardenStep::SeeRoot, f, run_as) is Ready <==> (f.root ==> f.not_dropped is None
            && !f.still_root) && f.not_cleared is None,
        !(hardened_out(HardenStep::SeeRoot, f, run_as) is Go),
{
    reveal_with_fuel(hardened_out, 7);
}

/// Go on after a step. Staying root and keeping a capability are fatal: a
/// worker with either could transmit beyond what it was given. The last two
/// steps may fail with a warning.
pub fn harden(step: HardenStep, event: HardenEvent, run_as: &str) -> (r: HardenNext)
    requires
        fits(step, event),
    ensures
        r@ == hardened(step, says_root(event), error_of(event), run_as@),
{
    match (step, event) {
        (HardenStep::SeeRoot, HardenEvent::Root(root)) => HardenNext::Go {
            step: if root {
                HardenStep::DropRoot
            } else {
                HardenStep::ClearCapabilities
            },
            warning: None,
        },
        (HardenStep::DropRoot, HardenEvent::Failed(e)) => {
            let mut message = String::from_str("could not stop being root (target user ");
            message.append(run_as);
            message.append("): ");
            message.append(e.as_str());
            HardenNext::Refuse(message)
        },
        (HardenStep::DropRoot, _) => HardenNext::Go {
            step: HardenStep::SeeRootAgain,
            warning: None,
        },
        (HardenStep::SeeRootAgain, HardenEvent::Root(true)) => {
            let mut message = String::from_str("still root after dropping to ");
            message.append(run_as);
            message.append("; the kill worker never keeps root");
            HardenNext::Refuse(message)
        },
        (HardenStep::SeeRootAgain, _) => HardenNext::Go {
            step: HardenStep::ClearCapabilities,
            warning: None,
        },
        (HardenStep::ClearCapabilities, HardenEvent::Failed(e)) => HardenNext::Refuse(e),
        (HardenStep::ClearCapabilities, _) => HardenNext::Go {
            step: HardenStep::BlockEscalation,
            warning: None,
        },
        (HardenStep::BlockEscalation, HardenEvent::Failed(e)) => {
            let mut warning = String::from_str(
                "scanner-kill worker: could not block privilege escalation: ",
            );
            warning.append(e.as_str());
            HardenNext::Go { step: HardenStep::MakeUndumpable, warning: Some(warning) }
        },
        (HardenStep::BlockEscalation, _) => HardenNext::Go {
            step: HardenStep::MakeUndumpable,
            warning: None,
        },
        (HardenStep::MakeUndumpable, HardenEvent::Failed(e)) => {
            let mut warning = String::from_str(
                "scanner-kill worker: could not make itself undumpable (",
            );
            warning.append(e.as_str());
            warning.append(
                "); another process of the same user may be able to reach its send descriptors",
            );
            HardenNext::Ready { warning: Some(warning) }
        },
        (HardenStep::MakeUndumpable, _) => HardenNext::Ready { warning: None },
        _ => HardenNext::Go { step: HardenStep::ClearCapabilities, warning: None },
    }
}

/// How a worker process ended.
#[derive(Debug, Clone, Copy, PartialEq, Eq, Structural)]
pub enum WorkerEnd {
    /// Its requests ended or it was told to stop.
    Finished,
    /// Its command line was refused.
    BadArguments,
    /// A promised descriptor could not be taken over.
    NotAdopted,
    /// It could not give up what it must not keep.
    NotHardened,
    /// One of its pipes failed.
    StreamFailed,
}

/// The exit code of a worker process.
pub fn exit_code(end: WorkerEnd) -> (r: i32)
    ensures
        r == match end {
            WorkerEnd::Finished => 0int,
            WorkerEnd::BadArguments => 2,
            WorkerEnd::NotAdopted => 3,
            WorkerEnd::NotHardened => 4,
            WorkerEnd::StreamFailed => 5,
        },
{
    match end {
        WorkerEnd::Finished => 0,
        WorkerEnd::BadArguments => 2,
        WorkerEnd::NotAdopted => 3,
        WorkerEnd::NotHardened => 4,
        WorkerEnd::StreamFailed => 5,
    }
}

} // verus!
