//! The worker process: what it is told on its command line, which descriptors
//! it takes, what it gives up, and when it refuses everything.
use crate::number::{decimal_reads_back, fault_text, number_of, read_number};
use crate::text::{chars_of, decimal, decimal_text, same_text, text_of};
use crate::words::{join_undoes_split, joined, lacks, split_on, split_text, split_undoes_join, views};
use vstd::prelude::*;
use vstd::string::*;

verus! {

/// The first argument that selects the worker.
pub const KILL_WORKER_ARG: &'static str = "--internal-kill-worker";

/// The first descriptor number above the fixed slots.
pub const FIRST_FREE_FD: i32 = 7;

/// A text as a programmer writes it, in double quotes: what the `Debug` format
/// of a string gives.
pub uninterp spec fn debug_text(s: Seq<char>) -> Seq<char>;

/// The `Debug` format of a string: which characters it escapes, and how, is
/// left to the name.
#[verifier::external_body]
pub(crate) fn debug_string(s: &str) -> (r: String)
    ensures
        r@ == debug_text(s@),
{
    format!("{s:?}")
}

/// A send descriptor that the worker can inherit, each at a fixed number.
#[derive(Debug, Clone, Copy, PartialEq, Eq, Structural)]
pub enum SendFd {
    /// Raw IPv4 socket, for source-spoofed responses.
    RawV4,
    /// Raw IPv6 socket, for source-spoofed responses.
    RawV6,
    /// Ephemeral IPv4 UDP socket, the unspoofed fallback.
    UdpV4,
    /// Ephemeral IPv6 UDP socket, the unspoofed fallback.
    UdpV6,
}

/// Every kind, in slot order.
pub open spec fn all_kinds() -> Seq<SendFd> {
    seq![SendFd::RawV4, SendFd::RawV6, SendFd::UdpV4, SendFd::UdpV6]
}

/// The descriptor number of a kind.
pub open spec fn slot_of(kind: SendFd) -> i32 {
    match kind {
        SendFd::RawV4 => 3,
        SendFd::RawV6 => 4,
        SendFd::UdpV4 => 5,
        SendFd::UdpV6 => 6,
    }
}

/// The name of a kind.
pub open spec fn name_of(kind: SendFd) -> Seq<char> {
    match kind {
        SendFd::RawV4 => "raw4"@,
        SendFd::RawV6 => "raw6"@,
        SendFd::UdpV4 => "udp4"@,
        SendFd::UdpV6 => "udp6"@,
    }
}

/// The kind that a name stands for.
pub open spec fn kind_named(name: Seq<char>) -> Option<SendFd> {
    if name == "raw4"@ {
        Some(SendFd::RawV4)
    } else if name == "raw6"@ {
        Some(SendFd::RawV6)
    } else if name == "udp4"@ {
        Some(SendFd::UdpV4)
    } else if name == "udp6"@ {
        Some(SendFd::UdpV6)
    } else {
        None
    }
}

impl SendFd {
    /// Every kind, in slot order.
    pub fn all() -> (r: [SendFd; 4])
        ensures
            r@ == all_kinds(),
    {
        let r = [SendFd::RawV4, SendFd::RawV6, SendFd::UdpV4, SendFd::UdpV6];
        assert(r@ =~= all_kinds());
        r
    }

    /// The descriptor number this kind has in the worker: the parent places
    /// the descriptor there and the worker takes it from there.
    pub fn slot(self) -> (r: i32)
        ensures
            r == slot_of(self),
    {
        match self {
            SendFd::RawV4 => 3,
            SendFd::RawV6 => 4,
            SendFd::UdpV4 => 5,
            SendFd::UdpV6 => 6,
        }
    }

    /// The name this kind has on the worker's command line.
    pub fn name(self) -> (r: &'static str)
        ensures
            r@ == name_of(self),
    {
        match self {
            SendFd::RawV4 => "raw4",
            SendFd::RawV6 => "raw6",
            SendFd::UdpV4 => "udp4",
            SendFd::UdpV6 => "udp6",
        }
    }

    /// The kind that a command-line name stands for.
    pub fn from_name(name: &str) -> (r: Option<SendFd>)
        ensures
            r == kind_named(name@),
    {
        if same_text(name, "raw4") {
            Some(SendFd::RawV4)
        } else if same_text(name, "raw6") {
            Some(SendFd::RawV6)
        } else if same_text(name, "udp4") {
            Some(SendFd::UdpV4)
        } else if same_text(name, "udp6") {
            Some(SendFd::UdpV6)
        } else {
            None
        }
    }
}

/// Which send descriptors the worker receives.
#[derive(Debug, Clone, Copy, PartialEq, Eq, Structural)]
pub struct FdPlan {
    /// Whether the raw IPv4 socket is handed over.
    pub raw_v4: bool,
    /// Whether the raw IPv6 socket is handed over.
    pub raw_v6: bool,
    /// Whether the ephemeral IPv4 socket is handed over.
    pub udp_v4: bool,
    /// Whether the ephemeral IPv6 socket is handed over.
    pub udp_v6: bool,
}

impl FdPlan {
    /// Whether the plan hands over a kind.
    pub open spec fn has(self, kind: SendFd) -> bool {
        match kind {
            SendFd::RawV4 => self.raw_v4,
            SendFd::RawV6 => self.raw_v6,
            SendFd::UdpV4 => self.udp_v4,
            SendFd::UdpV6 => self.udp_v6,
        }
    }

    /// Whether the plan hands over a kind whose slot comes behind this one's.
    pub open spec fn has_behind(self, kind: SendFd) -> bool {
        match kind {
            SendFd::RawV4 => self.raw_v6 || self.udp_v4 || self.udp_v6,
            SendFd::RawV6 => self.udp_v4 || self.udp_v6,
            SendFd::UdpV4 => self.udp_v6,
            SendFd::UdpV6 => false,
        }
    }

    /// The plan with one kind more.
    pub open spec fn with(self, kind: SendFd) -> FdPlan {
        match kind {
            SendFd::RawV4 => FdPlan { raw_v4: true, ..self },
            SendFd::RawV6 => FdPlan { raw_v6: true, ..self },
            SendFd::UdpV4 => FdPlan { udp_v4: true, ..self },
            SendFd::UdpV6 => FdPlan { udp_v6: true, ..self },
        }
    }

    /// The plan that hands over nothing.
    pub open spec fn nothing() -> FdPlan {
        FdPlan { raw_v4: false, raw_v6: false, udp_v4: false, udp_v6: false }
    }

    /// The names of what the plan hands over, in slot order.
    pub open spec fn names(self) -> Seq<Seq<char>> {
        one_if(self.raw_v4, "raw4"@) + one_if(self.raw_v6, "raw6"@) + one_if(self.udp_v4, "udp4"@)
            + one_if(self.udp_v6, "udp6"@)
    }

    /// The plan on the command line: the names in slot order with commas
    /// between, or `none`.
    pub open spec fn rendered(self) -> Seq<char> {
        if self == FdPlan::nothing() {
            "none"@
        } else {
            joined(self.names(), ',')
        }
    }
}

/// One text, or none.
pub open spec fn one_if(there: bool, s: Seq<char>) -> Seq<Seq<char>> {
    if there {
        seq![s]
    } else {
        seq![]
    }
}

/// What is wrong with a list of names.
pub ghost enum NamesFault {
    /// This one stands for nothing.
    Unknown(Seq<char>),
    /// This one is there twice.
    Twice(Seq<char>),
    /// This one stands behind one whose slot comes after its own.
    Misplaced(Seq<char>),
}

/// What a list of names hands over beyond a plan, or the first thing that is
/// wrong with it.
pub open spec fn read_names(names: Seq<Seq<char>>, plan: FdPlan) -> Result<FdPlan, NamesFault>
    decreases names.len(),
{
    if names.len() == 0 {
        Ok(plan)
    } else {
        match kind_named(names[0]) {
            None => Err(NamesFault::Unknown(names[0])),
            Some(kind) => if plan.has(kind) {
                Err(NamesFault::Twice(names[0]))
            } else if plan.has_behind(kind) {
                Err(NamesFault::Misplaced(names[0]))
            } else {
                read_names(names.skip(1), plan.with(kind))
            },
        }
    }
}

/// What a command-line value says as a plan.
pub open spec fn read_plan(value: Seq<char>) -> Result<FdPlan, NamesFault> {
    if value == "none"@ {
        Ok(FdPlan::nothing())
    } else {
        read_names(split_on(value, ','), FdPlan::nothing())
    }
}

/// The message for a value that is no plan.
pub open spec fn plan_message(value: Seq<char>, f: NamesFault) -> Seq<char> {
    match f {
        NamesFault::Unknown(name) => "--send-fds: unknown descriptor "@ + debug_text(name)
            + " in "@ + debug_text(value),
        NamesFault::Twice(name) => "--send-fds: "@ + name + " named twice in "@ + debug_text(
            value,
        ),
        NamesFault::Misplaced(name) => "--send-fds: "@ + name + " out of slot order in "@
            + debug_text(value),
    }
}

impl FdPlan {
    /// A plan holding exactly these kinds.
    pub fn new(kinds: &[SendFd]) -> (r: Self)
        ensures
            forall|k: SendFd| #[trigger] r.has(k) <==> kinds@.contains(k),
    {
        let mut plan = FdPlan { raw_v4: false, raw_v6: false, udp_v4: false, udp_v6: false };
        let mut i: usize = 0;
        while i < kinds.len()
            invariant
                i <= kinds.len(),
                forall|k: SendFd| #[trigger] plan.has(k) <==> kinds@.take(i as int).contains(k),
            decreases kinds.len() - i,
        {
            let ghost before = plan;
            let kind: SendFd = kinds[i];
            plan = plan.and(kind);
            assert(kinds@.take(i + 1) =~= kinds@.take(i as int).push(kind));
            assert forall|k: SendFd| #[trigger] plan.has(k) <==> kinds@.take(i + 1).contains(k) by {
                let now = kinds@.take(i + 1);
                let then_ = kinds@.take(i as int);
                if then_.contains(k) {
                    let j = choose|j: int| 0 <= j < then_.len() && then_[j] == k;
                    assert(now[j] == k);
                }
                if k == kind {
                    assert(now[i as int] == k);
                }
                assert(plan.has(k) == (before.has(k) || k == kind));
            }
            i += 1;
        }
        assert(kinds@.take(i as int) =~= kinds@);
        plan
    }

    /// The plan with one kind more.
    fn and(self, kind: SendFd) -> (r: FdPlan)
        ensures
            r == self.with(kind),
    {
        let mut plan = self;
        match kind {
            SendFd::RawV4 => {
                plan.raw_v4 = true;
            },
            SendFd::RawV6 => {
                plan.raw_v6 = true;
            },
            SendFd::UdpV4 => {
                plan.udp_v4 = true;
            },
            SendFd::UdpV6 => {
                plan.udp_v6 = true;
            },
        }
        plan
    }

    /// Whether the plan hands over a kind.
    pub fn contains(&self, kind: SendFd) -> (r: bool)
        ensures
            r == self.has(kind),
    {
        match kind {
            SendFd::RawV4 => self.raw_v4,
            SendFd::RawV6 => self.raw_v6,
            SendFd::UdpV4 => self.udp_v4,
            SendFd::UdpV6 => self.udp_v6,
        }
    }

    /// Whether the plan hands over a kind whose slot comes behind this one's.
    fn contains_behind(&self, kind: SendFd) -> (r: bool)
        ensures
            r == self.has_behind(kind),
    {
        match kind {
            SendFd::RawV4 => self.raw_v6 || self.udp_v4 || self.udp_v6,
            SendFd::RawV6 => self.udp_v4 || self.udp_v6,
            SendFd::UdpV4 => self.udp_v6,
            SendFd::UdpV6 => false,
        }
    }

    /// Whether the plan hands over nothing at all.
    pub fn is_empty(&self) -> (r: bool)
        ensures
            r == (*self == FdPlan::nothing()),
    {
        !self.raw_v4 && !self.raw_v6 && !self.udp_v4 && !self.udp_v6
    }

    /// The plan on the command line. It is spelled out when it is empty, so
    /// that a missing value never reads as a plan.
    pub fn render(&self) -> (r: String)
        ensures
            r@ == self.rendered(),
    {
        if self.is_empty() {
            return String::from_str("none");
        }
        let mut out = String::new();
        let mut first: bool = true;
        let ghost mut done: Seq<Seq<char>> = seq![];
        if self.raw_v4 {
            proof {
                push_joined(done, "raw4"@);
                done = done.push("raw4"@);
            }
            out.append("raw4");
            first = false;
        }
        assert(done =~= one_if(self.raw_v4, "raw4"@));
        assert(out@ =~= joined(done, ','));
        if self.raw_v6 {
            proof {
                push_joined(done, "raw6"@);
                done = done.push("raw6"@);
            }
            if !first {
                out.push(',');
            }
            out.append("raw6");
            first = false;
        }
        assert(done =~= one_if(self.raw_v4, "raw4"@) + one_if(self.raw_v6, "raw6"@));
        assert(out@ =~= joined(done, ','));
        if self.udp_v4 {
            proof {
                push_joined(done, "udp4"@);
                done = done.push("udp4"@);
            }
            if !first {
                out.push(',');
            }
            out.append("udp4");
            first = false;
        }
        assert(done =~= one_if(self.raw_v4, "raw4"@) + one_if(self.raw_v6, "raw6"@) + one_if(
            self.udp_v4,
            "udp4"@,
        ));
        assert(out@ =~= joined(done, ','));
        if self.udp_v6 {
            proof {
                push_joined(done, "udp6"@);
                done = done.push("udp6"@);
            }
            if !first {
                out.push(',');
            }
            out.append("udp6");
        }
        assert(done =~= self.names());
        assert(out@ =~= joined(done, ','));
        out
    }

    /// Read a command-line value back. Whatever [`FdPlan::render`] never writes
    /// is refused: an empty value, an unknown or repeated name, names out of
    /// slot order, and `none` beside a name.
    pub fn parse(value: &str) -> (r: Result<FdPlan, String>)
        ensures
            forall|p: FdPlan|
                r == Ok::<FdPlan, String>(p) <==> value@ == #[trigger] p.rendered(),
            match read_plan(value@) {
                Ok(plan) => r == Ok::<FdPlan, String>(plan),
                Err(f) => r is Err && r->Err_0@ == plan_message(value@, f),
            },
    {
        proof {
            assert forall|p: FdPlan|
                read_plan(value@) == Ok::<FdPlan, NamesFault>(p) <==> value@
                    == #[trigger] p.rendered() by {
                only_what_is_rendered_is_read(value@, p);
            }
        }
        let mut plan = FdPlan { raw_v4: false, raw_v6: false, udp_v4: false, udp_v6: false };
        if same_text(value, "none") {
            return Ok(plan);
        }
        let chars = chars_of(value);
        let parts = split_text(&chars, ',');
        let ghost names = split_on(value@, ',');
        let mut i: usize = 0;
        assert(names.skip(0) =~= names);
        while i < parts.len()
            invariant
                i <= parts.len(),
                views(parts@) == names,
                names == split_on(value@, ','),
                value@ != "none"@,
                forall|p: FdPlan|
                    read_plan(value@) == Ok::<FdPlan, NamesFault>(p) <==> value@
                        == #[trigger] p.rendered(),
                read_plan(value@) == read_names(names.skip(i as int), plan),
            decreases parts.len() - i,
        {
            let name = text_of(&parts[i]);
            assert(views(parts@)[i as int] == parts@[i as int]@);
            assert(names.skip(i as int)[0] == name@);
            assert(names.skip(i as int).skip(1) =~= names.skip(i + 1));
            match SendFd::from_name(name.as_str()) {
                None => {
                    let mut message = String::from_str("--send-fds: unknown descriptor ");
                    message.append(debug_string(name.as_str()).as_str());
                    message.append(" in ");
                    message.append(debug_string(value).as_str());
                    return Err(message);
                },
                Some(kind) => {
                    if plan.contains(kind) {
                        let mut message = String::from_str("--send-fds: ");
                        message.append(name.as_str());
                        message.append(" named twice in ");
                        message.append(debug_string(value).as_str());
                        return Err(message);
                    }
                    if plan.contains_behind(kind) {
                        let mut message = String::from_str("--send-fds: ");
                        message.append(name.as_str());
                        message.append(" out of slot order in ");
                        message.append(debug_string(value).as_str());
                        return Err(message);
                    }
                    plan = plan.and(kind);
                },
            }
            i += 1;
        }
        Ok(plan)
    }
}

/// One more part at the end goes behind a separator, unless it is the first.
proof fn push_joined(parts: Seq<Seq<char>>, part: Seq<char>)
    ensures
        joined(parts.push(part), ',') == if parts.len() == 0 {
            part
        } else {
            joined(parts, ',') + seq![','] + part
        },
    decreases parts.len(),
{
    let all = parts.push(part);
    if parts.len() > 0 {
        assert(all.skip(1) =~= parts.skip(1).push(part));
        push_joined(parts.skip(1), part);
        if parts.len() == 1 {
            assert(joined(all, ',') =~= parts[0] + seq![','] + part);
        } else {
            assert(joined(all, ',') =~= joined(parts, ',') + seq![','] + part);
        }
    }
}

/// What the parent renders, the worker reads back unchanged.
pub proof fn a_plan_survives_the_command_line(plan: FdPlan)
    ensures
        read_plan(plan.rendered()) == Ok::<FdPlan, NamesFault>(plan),
{
    reveal_strlit("raw4");
    reveal_strlit("raw6");
    reveal_strlit("udp4");
    reveal_strlit("udp6");
    reveal_strlit("none");
    assert("raw4"@[3] != "raw6"@[3]);
    assert("raw4"@[0] != "udp4"@[0]);
    assert("raw4"@[0] != "udp6"@[0]);
    assert("raw6"@[0] != "udp4"@[0]);
    assert("raw6"@[0] != "udp6"@[0]);
    assert("udp4"@[3] != "udp6"@[3]);
    if plan != FdPlan::nothing() {
        let names = plan.names();
        assert(names.len() > 0);
        assert forall|i: int| 0 <= i < names.len() implies lacks(#[trigger] names[i], ',') by {
            assert(names[i] == "raw4"@ || names[i] == "raw6"@ || names[i] == "udp4"@ || names[i]
                == "udp6"@);
        }
        split_undoes_join(names, ',');
        assert(names[0].len() == 4 && names[0][0] != 'n');
        assert(plan.rendered()[0] == names[0][0]);
        assert(plan.rendered() != "none"@) by {
            assert("none"@[0] == 'n');
        }
        reveal_with_fuel(read_names, 5);
        let a = one_if(plan.raw_v4, "raw4"@);
        let b = one_if(plan.raw_v6, "raw6"@);
        let c = one_if(plan.udp_v4, "udp4"@);
        let d = one_if(plan.udp_v6, "udp6"@);
        let start = FdPlan::nothing();
        names_in_turn(a, b + c + d, start);
        assert(a + (b + c + d) =~= names);
        let p1 = FdPlan { raw_v4: plan.raw_v4, ..start };
        names_in_turn(b, c + d, p1);
        assert(b + (c + d) =~= b + c + d);
        let p2 = FdPlan { raw_v6: plan.raw_v6, ..p1 };
        names_in_turn(c, d, p2);
        let p3 = FdPlan { udp_v4: plan.udp_v4, ..p2 };
        names_in_turn(d, seq![], p3);
        assert(d + Seq::<Seq<char>>::empty() =~= d);
    }
}

/// Reading at most one name of a kind not yet there goes on with the rest.
proof fn names_in_turn(first: Seq<Seq<char>>, rest: Seq<Seq<char>>, plan: FdPlan)
    requires
        first.len() <= 1,
        first.len() == 1 ==> kind_named(first[0]) is Some && !plan.has(kind_named(first[0])->0)
            && !plan.has_behind(kind_named(first[0])->0),
    ensures
        read_names(first + rest, plan) == if first.len() == 0 {
            read_names(rest, plan)
        } else {
            read_names(rest, plan.with(kind_named(first[0])->0))
        },
{
    if first.len() == 0 {
        assert(first + rest =~= rest);
    } else {
        assert((first + rest).skip(1) =~= rest);
        assert((first + rest)[0] == first[0]);
    }
}

/// Names that are read are those of the plan they make, behind those of the
/// plan they were added to.
proof fn read_names_are_the_plans(names: Seq<Seq<char>>, plan: FdPlan)
    requires
        read_names(names, plan) is Ok,
    ensures
        read_names(names, plan)->Ok_0.names() == plan.names() + names,
    decreases names.len(),
{
    if names.len() == 0 {
        assert(plan.names() + names =~= plan.names());
    } else {
        let kind = kind_named(names[0])->0;
        let next = plan.with(kind);
        assert(name_of(kind) == names[0]);
        assert(next.names() =~= plan.names().push(names[0]));
        read_names_are_the_plans(names.skip(1), next);
        assert(next.names() + names.skip(1) =~= plan.names() + names);
    }
}

/// A value reads as a plan exactly where it is what the plan is rendered as:
/// whatever no plan is rendered as is refused.
pub proof fn only_what_is_rendered_is_read(value: Seq<char>, plan: FdPlan)
    ensures
        read_plan(value) == Ok::<FdPlan, NamesFault>(plan) <==> value == plan.rendered(),
{
    a_plan_survives_the_command_line(plan);
    if read_plan(value) == Ok::<FdPlan, NamesFault>(plan) && value != "none"@ {
        let names = split_on(value, ',');
        join_undoes_split(value, ',');
        read_names_are_the_plans(names, FdPlan::nothing());
        assert(FdPlan::nothing().names() =~= seq![]);
        assert(plan.names() =~= names);
        assert(FdPlan::nothing().names().len() == 0);
    }
}

/// A value that reads as a plan names each descriptor it hands over once, and
/// nothing else.
pub proof fn a_read_plan_names_each_descriptor_once(names: Seq<Seq<char>>, plan: FdPlan, k: SendFd)
    requires
        read_names(names, plan) is Ok,
    ensures
        read_names(names, plan)->Ok_0.has(k) <==> plan.has(k) || names.contains(name_of(k)),
        plan.has(k) ==> !names.contains(name_of(k)),
    decreases names.len(),
{
    reveal_strlit("raw4");
    reveal_strlit("raw6");
    reveal_strlit("udp4");
    reveal_strlit("udp6");
    assert("raw4"@[3] != "raw6"@[3]);
    assert("raw4"@[0] != "udp4"@[0]);
    assert("raw4"@[0] != "udp6"@[0]);
    assert("raw6"@[0] != "udp4"@[0]);
    assert("raw6"@[0] != "udp6"@[0]);
    assert("udp4"@[3] != "udp6"@[3]);
    if names.len() > 0 {
        let kind = kind_named(names[0])->0;
        let rest = names.skip(1);
        a_read_plan_names_each_descriptor_once(rest, plan.with(kind), k);
        assert(names[0] == name_of(kind));
        if names.contains(name_of(k)) {
            let i = choose|i: int| 0 <= i < names.len() && names[i] == name_of(k);
            if i > 0 {
                assert(rest[i - 1] == name_of(k));
            }
        }
        if rest.contains(name_of(k)) {
            let i = choose|i: int| 0 <= i < rest.len() && rest[i] == name_of(k);
            assert(names[i + 1] == name_of(k));
        }
        assert(plan.with(kind).has(k) == (plan.has(k) || k == kind));
    }
}

/// Everything the worker is told on its command line.
#[derive(Debug, Clone, PartialEq, Eq)]
pub struct WorkerArgs {
    /// Responses per second across all destinations.
    pub rate_limit: u32,
    /// Which fixed descriptors are present.
    pub send_fds: FdPlan,
    /// The account to become if the worker starts as root.
    pub run_as: String,
    /// How loudly the worker logs.
    pub log_level: String,
}

/// What a worker is told, as plain values.
pub ghost struct ArgsView {
    /// Responses per second.
    pub rate_limit: u32,
    /// Which descriptors are present.
    pub send_fds: FdPlan,
    /// The account to become.
    pub run_as: Seq<char>,
    /// How loudly it logs.
    pub log_level: Seq<char>,
}

impl View for WorkerArgs {
    type V = ArgsView;

    open spec fn view(&self) -> ArgsView {
        ArgsView {
            rate_limit: self.rate_limit,
            send_fds: self.send_fds,
            run_as: self.run_as@,
            log_level: self.log_level@,
        }
    }
}

/// The arguments on the command line.
pub open spec fn args_text(a: ArgsView) -> Seq<Seq<char>> {
    seq![
        "--rate-limit"@,
        decimal_text(a.rate_limit as nat),
        "--send-fds"@,
        a.send_fds.rendered(),
        "--run-as"@,
        a.run_as,
        "--log-level"@,
        a.log_level,
    ]
}

/// What has been read of a command line.
pub ghost struct ArgsSoFar {
    /// Responses per second.
    pub rate_limit: Option<u32>,
    /// Which descriptors are present.
    pub send_fds: Option<FdPlan>,
    /// The account to become.
    pub run_as: Option<Seq<char>>,
    /// How loudly it logs.
    pub log_level: Option<Seq<char>>,
}

impl ArgsSoFar {
    /// Nothing read.
    pub open spec fn none() -> ArgsSoFar {
        ArgsSoFar { rate_limit: None, send_fds: None, run_as: None, log_level: None }
    }
}

/// The message for a flag that is there more than once.
pub open spec fn twice_message(flag: Seq<char>) -> Seq<char> {
    flag + " given more than once"@
}

/// One flag and its value taken in, or the message that refuses it.
pub open spec fn take_flag(s: ArgsSoFar, flag: Seq<char>, value: Seq<char>) -> Result<
    ArgsSoFar,
    Seq<char>,
> {
    if flag == "--rate-limit"@ {
        match number_of(value, 10, u32::MAX as nat) {
            Err(f) => Err(
                "--rate-limit "@ + debug_text(value) + ": "@ + fault_text(f),
            ),
            Ok(n) => if s.rate_limit is Some {
                Err(twice_message(flag))
            } else {
                Ok(ArgsSoFar { rate_limit: Some(n as u32), ..s })
            },
        }
    } else if flag == "--send-fds"@ {
        match read_plan(value) {
            Err(f) => Err(plan_message(value, f)),
            Ok(plan) => if s.send_fds is Some {
                Err(twice_message(flag))
            } else {
                Ok(ArgsSoFar { send_fds: Some(plan), ..s })
            },
        }
    } else if flag == "--run-as"@ {
        if s.run_as is Some {
            Err(twice_message(flag))
        } else {
            Ok(ArgsSoFar { run_as: Some(value), ..s })
        }
    } else if flag == "--log-level"@ {
        if s.log_level is Some {
            Err(twice_message(flag))
        } else {
            Ok(ArgsSoFar { log_level: Some(value), ..s })
        }
    } else {
        Err("unknown argument "@ + debug_text(flag))
    }
}

/// What a command line says beyond what has been read, or the message that
/// refuses it: every flag exactly once, each with a value, and nothing else.
pub open spec fn read_args(args: Seq<Seq<char>>, s: ArgsSoFar) -> Result<ArgsView, Seq<char>>
    decreases args.len(),
{
    if args.len() == 1 {
        Err(args[0] + " needs a value"@)
    } else if args.len() >= 2 {
        match take_flag(s, args[0], args[1]) {
            Err(message) => Err(message),
            Ok(next) => read_args(args.skip(2), next),
        }
    } else if s.rate_limit is None {
        Err("--rate-limit is required"@)
    } else if s.send_fds is None {
        Err("--send-fds is required"@)
    } else if s.run_as is None {
        Err("--run-as is required"@)
    } else if s.log_level is None {
        Err("--log-level is required"@)
    } else {
        Ok(
            ArgsView {
                rate_limit: s.rate_limit->0,
                send_fds: s.send_fds->0,
                run_as: s.run_as->0,
                log_level: s.log_level->0,
            },
        )
    }
}

/// The views of a list of texts.
pub open spec fn text_views(v: Seq<String>) -> Seq<Seq<char>> {
    v.map_values(|s: String| s@)
}

/// What is said of a flag that is there more than once.
fn twice(flag: &str) -> (r: String)
    ensures
        r@ == twice_message(flag@),
{
    let mut message = String::from_str(flag);
    message.append(" given more than once");
    message
}

/// What has been read of a command line.
struct Partial {
    rate_limit: Option<u32>,
    send_fds: Option<FdPlan>,
    run_as: Option<String>,
    log_level: Option<String>,
}

/// What has been read of a command line, as plain values.
spec fn so_far(p: Partial) -> ArgsSoFar {
    ArgsSoFar {
        rate_limit: p.rate_limit,
        send_fds: p.send_fds,
        run_as: match p.run_as {
            Some(s) => Some(s@),
            None => None,
        },
        log_level: match p.log_level {
            Some(s) => Some(s@),
            None => None,
        },
    }
}

/// Take in one flag and its value.
fn take(p: Partial, flag: &str, value: &str) -> (r: Result<Partial, String>)
    ensures
        match take_flag(so_far(p), flag@, value@) {
            Ok(next) => r is Ok && so_far(r->Ok_0) == next,
            Err(message) => r is Err && r->Err_0@ == message,
        },
{
    let mut p = p;
    if same_text(flag, "--rate-limit") {
        let digits = chars_of(value);
        match read_number(&digits, 10, 0xFFFF_FFFF) {
            Err(f) => {
                let mut message = String::from_str("--rate-limit ");
                message.append(debug_string(value).as_str());
                message.append(": ");
                message.append(f.as_str());
                return Err(message);
            },
            Ok(n) => {
                if p.rate_limit.is_some() {
                    return Err(twice(flag));
                }
                p.rate_limit = Some(n as u32);
            },
        }
    } else if same_text(flag, "--send-fds") {
        match FdPlan::parse(value) {
            Err(message) => {
                return Err(message);
            },
            Ok(plan) => {
                if p.send_fds.is_some() {
                    return Err(twice(flag));
                }
                p.send_fds = Some(plan);
            },
        }
    } else if same_text(flag, "--run-as") {
        if p.run_as.is_some() {
            return Err(twice(flag));
        }
        p.run_as = Some(String::from_str(value));
    } else if same_text(flag, "--log-level") {
        if p.log_level.is_some() {
            return Err(twice(flag));
        }
        p.log_level = Some(String::from_str(value));
    } else {
        let mut message = String::from_str("unknown argument ");
        message.append(debug_string(flag).as_str());
        return Err(message);
    }
    Ok(p)
}

impl WorkerArgs {
    /// The arguments that follow the one that selects the worker.
    pub fn to_args(&self) -> (r: Vec<String>)
        ensures
            text_views(r@) == args_text(self@),
    {
        let mut out: Vec<String> = Vec::new();
        out.push(String::from_str("--rate-limit"));
        out.push(decimal(self.rate_limit as u64));
        out.push(String::from_str("--send-fds"));
        out.push(self.send_fds.render());
        out.push(String::from_str("--run-as"));
        out.push(self.run_as.clone());
        out.push(String::from_str("--log-level"));
        out.push(self.log_level.clone());
        assert(text_views(out@) =~= args_text(self@));
        out
    }

    /// Read the arguments that follow the one that selects the worker. It is
    /// strict, because a default here would be a rate limit or a descriptor
    /// that nobody chose. The message names the flag.
    pub fn parse(args: &[String]) -> (r: Result<WorkerArgs, String>)
        ensures
            match read_args(text_views(args@), ArgsSoFar::none()) {
                Ok(a) => r is Ok && r->Ok_0@ == a,
                Err(message) => r is Err && r->Err_0@ == message,
            },
    {
        let ghost all = text_views(args@);
        let mut p = Partial { rate_limit: None, send_fds: None, run_as: None, log_level: None };
        let mut i: usize = 0;
        assert(all.skip(0) =~= all);
        while i < args.len()
            invariant
                i <= args.len(),
                all == text_views(args@),
                read_args(all, ArgsSoFar::none()) == read_args(all.skip(i as int), so_far(p)),
            decreases args.len() - i,
        {
            let ghost rest = all.skip(i as int);
            assert(rest[0] == args@[i as int]@);
            if i + 1 == args.len() {
                let mut message = args[i].clone();
                message.append(" needs a value");
                return Err(message);
            }
            assert(rest[1] == args@[i + 1]@);
            assert(rest.skip(2) =~= all.skip(i + 2));
            match take(p, args[i].as_str(), args[i + 1].as_str()) {
                Err(message) => {
                    return Err(message);
                },
                Ok(next) => {
                    p = next;
                },
            }
            i += 2;
        }
        assert(all.skip(i as int).len() == 0);
        match (p.rate_limit, p.send_fds, p.run_as, p.log_level) {
            (None, _, _, _) => Err(String::from_str("--rate-limit is required")),
            (Some(_), None, _, _) => Err(String::from_str("--send-fds is required")),
            (Some(_), Some(_), None, _) => Err(String::from_str("--run-as is required")),
            (Some(_), Some(_), Some(_), None) => Err(String::from_str("--log-level is required")),
            (Some(rate_limit), Some(send_fds), Some(run_as), Some(log_level)) => Ok(
                WorkerArgs { rate_limit, send_fds, run_as, log_level },
            ),
        }
    }
}

/// The worker reads back exactly what the parent wrote.
pub proof fn arguments_survive_the_command_line(a: ArgsView)
    ensures
        read_args(args_text(a), ArgsSoFar::none()) == Ok::<ArgsView, Seq<char>>(a),
{
    reveal_strlit("--rate-limit");
    reveal_strlit("--send-fds");
    reveal_strlit("--run-as");
    reveal_strlit("--log-level");
    assert("--rate-limit"@[2] != "--send-fds"@[2]);
    assert("--rate-limit"@.len() != "--run-as"@.len());
    assert("--rate-limit"@[2] != "--log-level"@[2]);
    assert("--send-fds"@[2] != "--run-as"@[2]);
    assert("--send-fds"@[2] != "--log-level"@[2]);
    assert("--run-as"@[2] != "--log-level"@[2]);
    let s = args_text(a);
    decimal_reads_back(a.rate_limit as nat, u32::MAX as nat);
    a_plan_survives_the_command_line(a.send_fds);
    reveal_with_fuel(read_args, 5);
    assert(s.skip(2)[0] == "--send-fds"@);
    assert(s.skip(2).skip(2)[0] == "--run-as"@);
    assert(s.skip(2).skip(2).skip(2)[0] == "--log-level"@);
    assert(s.skip(2).skip(2).skip(2).skip(2).len() == 0);
}

/// A command line with everything on it.
pub open spec fn all_read(a: ArgsView) -> ArgsSoFar {
    ArgsSoFar {
        rate_limit: Some(a.rate_limit),
        send_fds: Some(a.send_fds),
        run_as: Some(a.run_as),
        log_level: Some(a.log_level),
    }
}

/// The flags are four different texts.
proof fn flags_differ()
    ensures
        "--rate-limit"@ != "--send-fds"@,
        "--rate-limit"@ != "--run-as"@,
        "--rate-limit"@ != "--log-level"@,
        "--send-fds"@ != "--run-as"@,
        "--send-fds"@ != "--log-level"@,
        "--run-as"@ != "--log-level"@,
{
    reveal_strlit("--rate-limit");
    reveal_strlit("--send-fds");
    reveal_strlit("--run-as");
    reveal_strlit("--log-level");
    assert("--rate-limit"@[2] != "--send-fds"@[2]);
    assert("--rate-limit"@.len() != "--run-as"@.len());
    assert("--rate-limit"@[2] != "--log-level"@[2]);
    assert("--send-fds"@[2] != "--run-as"@[2]);
    assert("--send-fds"@[2] != "--log-level"@[2]);
    assert("--run-as"@[2] != "--log-level"@[2]);
}

/// Reading a whole command line goes on with what stands behind it.
proof fn whole_then(a: ArgsView, rest: Seq<Seq<char>>)
    ensures
        read_args(args_text(a) + rest, ArgsSoFar::none()) == read_args(rest, all_read(a)),
{
    flags_differ();
    let s = args_text(a) + rest;
    decimal_reads_back(a.rate_limit as nat, u32::MAX as nat);
    a_plan_survives_the_command_line(a.send_fds);
    reveal_with_fuel(read_args, 5);
    assert(s.skip(2)[0] == "--send-fds"@ && s.skip(2)[1] == a.send_fds.rendered());
    assert(s.skip(2).skip(2)[0] == "--run-as"@ && s.skip(2).skip(2)[1] == a.run_as);
    assert(s.skip(2).skip(2).skip(2)[0] == "--log-level"@);
    assert(s.skip(2).skip(2).skip(2)[1] == a.log_level);
    assert(s.skip(2).skip(2).skip(2).skip(2) =~= rest);
}

/// A command line without one of its flags and that flag's value.
pub open spec fn without_flag(args: Seq<Seq<char>>, k: int) -> Seq<Seq<char>> {
    args.take(2 * k) + args.skip(2 * k + 2)
}

/// Each flag is required: without it and its value the command line is
/// refused, and the refusal names the flag.
pub proof fn each_argument_is_required(a: ArgsView, k: int)
    requires
        0 <= k < 4,
    ensures
        read_args(without_flag(args_text(a), k), ArgsSoFar::none()) == Err::<ArgsView, Seq<char>>(
            args_text(a)[2 * k] + " is required"@,
        ),
{
    flags_differ();
    reveal_strlit(" is required");
    reveal_strlit("--rate-limit is required");
    reveal_strlit("--send-fds is required");
    reveal_strlit("--run-as is required");
    reveal_strlit("--log-level is required");
    reveal_strlit("--rate-limit");
    reveal_strlit("--send-fds");
    reveal_strlit("--run-as");
    reveal_strlit("--log-level");
    assert("--rate-limit"@ + " is required"@ =~= "--rate-limit is required"@);
    assert("--send-fds"@ + " is required"@ =~= "--send-fds is required"@);
    assert("--run-as"@ + " is required"@ =~= "--run-as is required"@);
    assert("--log-level"@ + " is required"@ =~= "--log-level is required"@);
    decimal_reads_back(a.rate_limit as nat, u32::MAX as nat);
    a_plan_survives_the_command_line(a.send_fds);
    reveal_with_fuel(read_args, 5);
    let all = args_text(a);
    let s = without_flag(all, k);
    assert(s.len() == 6);
    assert forall|i: int| 0 <= i < 6 implies s[i] == if i < 2 * k {
        all[i]
    } else {
        all[i + 2]
    } by {}
    assert(s.skip(2)[0] == s[2] && s.skip(2)[1] == s[3]);
    assert(s.skip(2).skip(2)[0] == s[4] && s.skip(2).skip(2)[1] == s[5]);
    assert(s.skip(2).skip(2).skip(2).len() == 0);
}

/// No flag is taken twice: with a second copy of a flag and its value the
/// command line is refused, and the refusal names the flag.
pub proof fn no_argument_is_taken_twice(a: ArgsView, k: int)
    requires
        0 <= k < 4,
    ensures
        read_args(
            args_text(a) + args_text(a).subrange(2 * k, 2 * k + 2),
            ArgsSoFar::none(),
        ) == Err::<ArgsView, Seq<char>>(twice_message(args_text(a)[2 * k])),
{
    flags_differ();
    let pair = args_text(a).subrange(2 * k, 2 * k + 2);
    whole_then(a, pair);
    decimal_reads_back(a.rate_limit as nat, u32::MAX as nat);
    a_plan_survives_the_command_line(a.send_fds);
    assert(pair[0] == args_text(a)[2 * k] && pair[1] == args_text(a)[2 * k + 1]);
}

/// Nothing else is taken: one more text behind the arguments is refused, and
/// so is a pair that is none of the flags.
pub proof fn nothing_else_is_taken(a: ArgsView, extra: Seq<char>, value: Seq<char>)
    ensures
        read_args(args_text(a) + seq![extra], ArgsSoFar::none()) == Err::<ArgsView, Seq<char>>(
            extra + " needs a value"@,
        ),
        read_args(args_text(a) + seq![extra, value], ArgsSoFar::none()) is Err,
{
    whole_then(a, seq![extra]);
    whole_then(a, seq![extra, value]);
}

/// A rate limit that is no number of its range is refused wherever it stands
/// first.
pub proof fn a_rate_limit_is_a_number(a: ArgsView, value: Seq<char>)
    requires
        number_of(value, 10, u32::MAX as nat) is Err,
    ensures
        read_args(args_text(a).update(1, value), ArgsSoFar::none()) is Err,
{
}

} // verus!
