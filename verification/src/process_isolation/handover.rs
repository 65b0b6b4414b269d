//! What handing descriptors to the worker, and the handle on it, are for.
//!
//! Each law speaks of what a call is given and what it gives back: which
//! descriptor stands where, what the worker is told, what it gives up before it
//! serves, and what its end means.
use crate::channel::Outbox;
use crate::number::{digit_in, number_of, read_number, scanned, NumberFault};
use crate::process_isolation::adoption::{
    adoption_order, caps_all_clear, check_adoption, descriptor_matches, error_of, exit_code, harden,
    hardened_out, placement_covers_every_slot_once, refusal, refuse_all, said, set_fault, source_of,
    status_value, HardenEvent, HardenFacts, HardenNext, HardenStep, Placement, Probe, SendSockets,
    SocketFamily, SocketType, WorkerEnd,
};
use crate::process_isolation::handle::{HandleShared, ScannerKillHandle, ServingEnds, Written};
use crate::process_isolation::spawn::{
    crosses, one, plan_spawn, present, told, worker_args, worker_environment, KillWorkerSpawn,
    SpawnPlan,
};
use crate::process_isolation::worker_process::{
    a_plan_survives_the_command_line, all_kinds, arguments_survive_the_command_line, name_of,
    read_args, read_plan, slot_of, take_flag, text_views, ArgsSoFar, ArgsView, FdPlan, NamesFault,
    SendFd, WorkerArgs, FIRST_FREE_FD,
};
use crate::process_isolation::{HandedOver, KillRequest, KillResponse, SendCounters};
use crate::transmit::{CaptureSource, TransmitPermit};
use crate::words::{joined, lacks, split_on, split_undoes_join, starts, trim_end, trim_start};
use vstd::prelude::*;

verus! {

/// The number of a kind's slot: the raw sockets and then the ephemeral ones,
/// IPv4 before IPv6, from the first number above the standard streams on.
pub open spec fn number_of_slot(kind: SendFd) -> i32 {
    match kind {
        SendFd::RawV4 => 3,
        SendFd::RawV6 => 4,
        SendFd::UdpV4 => 5,
        SendFd::UdpV6 => 6,
    }
}

/// The name of a kind on the command line.
pub open spec fn word_of(kind: SendFd) -> Seq<char> {
    match kind {
        SendFd::RawV4 => seq!['r', 'a', 'w', '4'],
        SendFd::RawV6 => seq!['r', 'a', 'w', '6'],
        SendFd::UdpV4 => seq!['u', 'd', 'p', '4'],
        SendFd::UdpV6 => seq!['u', 'd', 'p', '6'],
    }
}

/// The names of the kinds, letter by letter.
proof fn words_are(kind: SendFd)
    ensures
        word_of(kind) == name_of(kind),
{
    reveal_strlit("raw4");
    reveal_strlit("raw6");
    reveal_strlit("udp4");
    reveal_strlit("udp6");
    assert("raw4"@ =~= seq!['r', 'a', 'w', '4']);
    assert("raw6"@ =~= seq!['r', 'a', 'w', '6']);
    assert("udp4"@ =~= seq!['u', 'd', 'p', '4']);
    assert("udp6"@ =~= seq!['u', 'd', 'p', '6']);
}

/// Each kind has its slot and its name, and a name is read as its kind and no
/// other text as any.
pub proof fn each_kind_has_its_slot_and_its_name(
    kind: SendFd,
    slot: i32,
    name: &'static str,
    text: &str,
    r: Option<SendFd>,
)
    requires
        call_ensures(SendFd::slot, (kind,), slot),
        call_ensures(SendFd::name, (kind,), name),
        call_ensures(SendFd::from_name, (text,), r),
    ensures
        slot == number_of_slot(kind),
        name@ == word_of(kind),
        r == Some(kind) <==> text@ == word_of(kind),
{
    words_are(SendFd::RawV4);
    words_are(SendFd::RawV6);
    words_are(SendFd::UdpV4);
    words_are(SendFd::UdpV6);
    assert(word_of(SendFd::RawV4)[3] != word_of(SendFd::RawV6)[3]);
    assert(word_of(SendFd::UdpV4)[3] != word_of(SendFd::UdpV6)[3]);
    assert(word_of(SendFd::RawV4)[0] != word_of(SendFd::UdpV4)[0]);
    assert(word_of(SendFd::RawV4)[0] != word_of(SendFd::UdpV6)[0]);
    assert(word_of(SendFd::RawV6)[0] != word_of(SendFd::UdpV4)[0]);
    assert(word_of(SendFd::RawV6)[0] != word_of(SendFd::UdpV6)[0]);
}

/// A plan holds the kinds it was made of, and is empty where there were none.
pub proof fn a_plan_holds_what_it_was_made_of(
    kinds: &[SendFd],
    plan: &FdPlan,
    kind: SendFd,
    there: bool,
    empty: bool,
)
    requires
        call_ensures(FdPlan::new, (kinds,), *plan),
        call_ensures(FdPlan::contains, (plan, kind), there),
        call_ensures(FdPlan::is_empty, (plan,), empty),
    ensures
        there <==> exists|i: int| 0 <= i < kinds@.len() && #[trigger] kinds@[i] == kind,
        empty <==> kinds@.len() == 0,
        plan.raw_v4 <==> kinds@.contains(SendFd::RawV4),
        plan.raw_v6 <==> kinds@.contains(SendFd::RawV6),
        plan.udp_v4 <==> kinds@.contains(SendFd::UdpV4),
        plan.udp_v6 <==> kinds@.contains(SendFd::UdpV6),
{
    assert(plan.has(kind) <==> kinds@.contains(kind));
    assert(plan.has(SendFd::RawV4) <==> kinds@.contains(SendFd::RawV4));
    assert(plan.has(SendFd::RawV6) <==> kinds@.contains(SendFd::RawV6));
    assert(plan.has(SendFd::UdpV4) <==> kinds@.contains(SendFd::UdpV4));
    assert(plan.has(SendFd::UdpV6) <==> kinds@.contains(SendFd::UdpV6));
    if kinds@.len() > 0 {
        assert(kinds@.contains(kinds@[0]));
    }
}

/// A plan is written and read back as itself, and is the only one that is
/// written so.
pub proof fn a_plan_is_read_as_it_was_written(
    a: &FdPlan,
    b: &FdPlan,
    text: String,
    other: String,
    value: &str,
    r: Result<FdPlan, String>,
)
    requires
        call_ensures(FdPlan::render, (a,), text),
        call_ensures(FdPlan::render, (b,), other),
        call_ensures(FdPlan::parse, (value,), r),
    ensures
        value@ == text@ ==> r == Ok::<FdPlan, String>(*a),
        r == Ok::<FdPlan, String>(*a) ==> value@ == text@,
        text@ == other@ ==> *a == *b,
{
    a_plan_survives_the_command_line(*a);
    a_plan_survives_the_command_line(*b);
}

/// The name of a kind, where it is handed over.
pub open spec fn word_where(there: bool, kind: SendFd) -> Seq<Seq<char>> {
    if there {
        seq![word_of(kind)]
    } else {
        seq![]
    }
}

/// A plan is written as the names of its kinds in slot order with commas
/// between, and as `none` where it holds nothing.
pub proof fn a_plan_is_written_in_slot_order(plan: &FdPlan, text: String)
    requires
        call_ensures(FdPlan::render, (plan,), text),
    ensures
        *plan == (FdPlan { raw_v4: false, raw_v6: false, udp_v4: false, udp_v6: false }) ==> text@
            == seq!['n', 'o', 'n', 'e'],
        *plan != (FdPlan { raw_v4: false, raw_v6: false, udp_v4: false, udp_v6: false }) ==> text@
            == joined(
            word_where(plan.raw_v4, SendFd::RawV4) + word_where(plan.raw_v6, SendFd::RawV6)
                + word_where(plan.udp_v4, SendFd::UdpV4) + word_where(plan.udp_v6, SendFd::UdpV6),
            ',',
        ),
{
    reveal_strlit("none");
    words_are(SendFd::RawV4);
    words_are(SendFd::RawV6);
    words_are(SendFd::UdpV4);
    words_are(SendFd::UdpV6);
    assert("none"@ =~= seq!['n', 'o', 'n', 'e']);
    assert(plan.names() =~= word_where(plan.raw_v4, SendFd::RawV4) + word_where(
        plan.raw_v6,
        SendFd::RawV6,
    ) + word_where(plan.udp_v4, SendFd::UdpV4) + word_where(plan.udp_v6, SendFd::UdpV6));
}

/// A descriptor is taken over exactly where it is a socket of the family and
/// type that its slot promises: raw or datagram, IPv4 or IPv6.
pub proof fn only_the_promised_socket_is_adopted(
    kind: SendFd,
    probe: Probe,
    family: SocketFamily,
    sock_type: SocketType,
    r: Result<(), String>,
    m: bool,
)
    requires
        call_ensures(check_adoption, (kind, probe), r),
        call_ensures(descriptor_matches, (kind, family, sock_type), m),
    ensures
        m <==> sock_type == (if kind == SendFd::RawV4 || kind == SendFd::RawV6 {
            SocketType::Raw
        } else {
            SocketType::Dgram
        }) && family == (if kind == SendFd::RawV4 || kind == SendFd::UdpV4 {
            SocketFamily::Inet
        } else {
            SocketFamily::Inet6
        }),
        probe is NotASocket ==> r is Err,
        probe matches Probe::Socket { family: f, sock_type: t, family_number, type_number } ==> (f
            == family && t == sock_type ==> (r is Ok <==> m)),
{
}

/// The descriptors are taken over in slot order, each kind of the plan once and
/// no other.
pub proof fn the_plan_is_adopted_in_slot_order(plan: &FdPlan, r: Vec<SendFd>)
    requires
        call_ensures(adoption_order, (plan,), r),
    ensures
        r@.contains(SendFd::RawV4) <==> plan.raw_v4,
        r@.contains(SendFd::RawV6) <==> plan.raw_v6,
        r@.contains(SendFd::UdpV4) <==> plan.udp_v4,
        r@.contains(SendFd::UdpV6) <==> plan.udp_v6,
        forall|i: int, j: int|
            0 <= i < j < r@.len() ==> number_of_slot(#[trigger] r@[i]) < number_of_slot(
                #[trigger] r@[j],
            ),
{
    let wanted = |k: SendFd| plan.has(k);
    let all = all_kinds();
    reveal_with_fuel(Seq::filter, 5);
    let d1 = all.drop_last();
    let d2 = d1.drop_last();
    let d3 = d2.drop_last();
    assert(d3.drop_last() =~= Seq::<SendFd>::empty());
    assert(all.last() == SendFd::UdpV6 && d1.last() == SendFd::UdpV4 && d2.last()
        == SendFd::RawV6 && d3.last() == SendFd::RawV4);
    let f3 = d3.filter(wanted);
    let f2 = d2.filter(wanted);
    let f1 = d1.filter(wanted);
    let f = all.filter(wanted);
    assert(d3.drop_last().filter(wanted) =~= seq![]);
    if plan.raw_v4 {
        assert(f[0] == SendFd::RawV4);
    }
    if plan.raw_v6 {
        assert(f[f2.len() - 1] == SendFd::RawV6);
    }
    if plan.udp_v4 {
        assert(f[f1.len() - 1] == SendFd::UdpV4);
    }
    if plan.udp_v6 {
        assert(f[f.len() - 1] == SendFd::UdpV6);
    }
}

/// Every descriptor is moved to the slot of its kind, and every slot that none
/// is moved to is named as vacant, so that nothing else can stand there.
pub proof fn every_descriptor_goes_to_its_slot(
    sources: &[(SendFd, i32)],
    i: int,
    kind: SendFd,
    r: Placement,
)
    requires
        call_ensures(Placement::plan, (sources,), r),
        forall|a: int, b: int|
            0 <= a < b < sources@.len() ==> (#[trigger] sources@[a]).0 != (#[trigger] sources@[b]).0,
    ensures
        0 <= i < sources@.len() ==> r.moves@.contains(
            (sources@[i].1, number_of_slot(sources@[i].0)),
        ) && !r.vacant@.contains(number_of_slot(sources@[i].0)),
        (forall|a: int| 0 <= a < sources@.len() ==> (#[trigger] sources@[a]).0 != kind)
            ==> r.vacant@.contains(number_of_slot(kind)),
        r.moves@.len() + r.vacant@.len() == 4,
{
    placement_covers_every_slot_once(sources@);
    if 0 <= i < sources@.len() {
        the_source_is(sources@, i);
        let k = sources@[i].0;
        assert(r.moves@.contains(
            (
                source_of(sources@, k)->0,
                slot_of(k),
            ),
        ));
    }
    if forall|a: int| 0 <= a < sources@.len() ==> (#[trigger] sources@[a]).0 != kind {
        no_source_is(sources@, kind);
        assert(r.vacant@.contains(slot_of(kind)));
    }
}

/// Where no kind stands twice, the source of a kind is the one that is there.
proof fn the_source_is(sources: Seq<(SendFd, i32)>, i: int)
    requires
        0 <= i < sources.len(),
        forall|a: int, b: int|
            0 <= a < b < sources.len() ==> (#[trigger] sources[a]).0 != (#[trigger] sources[b]).0,
    ensures
        source_of(sources, sources[i].0) == Some(sources[i].1),
    decreases sources.len(),
{
    if i > 0 {
        let rest = sources.skip(1);
        assert(sources[0].0 != sources[i].0);
        assert forall|a: int, b: int| 0 <= a < b < rest.len() implies (#[trigger] rest[a]).0 != (
        #[trigger] rest[b]).0 by {
            assert(rest[a] == sources[a + 1] && rest[b] == sources[b + 1]);
        }
        the_source_is(rest, i - 1);
        assert(rest[i - 1] == sources[i]);
    }
}

/// A kind that stands nowhere has no source.
proof fn no_source_is(sources: Seq<(SendFd, i32)>, kind: SendFd)
    requires
        forall|a: int| 0 <= a < sources.len() ==> (#[trigger] sources[a]).0 != kind,
    ensures
        source_of(sources, kind) is None,
    decreases sources.len(),
{
    if sources.len() > 0 {
        assert(sources[0].0 != kind);
        let rest = sources.skip(1);
        assert forall|a: int| 0 <= a < rest.len() implies (#[trigger] rest[a]).0 != kind by {
            assert(rest[a] == sources[a + 1]);
        }
        no_source_is(rest, kind);
    }
}

/// Whether a text holds nothing but zeros.
pub open spec fn all_zero(s: Seq<char>) -> bool {
    forall|i: int| 0 <= i < s.len() ==> #[trigger] s[i] == '0'
}

/// Whether a text is zero written in any number of digits.
pub open spec fn written_zero(s: Seq<char>) -> bool {
    if s.len() > 0 && s[0] == '+' {
        s.len() > 1 && all_zero(s.skip(1))
    } else {
        s.len() > 0 && all_zero(s)
    }
}

/// Digits scan to nothing exactly where they are all zero.
proof fn zero_scans(s: Seq<char>)
    ensures
        scanned(s, 16, u64::MAX as nat) == Ok::<nat, NumberFault>(0) <==> all_zero(s),
    decreases s.len(),
{
    if s.len() > 0 {
        let front = s.drop_last();
        zero_scans(front);
        if scanned(s, 16, u64::MAX as nat) == Ok::<nat, NumberFault>(0) {
            let v = scanned(front, 16, u64::MAX as nat)->Ok_0;
            let d = digit_in(s.last(), 16)->0;
            assert(v * 16 + d == 0);
            assert(v == 0 && d == 0);
            assert(s.last() == '0');
            assert forall|i: int| 0 <= i < s.len() implies #[trigger] s[i] == '0' by {
                if i < front.len() {
                    assert(front[i] == '0');
                }
            }
        }
        if all_zero(s) {
            assert forall|i: int| 0 <= i < front.len() implies #[trigger] front[i] == '0' by {
                assert(s[i] == '0');
            }
            assert(s[s.len() - 1] == '0');
        }
    }
}

/// A number is nothing exactly where it is a written zero.
proof fn zero_is_written(s: Seq<char>)
    ensures
        number_of(s, 16, u64::MAX as nat) == Ok::<nat, NumberFault>(0) <==> written_zero(s),
{
    if s.len() > 0 && s[0] == '+' {
        zero_scans(s.skip(1));
    } else {
        zero_scans(s);
    }
}

/// Whether a line gives a set of this name.
pub open spec fn gives(line: Seq<char>, name: Seq<char>) -> bool {
    line.len() > name.len() && line.take(name.len() as int) == name && line[name.len() as int] == ':'
}

/// Whether the first line that gives a set of this name gives it as empty.
pub open spec fn given_empty(lines: Seq<Seq<char>>, name: Seq<char>) -> bool {
    exists|i: int|
        {
            &&& 0 <= i < lines.len()
            &&& gives(#[trigger] lines[i], name)
            &&& forall|j: int| 0 <= j < i ==> !gives(#[trigger] lines[j], name)
            &&& written_zero(trim_end(trim_start(lines[i].skip(name.len() as int + 1))))
        }
}

/// Whether no line gives a set of this name.
pub open spec fn not_given(lines: Seq<Seq<char>>, name: Seq<char>) -> bool {
    forall|i: int| 0 <= i < lines.len() ==> !gives(#[trigger] lines[i], name)
}

/// A line gives a set where it starts with its name and a colon.
proof fn giving_is_starting(line: Seq<char>, name: Seq<char>)
    ensures
        gives(line, name) <==> starts(line, name) && starts(
            line.skip(name.len() as int),
            seq![':'],
        ),
{
    if line.len() > name.len() {
        let rest = line.skip(name.len() as int);
        assert(rest[0] == line[name.len() as int]);
        if rest[0] == ':' {
            assert(rest.take(1) =~= seq![':']);
        }
        if rest.take(1) == seq![':'] {
            assert(rest.take(1)[0] == rest[0]);
        }
    }
}

/// The value of a set, by the first line that gives it.
proof fn the_first_line_gives(lines: Seq<Seq<char>>, name: Seq<char>)
    ensures
        status_value(lines, name) is None <==> not_given(lines, name),
        (status_value(lines, name) is Some && written_zero(status_value(lines, name)->0))
            <==> given_empty(lines, name),
    decreases lines.len(),
{
    if lines.len() > 0 {
        let rest = lines.skip(1);
        the_first_line_gives(rest, name);
        giving_is_starting(lines[0], name);
        if gives(lines[0], name) {
            if given_empty(lines, name) {
                let i = choose|i: int|
                    {
                        &&& 0 <= i < lines.len()
                        &&& gives(#[trigger] lines[i], name)
                        &&& forall|j: int| 0 <= j < i ==> !gives(#[trigger] lines[j], name)
                        &&& written_zero(
                            trim_end(trim_start(lines[i].skip(name.len() as int + 1))),
                        )
                    };
                assert(i == 0) by {
                    if i > 0 {
                        assert(!gives(lines[0], name));
                    }
                }
            }
            if written_zero(status_value(lines, name)->0) {
                assert(gives(lines[0], name));
                assert(given_empty(lines, name));
            }
        } else {
            if not_given(rest, name) {
                assert forall|i: int| 0 <= i < lines.len() implies !gives(
                    #[trigger] lines[i],
                    name,
                ) by {
                    if i > 0 {
                        assert(rest[i - 1] == lines[i]);
                    }
                }
            }
            if not_given(lines, name) {
                assert forall|i: int| 0 <= i < rest.len() implies !gives(#[trigger] rest[i], name) by {
                    assert(rest[i] == lines[i + 1]);
                }
            }
            if given_empty(rest, name) {
                let i = choose|i: int|
                    {
                        &&& 0 <= i < rest.len()
                        &&& gives(#[trigger] rest[i], name)
                        &&& forall|j: int| 0 <= j < i ==> !gives(#[trigger] rest[j], name)
                        &&& written_zero(trim_end(trim_start(rest[i].skip(name.len() as int + 1))))
                    };
                assert(lines[i + 1] == rest[i]);
                assert forall|j: int| 0 <= j < i + 1 implies !gives(#[trigger] lines[j], name) by {
                    if j > 0 {
                        assert(lines[j] == rest[j - 1]);
                    }
                }
            }
            if given_empty(lines, name) {
                let i = choose|i: int|
                    {
                        &&& 0 <= i < lines.len()
                        &&& gives(#[trigger] lines[i], name)
                        &&& forall|j: int| 0 <= j < i ==> !gives(#[trigger] lines[j], name)
                        &&& written_zero(
                            trim_end(trim_start(lines[i].skip(name.len() as int + 1))),
                        )
                    };
                assert(rest[i - 1] == lines[i]);
                assert forall|j: int| 0 <= j < i - 1 implies !gives(#[trigger] rest[j], name) by {
                    assert(rest[j] == lines[j + 1]);
                }
            }
        }
    }
}

/// One set is in order where it is given as empty, or may be missing and is.
proof fn a_set_is_in_order(lines: Seq<Seq<char>>, status: Seq<char>, name: Seq<char>, required: bool)
    requires
        split_on(status, '\n') == lines,
    ensures
        set_fault(status, name, required) is None <==> given_empty(lines, name) || (!required
            && not_given(lines, name)),
{
    the_first_line_gives(lines, name);
    if let Some(hex) = status_value(lines, name) {
        zero_is_written(hex);
    }
}

/// A process holds no capability exactly where the lines of its status give the
/// inheritable, permitted and effective sets as empty, and the ambient one too
/// if they give it.
pub proof fn no_capability_is_held_where_every_set_is_empty(
    status: &str,
    lines: Seq<Seq<char>>,
    r: Result<(), String>,
)
    requires
        call_ensures(caps_all_clear, (status,), r),
        lines.len() > 0,
        status@ == joined(lines, '\n'),
        forall|i: int| 0 <= i < lines.len() ==> lacks(#[trigger] lines[i], '\n'),
    ensures
        r is Ok <==> {
            &&& given_empty(lines, seq!['C', 'a', 'p', 'I', 'n', 'h'])
            &&& given_empty(lines, seq!['C', 'a', 'p', 'P', 'r', 'm'])
            &&& given_empty(lines, seq!['C', 'a', 'p', 'E', 'f', 'f'])
            &&& given_empty(lines, seq!['C', 'a', 'p', 'A', 'm', 'b']) || not_given(
                lines,
                seq!['C', 'a', 'p', 'A', 'm', 'b'],
            )
        },
{
    split_undoes_join(lines, '\n');
    reveal_strlit("CapInh");
    reveal_strlit("CapPrm");
    reveal_strlit("CapEff");
    reveal_strlit("CapAmb");
    assert("CapInh"@ =~= seq!['C', 'a', 'p', 'I', 'n', 'h']);
    assert("CapPrm"@ =~= seq!['C', 'a', 'p', 'P', 'r', 'm']);
    assert("CapEff"@ =~= seq!['C', 'a', 'p', 'E', 'f', 'f']);
    assert("CapAmb"@ =~= seq!['C', 'a', 'p', 'A', 'm', 'b']);
    a_set_is_in_order(lines, status@, "CapInh"@, true);
    a_set_is_in_order(lines, status@, "CapPrm"@, true);
    a_set_is_in_order(lines, status@, "CapEff"@, true);
    a_set_is_in_order(lines, status@, "CapAmb"@, false);
}

/// A worker without a descriptor refuses, and only such a one; while it refuses
/// it answers every send with its reason and stops at anything else.
pub proof fn a_worker_without_a_descriptor_refuses<R, U>(
    sockets: &SendSockets<R, U>,
    why: Option<&'static str>,
    q: Option<KillRequest>,
    reason: &str,
    r: Option<KillResponse>,
)
    requires
        call_ensures(refusal::<R, U>, (sockets,), why),
        call_ensures(refuse_all, (q, reason), r),
    ensures
        why is None <==> sockets.raw is Some || sockets.udp_v4 is Some || sockets.udp_v6 is Some,
        q matches Some(KillRequest::SendResponse { .. }) ==> (r matches Some(
            KillResponse::Rejected { reason: said },
        ) && said@ == reason@),
        q matches Some(KillRequest::Shutdown) ==> r is None,
        q is None ==> r is None,
{
}

/// Every step of giving up leads on toward the same end.
pub proof fn every_step_of_giving_up_leads_to_its_end(
    step: HardenStep,
    event: HardenEvent,
    run_as: &str,
    f: HardenFacts,
    r: HardenNext,
)
    requires
        call_ensures(harden, (step, event, run_as), r),
        match step {
            HardenStep::SeeRoot => event == HardenEvent::Root(f.root),
            HardenStep::SeeRootAgain => event == HardenEvent::Root(f.still_root),
            HardenStep::DropRoot => !(event is Root) && error_of(event) == f.not_dropped,
            HardenStep::ClearCapabilities => !(event is Root) && error_of(event) == f.not_cleared,
            HardenStep::BlockEscalation => !(event is Root) && error_of(event) == f.not_blocked,
            HardenStep::MakeUndumpable => !(event is Root) && error_of(event) == f.not_undumpable,
        },
    ensures
        match r {
            HardenNext::Go { step: next, warning } => hardened_out(step, f, run_as@)
                == hardened_out(next, f, run_as@),
            HardenNext::Ready { warning } => hardened_out(step, f, run_as@) is Ready,
            HardenNext::Refuse(why) => hardened_out(step, f, run_as@) is Refuse,
        },
{
}

/// A worker is ready only once it has taken every step, in order: root is given
/// up before the capabilities, and those before the rest. Where one of the last
/// two fails, that is said; where nothing fails, nothing is.
pub proof fn a_worker_is_ready_once_every_step_was_taken(
    step: HardenStep,
    event: HardenEvent,
    run_as: &str,
    r: HardenNext,
)
    requires
        call_ensures(harden, (step, event, run_as), r),
    ensures
        r is Ready ==> step == HardenStep::MakeUndumpable,
        step == HardenStep::MakeUndumpable ==> r is Ready,
        r matches HardenNext::Go { step: next, warning } ==> match next {
            HardenStep::SeeRoot => false,
            HardenStep::DropRoot => step == HardenStep::SeeRoot && event == HardenEvent::Root(true),
            HardenStep::SeeRootAgain => step == HardenStep::DropRoot,
            HardenStep::ClearCapabilities => (step == HardenStep::SeeRoot || step
                == HardenStep::SeeRootAgain) && event != HardenEvent::Root(true),
            HardenStep::BlockEscalation => step == HardenStep::ClearCapabilities && !(
            event is Failed),
            HardenStep::MakeUndumpable => step == HardenStep::BlockEscalation,
        },
        r is Refuse <==> (step == HardenStep::DropRoot && event is Failed) || (step
            == HardenStep::SeeRootAgain && event == HardenEvent::Root(true)) || (step
            == HardenStep::ClearCapabilities && event is Failed),
        r matches HardenNext::Go { step: next, warning } ==> (warning is Some <==> step
            == HardenStep::BlockEscalation && event is Failed),
        r matches HardenNext::Ready { warning } ==> (warning is Some <==> event is Failed),
{
}

/// Each end of the worker process has an exit code of its own, and only a
/// finished one is a success.
pub proof fn ends_are_told_apart(a: WorkerEnd, b: WorkerEnd, x: i32, y: i32)
    requires
        call_ensures(exit_code, (a,), x),
        call_ensures(exit_code, (b,), y),
    ensures
        x == y <==> a == b,
        x == 0 <==> a == WorkerEnd::Finished,
{
}

/// The arguments of a worker are read back as they were written.
pub proof fn arguments_are_read_as_they_were_written(
    a: &WorkerArgs,
    written: Vec<String>,
    args: &[String],
    r: Result<WorkerArgs, String>,
)
    requires
        call_ensures(WorkerArgs::to_args, (a,), written),
        call_ensures(WorkerArgs::parse, (args,), r),
        args@ == written@,
    ensures
        r matches Ok(b) && b.rate_limit == a.rate_limit && b.send_fds == a.send_fds && b.run_as@
            == a.run_as@ && b.log_level@ == a.log_level@,
{
    arguments_survive_the_command_line(a@);
}

/// Taking two different flags in either order comes to the same.
proof fn flags_commute(
    s: ArgsSoFar,
    f: Seq<char>,
    x: Seq<char>,
    g: Seq<char>,
    y: Seq<char>,
    rest: Seq<Seq<char>>,
    a: ArgsView,
)
    requires
        f != g,
    ensures
        read_args(seq![f, x, g, y] + rest, s) == Ok::<ArgsView, Seq<char>>(a) <==> read_args(
            seq![g, y, f, x] + rest,
            s,
        ) == Ok::<ArgsView, Seq<char>>(a),
{
    let one = seq![f, x, g, y] + rest;
    let two = seq![g, y, f, x] + rest;
    assert(one.skip(2) =~= seq![g, y] + rest);
    assert(two.skip(2) =~= seq![f, x] + rest);
    assert((seq![g, y] + rest).skip(2) =~= rest);
    assert((seq![f, x] + rest).skip(2) =~= rest);
    reveal_with_fuel(read_args, 3);
}

/// The same behind arguments that come before.
proof fn flags_commute_behind(
    before: Seq<Seq<char>>,
    s: ArgsSoFar,
    f: Seq<char>,
    x: Seq<char>,
    g: Seq<char>,
    y: Seq<char>,
    rest: Seq<Seq<char>>,
    a: ArgsView,
)
    requires
        f != g,
        before.len() % 2 == 0,
    ensures
        read_args(before + seq![f, x, g, y] + rest, s) == Ok::<ArgsView, Seq<char>>(a)
            <==> read_args(before + seq![g, y, f, x] + rest, s) == Ok::<ArgsView, Seq<char>>(a),
    decreases before.len(),
{
    let one = before + seq![f, x, g, y] + rest;
    let two = before + seq![g, y, f, x] + rest;
    if before.len() == 0 {
        assert(one =~= seq![f, x, g, y] + rest);
        assert(two =~= seq![g, y, f, x] + rest);
        flags_commute(s, f, x, g, y, rest, a);
    } else {
        let less = before.skip(2);
        assert(one.skip(2) =~= less + seq![f, x, g, y] + rest);
        assert(two.skip(2) =~= less + seq![g, y, f, x] + rest);
        assert(one[0] == two[0] && one[1] == two[1]);
        if let Ok(next) = take_flag(s, one[0], one[1]) {
            flags_commute_behind(less, next, f, x, g, y, rest, a);
        }
    }
}

/// The flags of a worker come in any order: two that stand side by side may
/// change places, wherever they stand.
pub proof fn the_order_of_flags_does_not_matter(
    before: Seq<Seq<char>>,
    f: Seq<char>,
    x: Seq<char>,
    g: Seq<char>,
    y: Seq<char>,
    rest: Seq<Seq<char>>,
    one: &[String],
    two: &[String],
    r: Result<WorkerArgs, String>,
    q: Result<WorkerArgs, String>,
)
    requires
        call_ensures(WorkerArgs::parse, (one,), r),
        call_ensures(WorkerArgs::parse, (two,), q),
        text_views(one@) == before + seq![f, x, g, y] + rest,
        text_views(two@) == before + seq![g, y, f, x] + rest,
        before.len() % 2 == 0,
        f != g,
    ensures
        r is Ok <==> q is Ok,
        r is Ok ==> r->Ok_0.rate_limit == q->Ok_0.rate_limit && r->Ok_0.send_fds
            == q->Ok_0.send_fds && r->Ok_0.run_as@ == q->Ok_0.run_as@ && r->Ok_0.log_level@
            == q->Ok_0.log_level@,
{
    if r is Ok {
        flags_commute_behind(before, ArgsSoFar::none(), f, x, g, y, rest, r->Ok_0@);
    }
    if q is Ok {
        flags_commute_behind(before, ArgsSoFar::none(), f, x, g, y, rest, q->Ok_0@);
    }
}

/// The flag at a place among the flags of a command line.
pub open spec fn flag_at(args: Seq<Seq<char>>, i: int) -> Seq<char> {
    args[2 * i]
}

/// The value behind it.
pub open spec fn value_at(args: Seq<Seq<char>>, i: int) -> Seq<char> {
    args[2 * i + 1]
}

/// Whether a flag gave what it is for, and nothing had given it before.
spec fn gave(s: ArgsSoFar, flag: Seq<char>, value: Seq<char>, a: ArgsView) -> bool {
    ||| flag == "--rate-limit"@ && s.rate_limit is None && number_of(value, 10, 0xFFFF_FFFF) == Ok::<
        nat,
        NumberFault,
    >(a.rate_limit as nat)
    ||| flag == "--send-fds"@ && s.send_fds is None && read_plan(value) == Ok::<
        FdPlan,
        NamesFault,
    >(a.send_fds)
    ||| flag == "--run-as"@ && s.run_as is None && a.run_as == value
    ||| flag == "--log-level"@ && s.log_level is None && a.log_level == value
}

/// How many flags are still to come.
spec fn missing(s: ArgsSoFar) -> int {
    (if s.rate_limit is None {
        1int
    } else {
        0
    }) + (if s.send_fds is None {
        1int
    } else {
        0
    }) + (if s.run_as is None {
        1int
    } else {
        0
    }) + (if s.log_level is None {
        1int
    } else {
        0
    })
}

/// The flags differ in their length.
proof fn flags_differ()
    ensures
        "--rate-limit"@.len() == 12,
        "--send-fds"@.len() == 10,
        "--run-as"@.len() == 8,
        "--log-level"@.len() == 11,
{
    reveal_strlit("--rate-limit");
    reveal_strlit("--send-fds");
    reveal_strlit("--run-as");
    reveal_strlit("--log-level");
}

/// A command line that is read gives each missing flag once.
proof fn each_flag_gives_its_own(args: Seq<Seq<char>>, s: ArgsSoFar, a: ArgsView)
    requires
        read_args(args, s) == Ok::<ArgsView, Seq<char>>(a),
    ensures
        args.len() == 2 * missing(s),
        s.rate_limit matches Some(n) ==> a.rate_limit == n,
        s.send_fds matches Some(p) ==> a.send_fds == p,
        s.run_as matches Some(u) ==> a.run_as == u,
        s.log_level matches Some(l) ==> a.log_level == l,
        forall|i: int|
            0 <= i && 2 * i < args.len() ==> gave(
                s,
                #[trigger] flag_at(args, i),
                value_at(args, i),
                a,
            ),
        forall|i: int, j: int|
            0 <= i < j && 2 * j < args.len() ==> #[trigger] flag_at(args, i) != #[trigger] flag_at(
                args,
                j,
            ),
    decreases args.len(),
{
    flags_differ();
    if args.len() >= 2 {
        let next = take_flag(s, args[0], args[1])->Ok_0;
        let rest = args.skip(2);
        each_flag_gives_its_own(rest, next, a);
        assert(gave(s, flag_at(args, 0), value_at(args, 0), a));
        assert forall|i: int| 0 <= i && 2 * i < args.len() implies gave(
            s,
            #[trigger] flag_at(args, i),
            value_at(args, i),
            a,
        ) && (i > 0 ==> flag_at(args, i) != flag_at(args, 0)) by {
            if i > 0 {
                assert(flag_at(rest, i - 1) == flag_at(args, i));
                assert(value_at(rest, i - 1) == value_at(args, i));
                assert(gave(next, flag_at(rest, i - 1), value_at(rest, i - 1), a));
            }
        }
        assert forall|i: int, j: int| 0 <= i < j && 2 * j < args.len() implies #[trigger] flag_at(
            args,
            i,
        ) != #[trigger] flag_at(args, j) by {
            if i > 0 {
                assert(flag_at(rest, i - 1) == flag_at(args, i));
                assert(flag_at(rest, j - 1) == flag_at(args, j));
            }
        }
    }
}

/// A worker takes each of its four flags exactly once and nothing else, each with
/// a value, and means by each what it was given.
pub proof fn a_worker_takes_each_flag_once(
    args: &[String],
    r: Result<WorkerArgs, String>,
    i: int,
    j: int,
    digits: &[char],
    number: Result<u64, NumberFault>,
    list: &str,
    plan: Result<FdPlan, String>,
)
    requires
        call_ensures(WorkerArgs::parse, (args,), r),
        call_ensures(read_number, (digits, 10, 0xFFFF_FFFF), number),
        call_ensures(FdPlan::parse, (list,), plan),
        0 <= i < 4,
        0 <= j < 4,
        i != j,
    ensures
        r is Ok ==> args@.len() == 8,
        r is Ok ==> args@[2 * i]@ != args@[2 * j]@,
        r matches Ok(a) ==> {
            let flag = args@[2 * i]@;
            let value = args@[2 * i + 1]@;
            &&& flag == "--rate-limit"@ || flag == "--send-fds"@ || flag == "--run-as"@ || flag
                == "--log-level"@
            &&& flag == "--run-as"@ ==> a.run_as@ == value
            &&& flag == "--log-level"@ ==> a.log_level@ == value
            &&& flag == "--rate-limit"@ && digits@ == value ==> (number matches Ok(n) && n
                == a.rate_limit)
            &&& flag == "--send-fds"@ && list@ == value ==> plan == Ok::<FdPlan, String>(a.send_fds)
        },
{
    flags_differ();
    if let Ok(a) = r {
        let all = text_views(args@);
        each_flag_gives_its_own(all, ArgsSoFar::none(), a@);
        assert(all.len() == args@.len());
        assert(flag_at(all, i) == args@[2 * i]@ && value_at(all, i) == args@[2 * i + 1]@);
        assert(flag_at(all, j) == args@[2 * j]@);
        if i < j {
            assert(flag_at(all, i) != flag_at(all, j));
        } else {
            assert(flag_at(all, j) != flag_at(all, i));
        }
    }
}

/// Whether a variable is one that running the same program the same way needs.
pub open spec fn needed_to_run(name: Seq<char>) -> bool {
    ||| name == "SIPNAB_LOG"@
    ||| name == "NO_COLOR"@ || name == "RUST_BACKTRACE"@
    ||| name == "LD_LIBRARY_PATH"@ || name == "DYLD_LIBRARY_PATH"@
    ||| name == "LLVM_PROFILE_FILE"@ || name == "ASAN_OPTIONS"@ || name == "LSAN_OPTIONS"@
    ||| name == "MSAN_OPTIONS"@ || name == "TSAN_OPTIONS"@ || name == "UBSAN_OPTIONS"@
}

/// What a filter keeps.
proof fn kept_are<V>(vars: Seq<(String, V)>, v: (String, V))
    ensures
        vars.filter(|v: (String, V)| crosses(v.0@)).contains(v) <==> vars.contains(v) && crosses(
            v.0@,
        ),
    decreases vars.len(),
{
    reveal(Seq::filter);
    let p = |v: (String, V)| crosses(v.0@);
    let all = vars.filter(p);
    if vars.len() > 0 {
        let front = vars.drop_last();
        let before = front.filter(p);
        kept_are(front, v);
        if all.contains(v) {
            let i = choose|i: int| 0 <= i < all.len() && all[i] == v;
            if i < before.len() {
                assert(before[i] == v);
                assert(before.contains(v));
                let k = choose|k: int| 0 <= k < front.len() && front[k] == v;
                assert(vars[k] == v);
            } else {
                assert(vars[vars.len() - 1] == v);
            }
        }
        if vars.contains(v) && crosses(v.0@) {
            let i = choose|i: int| 0 <= i < vars.len() && vars[i] == v;
            if i < front.len() {
                assert(front[i] == v);
                assert(before.contains(v));
                let k = choose|k: int| 0 <= k < before.len() && before[k] == v;
                assert(all[k] == v);
            } else {
                assert(all[all.len() - 1] == v);
            }
        }
    }
}

/// The worker is started with the variables that running it needs, with their
/// values, and with no other: what could be a credential stays behind.
pub proof fn only_what_running_needs_crosses<V>(
    vars: Vec<(String, V)>,
    r: Vec<(String, V)>,
    v: (String, V),
)
    requires
        call_ensures(worker_environment::<V>, (vars,), r),
    ensures
        r@.contains(v) <==> vars@.contains(v) && needed_to_run(v.0@),
{
    kept_are(vars@, v);
}

/// A worker is told the limit, the account and the log level that were asked
/// for; where none were, ten answers a second and `nobody`.
pub proof fn a_worker_is_told_what_was_asked_for<P>(
    spawn: &KillWorkerSpawn<P>,
    plan: FdPlan,
    r: WorkerArgs,
)
    requires
        call_ensures(worker_args::<P>, (spawn, plan), r),
    ensures
        spawn.rate_limit matches Some(n) ==> r.rate_limit == n,
        spawn.rate_limit is None ==> r.rate_limit == 10,
        spawn.run_as matches Some(who) ==> r.run_as@ == who@,
        spawn.run_as is None ==> r.run_as@ == "nobody"@,
        r.log_level@ == spawn.log_level@,
        r.send_fds == plan,
{
}

/// A worker that is started is given every descriptor there is, each under its
/// own kind, and is told of exactly those.
pub proof fn a_worker_is_given_every_descriptor<P>(
    spawn: &KillWorkerSpawn<P>,
    raw4: Option<i32>,
    raw6: Option<i32>,
    udp4: Option<i32>,
    udp6: Option<i32>,
    permit: &TransmitPermit,
    r: SpawnPlan,
    args: &[String],
    heard: Result<WorkerArgs, String>,
    sources: &[(SendFd, i32)],
    placed: Placement,
)
    requires
        call_ensures(plan_spawn::<P>, (spawn, raw4, raw6, udp4, udp6, permit), r),
        call_ensures(WorkerArgs::parse, (args,), heard),
        args@ == r.args@,
        call_ensures(Placement::plan, (sources,), placed),
        sources@ == r.descriptors@,
    ensures
        raw4 matches Some(fd) ==> r.descriptors@.contains((SendFd::RawV4, fd)),
        raw6 matches Some(fd) ==> r.descriptors@.contains((SendFd::RawV6, fd)),
        udp4 matches Some(fd) ==> r.descriptors@.contains((SendFd::UdpV4, fd)),
        udp6 matches Some(fd) ==> r.descriptors@.contains((SendFd::UdpV6, fd)),
        r.descriptors@.len() == (if raw4 is Some {
            1int
        } else {
            0
        }) + (if raw6 is Some {
            1int
        } else {
            0
        }) + (if udp4 is Some {
            1int
        } else {
            0
        }) + (if udp6 is Some {
            1int
        } else {
            0
        }),
        heard matches Ok(a) && a.send_fds.raw_v4 == (raw4 is Some) && a.send_fds.raw_v6 == (
        raw6 is Some) && a.send_fds.udp_v4 == (udp4 is Some) && a.send_fds.udp_v6 == (udp6 is Some),
        r.placement.moves@ == placed.moves@,
        r.placement.vacant@ == placed.vacant@,
{
    each_is_present(r.descriptors@, raw4, raw6, udp4, udp6);
    let plan = FdPlan {
        raw_v4: raw4 is Some,
        raw_v6: raw6 is Some,
        udp_v4: udp4 is Some,
        udp_v6: udp6 is Some,
    };
    arguments_survive_the_command_line(told(*spawn, plan));
}

/// The descriptors there are hold each one that there is.
proof fn each_is_present(
    d: Seq<(SendFd, i32)>,
    raw4: Option<i32>,
    raw6: Option<i32>,
    udp4: Option<i32>,
    udp6: Option<i32>,
)
    requires
        d == present(raw4, raw6, udp4, udp6),
    ensures
        raw4 matches Some(fd) ==> d.contains((SendFd::RawV4, fd)),
        raw6 matches Some(fd) ==> d.contains((SendFd::RawV6, fd)),
        udp4 matches Some(fd) ==> d.contains((SendFd::UdpV4, fd)),
        udp6 matches Some(fd) ==> d.contains((SendFd::UdpV6, fd)),
{
    let a = one(SendFd::RawV4, raw4);
    let b = one(SendFd::RawV6, raw6);
    let c = one(SendFd::UdpV4, udp4);
    if raw4 is Some {
        assert(d[0] == (SendFd::RawV4, raw4->0));
    }
    if raw6 is Some {
        assert(d[a.len() as int] == (SendFd::RawV6, raw6->0));
    }
    if udp4 is Some {
        assert(d[(a.len() + b.len()) as int] == (SendFd::UdpV4, udp4->0));
    }
    if udp6 is Some {
        assert(d[(a.len() + b.len() + c.len()) as int] == (SendFd::UdpV6, udp6->0));
    }
}

/// Only a live source gives a permit to transmit.
pub proof fn files_give_no_permit(source: &CaptureSource, r: Option<TransmitPermit>)
    requires
        call_ensures(TransmitPermit::for_source, (source,), r),
    ensures
        *source is Live ==> r is Some,
        *source is File ==> r is None,
{
}

/// A worker that was just attached can be asked, has been asked nothing, has
/// reported nothing, and is known by what it was given.
pub proof fn a_new_handle_has_nothing_on_its_books(
    given: Vec<HandedOver>,
    r: (ScannerKillHandle, ServingEnds),
)
    requires
        call_ensures(ScannerKillHandle::attach, (given,), r),
    ensures
        r.0.open(),
        r.0.given() == given@,
        r.0.offers().len() == 0,
        r.0.resp_rx.log().len() == 0,
        r.1.outcomes.log().len() == 0,
        !r.0.shared.defense_disabled,
        !r.0.shared.shutting_down,
        !r.0.shared.tally.worker_gone(),
        r.0.shared.tally.counts().accepted == 0,
        r.0.shared.tally.counts().sent == 0,
        r.0.shared.tally.counts().dropped_requests == 0,
        r.0.tx is Some && r.0.tx->0.capacity() == Some(256usize),
        r.1.outcomes.capacity() == Some(256usize),
{
}

/// An outcome that the worker reports is offered to whoever watches, once and
/// as it is; where nobody takes it, that is counted and said once.
pub proof fn an_outcome_is_passed_on(
    h: &mut HandleShared,
    counters: &mut SendCounters,
    stream: &mut Outbox<KillResponse>,
    outcome: KillResponse,
    r: Option<String>,
)
    requires
        call_ensures(HandleShared::take_outcome, (h, counters, stream, outcome), r),
        old(h).tally.ready(),
        old(h).tally.counts().unobserved_outcomes + 1 < u64::MAX,
    ensures
        final(stream).log().len() == old(stream).log().len() + 1,
        final(stream).log().last().0 == outcome,
        ({
            let was = old(h).tally.counts();
            let ends = final(h).tally.counts();
            let full = final(stream).log().last().1 is Full;
            &&& ends.unobserved_outcomes == was.unobserved_outcomes + if full {
                1int
            } else {
                0int
            }
            &&& r is Some <==> full && !old(h).tally.unobserved_reported()
            &&& full ==> final(h).tally.unobserved_reported()
            &&& ends.accepted == was.accepted
        }),
{
}

/// The end of the outcomes is the end of the worker; it disarms the defense,
/// and is said once, unless a shutdown was asked for.
pub proof fn an_end_nobody_asked_for_disarms_the_defense(h: &mut HandleShared, r: Option<String>)
    requires
        call_ensures(HandleShared::outcomes_ended, (h,), r),
    ensures
        final(h).tally.worker_gone(),
        old(h).shutting_down ==> r is None && final(h).defense_disabled == old(h).defense_disabled,
        !old(h).shutting_down ==> final(h).defense_disabled && (r is Some <==> !old(
            h).defense_disabled),
{
}

/// A request that cannot be framed is an error on the books and the next one is
/// still forwarded; a closed pipe ends forwarding.
pub proof fn only_a_closed_pipe_ends_forwarding(
    h: &mut HandleShared,
    is_send: bool,
    written: Written,
    r: bool,
)
    requires
        call_ensures(HandleShared::forwarded, (h, is_send, written), r),
        old(h).tally.ready(),
    ensures
        r <==> !(written is PipeClosed),
        final(h).tally.counts().errored == old(h).tally.counts().errored + if is_send
            && written is Unframeable {
            1int
        } else {
            0int
        },
        final(h).tally.counts().sent == old(h).tally.counts().sent,
        final(h).tally.counts().accepted == old(h).tally.counts().accepted,
{
}

/// A process that can be asked is alive where it runs; else the worker is taken
/// for alive while its outcomes are read and have not ended.
pub proof fn a_worker_is_alive_while_it_runs(
    h: &ScannerKillHandle,
    child: Option<bool>,
    reading: bool,
    r: bool,
)
    requires
        call_ensures(ScannerKillHandle::is_alive, (h, child, reading), r),
    ensures
        child == Some(true) ==> r,
        child == Some(false) ==> !r,
        child is None ==> (r <==> reading && !h.shared.tally.worker_gone()),
{
}

/// A shutdown asks the worker to stop, once, and closes the handle for good.
pub proof fn a_shutdown_asks_once_and_closes(h: &mut ScannerKillHandle)
    requires
        call_ensures(ScannerKillHandle::begin_shutdown, (h,), ()),
    ensures
        !final(h).open(),
        final(h).shared.shutting_down,
        old(h).open() ==> final(h).offers().len() == old(h).offers().len() + 1
            && final(h).offers().last().0 is Shutdown,
        !old(h).open() ==> final(h).offers() == old(h).offers(),
        final(h).shared.defense_disabled == old(h).shared.defense_disabled,
        final(h).shared.tally == old(h).shared.tally,
        final(h).resp_rx == old(h).resp_rx,
{
}

/// There are four kinds, and they are gone through in the order of their slots.
pub proof fn the_kinds_stand_in_slot_order(all: [SendFd; 4])
    requires
        call_ensures(SendFd::all, (), all),
    ensures
        all@ == seq![SendFd::RawV4, SendFd::RawV6, SendFd::UdpV4, SendFd::UdpV6],
{
}

/// The slots follow the three standard descriptors without a gap, and the first
/// free descriptor follows the slots.
pub proof fn the_slots_stand_between_the_others(kind: SendFd, slot: i32, all: [SendFd; 4])
    requires
        call_ensures(SendFd::slot, (kind,), slot),
        call_ensures(SendFd::all, (), all),
    ensures
        3 <= slot < FIRST_FREE_FD,
        FIRST_FREE_FD == 3 + all@.len(),
{
}

/// A worker is run from this process's own executable as it was asked for; where
/// that cannot be found, the reason is passed on.
pub proof fn a_worker_is_run_from_our_own_executable<P>(
    program: Result<P, String>,
    rate_limit: Option<u32>,
    run_as: Option<String>,
    log_level: &str,
    r: Result<KillWorkerSpawn<P>, String>,
)
    requires
        call_ensures(
            KillWorkerSpawn::<P>::from_current_exe,
            (program, rate_limit, run_as, log_level),
            r,
        ),
    ensures
        program matches Ok(p) ==> (r matches Ok(s) && s.program == p && s.rate_limit == rate_limit
            && s.run_as == run_as && s.log_level@ == log_level@),
        program matches Err(e) ==> r == Err::<KillWorkerSpawn<P>, String>(e),
{
}

/// There is nothing to send through where none of the sockets is there.
pub proof fn nothing_is_held_where_no_socket_is<R, U>(s: &SendSockets<R, U>, r: bool)
    requires
        call_ensures(SendSockets::<R, U>::is_empty, (s,), r),
    ensures
        r <==> s.raw is None && s.udp_v4 is None && s.udp_v6 is None,
{
}

} // verus!
