//! What running third-party detections is for.
//!
//! Each law speaks of what a call is given and what it gives back: which modules
//! are taken for plugins, what a plugin is asked and heard to say, and whose
//! findings are believed.
use crate::plugin::document::{
    document_tree, held_value, message_tree, millis_between, on_the_calendar, plugin_document,
    plugin_input_json, read_as, written, DialogMessage, Json, JsonTree,
};
use crate::plugin::host::{
    begun, document_len, judge_abi, judge_answer, judge_output, judge_place, judge_start, outcome,
    ran, refused, Plugin,
};
use crate::plugin::sandbox::{
    call_answer, export_fault, import_count, memory_at, memory_exported, module_fault,
    starting_fault, write_fault, Asked, Caps, Machine, Run, SandboxFault, Signature,
};
use crate::plugin::{
    accept_findings, chars_within, first_baseless, malformed_output, truncate, width, ErrorView,
    PluginError, PluginFinding,
};
use crate::text::decimal_text;
use vstd::prelude::*;
use vstd::string::*;
use vstd::utf8::*;

verus! {

/// A run of a module under what a plugin may use: sixteen mebibytes in one
/// memory, four tables and fifty million instructions, asked these things.
pub open spec fn run_of(module: Seq<u8>, machine: Machine, asked: Seq<Asked>) -> Run {
    Run {
        module,
        caps: Caps { memory_bytes: 16_777_216, memories: 1, tables: 4, fuel: 50_000_000 },
        machine,
        asked,
    }
}

/// Whether a module, on a machine, starts and reports the version that this
/// host speaks.
pub open spec fn speaks_our_version(module: Seq<u8>, machine: Machine) -> bool {
    let run = run_of(module, machine, seq![]);
    let version = "sipnab_plugin_abi_version"@;
    &&& starting_fault(run) is None
    &&& export_fault(module, version, Signature::Source) is None
    &&& call_answer(run, Asked::Source(version)) matches Ok(n) && n as i32 == 1
}

/// The run of a plugin before it was asked anything is the one that it is given
/// its caps for.
proof fn runs_begin_alike(module: Seq<u8>, machine: Machine)
    ensures
        begun(module, machine) == run_of(module, machine, seq![]),
{
}

/// A plugin is loaded only from a valid module that, on some machine, starts
/// and reports the version that this host speaks; and one that does so on every
/// machine is loaded. It is known by its file's name, or as a plugin.
pub proof fn only_a_plugin_of_our_version_is_loaded(
    path: &str,
    stem: Option<&str>,
    bytes: &[u8],
    r: Result<Plugin, PluginError>,
)
    requires
        call_ensures(Plugin::load, (path, stem, bytes), r),
    ensures
        r is Ok ==> module_fault(bytes@) is None && exists|machine: Machine| #[trigger]
            speaks_our_version(bytes@, machine),
        module_fault(bytes@) is None && (forall|machine: Machine| #[trigger]
            speaks_our_version(bytes@, machine)) ==> r is Ok,
        module_fault(bytes@) matches Some(e) ==> (r matches Err(PluginError::Invalid(m)) && m@
            == path@ + ": "@ + e),
        module_fault(bytes@) is None && import_count(bytes@) > 0 ==> (r matches Err(
            PluginError::Abi(m),
        )),
        r matches Ok(p) ==> p.module() == bytes@ && p.path_spec() == path@,
        r matches Ok(p) ==> (stem matches Some(s) ==> p.name_spec() == s@) && (stem is None
            ==> p.name_spec() == "plugin"@),
{
    if module_fault(bytes@) is None {
        let machine = choose|machine: Machine|
            match r {
                Ok(p) => #[trigger] refused(bytes@, machine) is None,
                Err(fault) => refused(bytes@, machine) == Some(fault@),
            };
        runs_begin_alike(bytes@, machine);
        if r is Ok {
            assert(speaks_our_version(bytes@, machine));
        }
        if forall|m: Machine| #[trigger] speaks_our_version(bytes@, m) {
            assert(speaks_our_version(bytes@, machine));
        }
    }
}

/// What is asked of a plugin about a document, in order: room for its bytes,
/// the bytes at the place that it gave, and its analysis of them.
pub open spec fn questions(document: Seq<char>, ptr: i32) -> Seq<Asked> {
    let bytes = encode_utf8(document);
    seq![
        Asked::Alloc("sipnab_alloc"@, bytes.len() as i32),
        Asked::Write("memory"@, ptr as usize, bytes),
        Asked::Analyze("sipnab_analyze"@, ptr, bytes.len() as i32),
    ]
}

/// Whether a plugin, on a machine, answers about a document with this number,
/// having given this place for it.
pub open spec fn answers_with(
    module: Seq<u8>,
    document: Seq<char>,
    machine: Machine,
    ptr: i32,
    packed: i64,
) -> bool {
    let bytes = encode_utf8(document);
    let q = questions(document, ptr);
    &&& starting_fault(run_of(module, machine, seq![])) is None
    &&& memory_exported(module, "memory"@)
    &&& export_fault(module, "sipnab_alloc"@, Signature::Alloc) is None
    &&& export_fault(module, "sipnab_analyze"@, Signature::Analyze) is None
    &&& bytes.len() <= 0x7FFF_FFFF
    &&& call_answer(run_of(module, machine, seq![]), q[0]) matches Ok(given) && given > 0
        && given as i32 == ptr
    &&& write_fault(run_of(module, machine, q.take(1)), "memory"@, ptr as usize, bytes) is None
    &&& call_answer(run_of(module, machine, q.take(2)), q[2]) == Ok::<i64, Seq<char>>(packed)
}

/// The place that a number gives: its upper half, read without a sign.
pub open spec fn upper_half(packed: i64) -> int {
    if packed >= 0 {
        packed as int / 0x1_0000_0000
    } else {
        (packed + 0x1_0000_0000_0000_0000) / 0x1_0000_0000
    }
}

/// The length that a number gives: its lower half, read without a sign.
pub open spec fn lower_half(packed: i64) -> int {
    if packed >= 0 {
        packed as int % 0x1_0000_0000
    } else {
        (packed + 0x1_0000_0000_0000_0000) % 0x1_0000_0000
    }
}

/// Whether a plugin, on a machine, says this of a document: its answer gives a
/// place and a length, and its memory holds the text there.
pub open spec fn says_this(
    module: Seq<u8>,
    document: Seq<char>,
    machine: Machine,
    text: Seq<char>,
) -> bool {
    exists|ptr: i32, packed: i64|
        {
            &&& #[trigger] answers_with(module, document, machine, ptr, packed)
            &&& 0 < lower_half(packed) <= 4_194_304
            &&& memory_at(
                run_of(module, machine, questions(document, ptr)),
                "memory"@,
                upper_half(packed) as usize,
                lower_half(packed) as usize,
            ) matches Ok(bytes) && valid_utf8(bytes) && text == decode_utf8(bytes)
        }
}

/// Whether a plugin, on a machine, says that it found nothing in a document.
pub open spec fn says_nothing(module: Seq<u8>, document: Seq<char>, machine: Machine) -> bool {
    exists|ptr: i32, packed: i64|
        #[trigger] answers_with(module, document, machine, ptr, packed) && lower_half(packed) == 0
}

/// What a run comes to is what the plugin says.
proof fn a_run_comes_to_what_is_said(
    module: Seq<u8>,
    document: Seq<char>,
    machine: Machine,
    text: Seq<char>,
)
    ensures
        ran(module, document, machine) == Ok::<
            Option<Seq<char>>,
            ErrorView,
        >(Some(text)) <==> says_this(module, document, machine, text),
        ran(module, document, machine) == Ok::<
            Option<Seq<char>>,
            ErrorView,
        >(None) <==> says_nothing(module, document, machine),
{
    let end = ran(module, document, machine);
    let bytes = encode_utf8(document);
    runs_begin_alike(module, machine);
    let start = run_of(module, machine, seq![]);
    assert forall|ptr: i32| true implies #[trigger] questions(document, ptr).take(1) =~= seq![
        questions(document, ptr)[0],
    ] && questions(document, ptr).take(2) =~= seq![
        questions(document, ptr)[0],
        questions(document, ptr)[1],
    ] by {}
    assert forall|ptr: i32| true implies #[trigger] start.after(questions(document, ptr)[0])
        == run_of(module, machine, questions(document, ptr).take(1)) by {
        assert(start.after(questions(document, ptr)[0]).asked =~= questions(document, ptr).take(1));
    }
    assert forall|ptr: i32| true implies #[trigger] start.after(questions(document, ptr)[0]).after(
        questions(document, ptr)[1],
    ) == run_of(module, machine, questions(document, ptr).take(2)) by {
        assert(start.after(questions(document, ptr)[0]).after(questions(document, ptr)[1]).asked
            =~= questions(document, ptr).take(2));
    }
    assert forall|ptr: i32| true implies #[trigger] start.after(questions(document, ptr)[0]).after(
        questions(document, ptr)[1],
    ).after(questions(document, ptr)[2]) == run_of(module, machine, questions(document, ptr)) by {
        assert(start.after(questions(document, ptr)[0]).after(questions(document, ptr)[1]).after(
            questions(document, ptr)[2],
        ).asked =~= questions(document, ptr));
    }
    if end is Ok {
        let first = questions(document, 1)[0];
        let ptr = call_answer(start, first)->Ok_0 as i32;
        assert(questions(document, ptr)[0] == first);
        assert(call_answer(start, first)->Ok_0 > 0);
        let one = start.after(questions(document, ptr)[0]);
        let two = one.after(questions(document, ptr)[1]);
        let packed = call_answer(two, questions(document, ptr)[2])->Ok_0;
        assert(one == run_of(module, machine, questions(document, ptr).take(1)));
        assert(two == run_of(module, machine, questions(document, ptr).take(2)));
        let three = two.after(questions(document, ptr)[2]);
        assert(three == run_of(module, machine, questions(document, ptr)));
        assert(answers_with(module, document, machine, ptr, packed));
    }
    if says_this(module, document, machine, text) {
        let (ptr, packed) = choose|ptr: i32, packed: i64|
            {
                &&& #[trigger] answers_with(module, document, machine, ptr, packed)
                &&& 0 < lower_half(packed) <= 4_194_304
                &&& memory_at(
                    run_of(module, machine, questions(document, ptr)),
                    "memory"@,
                    upper_half(packed) as usize,
                    lower_half(packed) as usize,
                ) matches Ok(bytes) && valid_utf8(bytes) && text == decode_utf8(bytes)
            };
        let one = start.after(questions(document, ptr)[0]);
        let two = one.after(questions(document, ptr)[1]);
        let three = two.after(questions(document, ptr)[2]);
        assert(three == run_of(module, machine, questions(document, ptr)));
    }
    if says_nothing(module, document, machine) {
        let (ptr, packed) = choose|ptr: i32, packed: i64|
            #[trigger] answers_with(module, document, machine, ptr, packed) && lower_half(packed)
                == 0;
        let one = start.after(questions(document, ptr)[0]);
        let two = one.after(questions(document, ptr)[1]);
        assert(two == run_of(module, machine, questions(document, ptr).take(2)));
    }
}

/// What a plugin is heard to say of a document is what it says on some machine,
/// and what it says on every machine is heard. A document that is too long to
/// be told is an error.
pub proof fn a_plugin_is_heard_as_it_speaks(
    p: &Plugin,
    document: &str,
    r: Result<Option<String>, PluginError>,
    text: Seq<char>,
)
    requires
        call_ensures(Plugin::analyze, (p, document), r),
    ensures
        r matches Ok(Some(t)) ==> exists|machine: Machine| #[trigger]
            says_this(p.module(), document@, machine, t@),
        r matches Ok(None) ==> exists|machine: Machine| #[trigger]
            says_nothing(p.module(), document@, machine),
        (forall|machine: Machine| #[trigger] says_this(p.module(), document@, machine, text)) ==> (
        r matches Ok(Some(t)) && t@ == text),
        (forall|machine: Machine| #[trigger] says_nothing(p.module(), document@, machine)) ==> (
        r matches Ok(None)),
        encode_utf8(document@).len() > 0x7FFF_FFFF ==> r is Err,
{
    let machine = choose|machine: Machine|
        outcome(r) == #[trigger] p.says(document@, machine);
    a_run_comes_to_what_is_said(p.module(), document@, machine, text);
    if let Ok(Some(t)) = r {
        a_run_comes_to_what_is_said(p.module(), document@, machine, t@);
        assert(says_this(p.module(), document@, machine, t@));
    }
    if forall|m: Machine| #[trigger] says_this(p.module(), document@, m, text) {
        assert(says_this(p.module(), document@, machine, text));
    }
    if forall|m: Machine| #[trigger] says_nothing(p.module(), document@, m) {
        assert(says_nothing(p.module(), document@, machine));
    }
}

/// Each answer of a plugin is judged for what it is: only version one is spoken
/// to, a place has to be above zero, the lower half of its answer is a length of
/// up to four mebibytes and the upper half its place, and its document has to be
/// text.
pub proof fn each_answer_is_judged_for_what_it_is(
    version: i32,
    v: Result<(), PluginError>,
    ptr: i32,
    at: Result<usize, PluginError>,
    packed: i64,
    a: Result<Option<(usize, usize)>, PluginError>,
    bytes: Vec<u8>,
    text: Result<String, PluginError>,
)
    requires
        call_ensures(judge_abi, (version,), v),
        call_ensures(judge_place, (ptr,), at),
        call_ensures(judge_answer, (packed,), a),
        call_ensures(judge_output, (bytes,), text),
    ensures
        version == 1 ==> v is Ok,
        version != 1 ==> (v matches Err(PluginError::AbiVersion { found, expected }) && expected
            == 1 && found == if version < 0 {
            version + 0x1_0000_0000
        } else {
            version as int
        }),
        ptr > 0 ==> (at matches Ok(x) && x == ptr),
        ptr <= 0 ==> (at matches Err(PluginError::Trap(m))),
        lower_half(packed) == 0 ==> (a matches Ok(None)),
        0 < lower_half(packed) <= 4_194_304 ==> (a matches Ok(Some((x, n))) && x == upper_half(
            packed,
        ) && n == lower_half(packed)),
        lower_half(packed) > 4_194_304 ==> (a matches Err(PluginError::BadOutput(m))),
        valid_utf8(bytes@) ==> (text matches Ok(s) && s@ == decode_utf8(bytes@)),
        !valid_utf8(bytes@) ==> (text matches Err(PluginError::BadOutput(m))),
{
}

/// A document is told by its length in bytes where that fits, and a module that
/// did not start is refused, for its imports or for its fuel.
pub proof fn a_document_is_told_by_its_bytes(
    document: &str,
    n: Result<i32, PluginError>,
    why: SandboxFault,
    e: PluginError,
)
    requires
        call_ensures(document_len, (document,), n),
        call_ensures(judge_start, (why,), e),
    ensures
        n is Ok <==> encode_utf8(document@).len() <= 0x7FFF_FFFF,
        n matches Ok(x) ==> x == encode_utf8(document@).len(),
        why matches SandboxFault::Fuel(m) ==> (e matches PluginError::Trap(t) && t@ == m@),
        why matches SandboxFault::Start(m) ==> (e matches PluginError::Abi(t) && t@
            == "instantiation failed (plugins must import nothing): "@ + m@),
{
}

/// The first finding without evidence.
proof fn baseless_is(findings: Seq<PluginFinding>)
    ensures
        first_baseless(findings) <= findings.len(),
        forall|i: int|
            0 <= i < first_baseless(findings) ==> (#[trigger] findings[i]).evidence@.len() > 0,
        first_baseless(findings) < findings.len() ==> findings[first_baseless(
            findings,
        ) as int].evidence@.len() == 0,
    decreases findings.len(),
{
    if findings.len() > 0 && findings[0].evidence@.len() > 0 {
        let rest = findings.skip(1);
        baseless_is(rest);
        assert forall|i: int| 0 <= i < first_baseless(findings) implies (
        #[trigger] findings[i]).evidence@.len() > 0 by {
            if i > 0 {
                assert(rest[i - 1] == findings[i]);
            }
        }
    }
}

/// Findings are taken over all together or not at all: each has to cite
/// evidence, keeps what it says, and is attributed to the plugin by the host,
/// whatever it said of itself.
pub proof fn findings_with_evidence_are_attributed_by_the_host(
    name: &str,
    findings: Vec<PluginFinding>,
    r: Result<Vec<PluginFinding>, PluginError>,
)
    requires
        call_ensures(accept_findings, (name, findings), r),
    ensures
        r is Ok <==> forall|i: int|
            0 <= i < findings@.len() ==> (#[trigger] findings@[i]).evidence@.len() > 0,
        r matches Ok(taken) ==> taken@.len() == findings@.len() && forall|i: int|
            0 <= i < taken@.len() ==> {
                &&& (#[trigger] taken@[i]).plugin@ == name@
                &&& taken@[i].id == findings@[i].id
                &&& taken@[i].summary == findings@[i].summary
                &&& taken@[i].evidence == findings@[i].evidence
            },
        r matches Err(e) ==> e is BadOutput,
{
    baseless_is(findings@);
}

/// What one run comes to: the parsed findings, taken over under the plugin's
/// own name, or an error where they did not parse or cite no evidence.
pub proof fn a_plugins_findings_are_its_own(
    p: &Plugin,
    output: &str,
    parsed: Result<Vec<PluginFinding>, String>,
    r: Result<Vec<PluginFinding>, PluginError>,
    name: &str,
)
    requires
        call_ensures(Plugin::conclude, (p, output, parsed), r),
        call_ensures(Plugin::name, (p,), name),
    ensures
        parsed is Err ==> (r matches Err(PluginError::BadOutput(m))),
        parsed matches Ok(findings) ==> (r is Ok <==> forall|i: int|
            0 <= i < findings@.len() ==> (#[trigger] findings@[i]).evidence@.len() > 0),
        r matches Ok(taken) ==> taken@.len() == parsed->Ok_0@.len() && forall|i: int|
            0 <= i < taken@.len() ==> (#[trigger] taken@[i]).plugin@ == name@ && taken@[i].id
                == parsed->Ok_0@[i].id && taken@[i].summary == parsed->Ok_0@[i].summary
                && taken@[i].evidence == parsed->Ok_0@[i].evidence,
{
    if let Ok(findings) = parsed {
        baseless_is(findings@);
    }
}

/// How many characters fit is as many as fit and no more.
proof fn as_many_as_fit(s: Seq<char>, max: nat)
    ensures
        chars_within(s, max) <= s.len(),
        encode_utf8(s.take(chars_within(s, max) as int)).len() <= max,
        chars_within(s, max) < s.len() ==> encode_utf8(
            s.take(chars_within(s, max) as int + 1),
        ).len() > max,
    decreases s.len(),
{
    let n = chars_within(s, max) as int;
    if s.len() > 0 && width(s[0]) <= max {
        let rest = s.skip(1);
        let left = (max - width(s[0])) as nat;
        as_many_as_fit(rest, left);
        assert(s.take(n).drop_first() =~= rest.take(n - 1));
        assert(s.take(n)[0] == s[0]);
        if n < s.len() {
            assert(s.take(n + 1).drop_first() =~= rest.take(n));
            assert(s.take(n + 1)[0] == s[0]);
        }
    } else {
        assert(s.take(0) =~= seq![]);
        if s.len() > 0 {
            assert(s.take(1)[0] == s[0]);
            assert(s.take(1).drop_first() =~= seq![]);
            assert(encode_utf8(s.take(1).drop_first()) =~= seq![]);
        }
    }
}

/// A text that fits is left alone; one that does not keeps as many whole
/// characters from its front as fit, and an ellipsis behind them.
pub proof fn a_long_text_keeps_what_fits(s: &str, max: usize, r: String)
    requires
        call_ensures(truncate, (s, max), r),
    ensures
        encode_utf8(s@).len() <= max ==> r@ == s@,
        encode_utf8(s@).len() > max ==> {
            let n = r@.len() - 1;
            &&& 0 <= n < s@.len()
            &&& r@.drop_last() == s@.take(n)
            &&& r@.last() == '…'
            &&& encode_utf8(s@.take(n)).len() <= max
            &&& encode_utf8(s@.take(n + 1)).len() > max
        },
{
    as_many_as_fit(s@, max as nat);
    if encode_utf8(s@).len() > max {
        let n = chars_within(s@, max as nat) as int;
        assert(s@.take(s@.len() as int) =~= s@);
        assert(s@.take(n).push('…').drop_last() =~= s@.take(n));
    }
}

/// Whether a member holds this text, or `null` where there is none.
pub open spec fn holds_text(value: JsonTree, text: Option<String>) -> bool {
    &&& text matches Some(s) ==> value == JsonTree::Text(s@)
    &&& text is None ==> value == JsonTree::Null
}

/// Whether a value tells of the message at a position: where it stands, what
/// kind it is, how many whole milliseconds it came behind the first, and what
/// each of its headers says, in their order.
pub open spec fn tells_of_message(
    value: JsonTree,
    messages: Seq<DialogMessage>,
    i: int,
) -> bool {
    let m = messages[i];
    let behind = m.timestamp.nanos - messages[0].timestamp.nanos;
    value matches JsonTree::Object(o) && {
        &&& o.len() == 9
        &&& o[0] == ("index"@, JsonTree::Number(i))
        &&& o[1] == ("is_request"@, JsonTree::Bool(m.is_request))
        &&& o[2].0 == "method"@ && holds_text(o[2].1, m.method)
        &&& o[3].0 == "status_code"@
        &&& m.status_code matches Some(n) ==> o[3].1 == JsonTree::Number(n as int)
        &&& m.status_code is None ==> o[3].1 == JsonTree::Null
        &&& o[4].0 == "reason"@ && holds_text(o[4].1, m.reason)
        &&& o[5].0 == "offset_ms"@
        &&& o[5].1 matches JsonTree::Number(ms) && (behind >= 0 ==> 0 <= ms && ms * 1_000_000
            <= behind < (ms + 1) * 1_000_000) && (behind < 0 ==> ms <= 0 && (ms - 1) * 1_000_000
            < behind <= ms * 1_000_000)
        &&& o[6].0 == "cseq_number"@
        &&& o[7].0 == "cseq_method"@
        &&& m.cseq matches Some(c) ==> o[6].1 == JsonTree::Number(c.number as int) && o[7].1
            == JsonTree::Text(c.method@)
        &&& m.cseq is None ==> o[6].1 == JsonTree::Null && o[7].1 == JsonTree::Null
        &&& o[8].0 == "headers"@
        &&& o[8].1 matches JsonTree::Object(headers) && headers.len() == m.headers@.len()
            && forall|k: int|
            0 <= k < headers.len() ==> (#[trigger] headers[k]).0 == m.headers@[k].name@
                && headers[k].1 == JsonTree::Text(m.headers@[k].value@)
    }
}

/// Whether a value tells of a dialog: what is known of it as a whole, or
/// `null`, and every message of it, in their order.
pub open spec fn tells_of_dialog(
    value: JsonTree,
    messages: Seq<DialogMessage>,
    dialog: Option<serde_json::Value>,
) -> bool {
    value matches JsonTree::Object(o) && {
        &&& o.len() == 2
        &&& o[0].0 == "dialog"@
        &&& dialog matches Some(v) ==> o[0].1 == JsonTree::Read(v)
        &&& dialog is None ==> o[0].1 == JsonTree::Null
        &&& o[1].0 == "messages"@
        &&& o[1].1 matches JsonTree::List(list) && list.len() == messages.len() && forall|i: int|
            0 <= i < list.len() ==> tells_of_message(#[trigger] list[i], messages, i)
    }
}

/// The document of a dialog tells of it.
proof fn a_document_tells(messages: Seq<DialogMessage>, dialog: Option<serde_json::Value>)
    ensures
        tells_of_dialog(document_tree(messages, dialog), messages, dialog),
{
    let list = document_tree(messages, dialog)->Object_0[1].1->List_0;
    assert forall|i: int| 0 <= i < list.len() implies tells_of_message(
        #[trigger] list[i],
        messages,
        i,
    ) by {
        assert(list[i] == message_tree(messages, i));
        let behind = messages[i].timestamp.nanos - messages[0].timestamp.nanos;
        let ms = millis_between(messages[0].timestamp, messages[i].timestamp);
        assert(behind >= 0 ==> ms * 1_000_000 <= behind < (ms + 1) * 1_000_000);
        assert(behind < 0 ==> (ms - 1) * 1_000_000 < behind <= ms * 1_000_000);
    }
}

/// A plugin is told of every message of the dialog, and of what is known of the
/// dialog as a whole where that is JSON.
pub proof fn a_plugin_is_told_of_every_message(
    messages: &Vec<DialogMessage>,
    dialog: Option<serde_json::Value>,
    value: Json,
    text: &str,
    r: String,
)
    requires
        forall|k: int|
            0 <= k < messages@.len() ==> on_the_calendar(#[trigger] messages@[k].timestamp),
        call_ensures(plugin_document, (messages, dialog), value),
        call_ensures(plugin_input_json, (messages, text), r),
    ensures
        tells_of_dialog(value.tree(), messages@, dialog),
        exists|tree: JsonTree|
            #[trigger] tells_of_dialog(tree, messages@, read_as(text@)) && r@ == written(
                held_value(tree),
            ),
{
    a_document_tells(messages@, dialog);
    a_document_tells(messages@, read_as(text@));
}

/// The error for output that did not parse gives what the parser said, and as
/// much of the output as fits into two hundred bytes.
pub proof fn unparsed_output_is_shown(error: &str, output: &str, e: PluginError, shown: String)
    requires
        call_ensures(malformed_output, (error, output), e),
        call_ensures(truncate, (output, 200), shown),
    ensures
        e matches PluginError::BadOutput(m) && m@ == error@ + "; got: "@ + shown@,
{
}

/// A file that cannot be read, and a plugin, are named by their path.
pub proof fn a_file_is_named_by_its_path(
    path: &str,
    error: &str,
    e: PluginError,
    bytes: &[u8],
    stem: Option<&str>,
    p: Plugin,
    shown: &str,
)
    requires
        call_ensures(PluginError::unreadable, (path, error), e),
        call_ensures(Plugin::load, (path, stem, bytes), Ok(p)),
        call_ensures(Plugin::path, (&p,), shown),
    ensures
        e matches PluginError::Read(m) && m@ == path@ + ": "@ + error@,
        shown@ == path@,
{
}

/// Each error is put into words of its own, with what it holds behind them.
pub proof fn each_error_has_its_words(e: PluginError, text: String)
    requires
        call_ensures(PluginError::to_string, (&e,), text),
    ensures
        e matches PluginError::Read(m) ==> text@ == "cannot read plugin: "@ + m@,
        e matches PluginError::Invalid(m) ==> text@ == "not a valid WASM module: "@ + m@,
        e matches PluginError::Abi(m) ==> text@ == "plugin ABI mismatch: "@ + m@,
        e matches PluginError::AbiVersion { found, expected } ==> text@
            == "plugin reports ABI version "@ + decimal_text(found as nat)
            + ", this build speaks "@ + decimal_text(expected as nat),
        e matches PluginError::Trap(m) ==> text@ == "plugin trapped: "@ + m@,
        e matches PluginError::BadOutput(m) ==> text@ == "plugin returned malformed output: "@ + m@,
{
}

} // verus!
