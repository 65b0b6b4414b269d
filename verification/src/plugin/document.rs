//! The document a plugin is given for one dialog.
//!
//! Findings cite evidence as positions in the dialog's message list, so the
//! messages stand beside the dialog. Times are milliseconds from the dialog's
//! first message: a plugin that cannot see absolute time cannot make a finding
//! depend on when the capture ran.
use crate::packet::Timestamp;
use vstd::prelude::*;
use vstd::string::*;

verus! {

/// A value of any shape, `serde_json::Value`.
#[verifier::external_type_specification]
#[verifier::external_body]
pub struct ExValue(serde_json::Value);

/// A JSON value to be written.
pub enum Json {
    /// `null`.
    Null,
    /// `true` or `false`.
    Bool(bool),
    /// A number that is not negative.
    Count(u64),
    /// A number.
    Int(i64),
    /// A text.
    Text(String),
    /// A value that was read.
    Read(serde_json::Value),
    /// An array.
    List(Vec<Json>),
    /// An object: its members in the order they are entered.
    Object(Vec<Member>),
}

/// A member of an object.
pub struct Member {
    /// Its name.
    pub name: String,
    /// Its value.
    pub value: Json,
}

/// A JSON value as mathematics has it.
pub ghost enum JsonTree {
    /// `null`.
    Null,
    /// `true` or `false`.
    Bool(bool),
    /// A number.
    Number(int),
    /// A text.
    Text(Seq<char>),
    /// A value that was read.
    Read(serde_json::Value),
    /// An array.
    List(Seq<JsonTree>),
    /// An object: its members in the order they are entered.
    Object(Seq<(Seq<char>, JsonTree)>),
}

impl Json {
    /// The value this stands for.
    pub open spec fn tree(self) -> JsonTree
        decreases self,
    {
        match self {
            Json::Null => JsonTree::Null,
            Json::Bool(b) => JsonTree::Bool(b),
            Json::Count(n) => JsonTree::Number(n as int),
            Json::Int(n) => JsonTree::Number(n as int),
            Json::Text(s) => JsonTree::Text(s@),
            Json::Read(v) => JsonTree::Read(v),
            Json::List(items) => JsonTree::List(
                Seq::new(
                    items@.len(),
                    |i: int|
                        if 0 <= i < items@.len() {
                            items@[i].tree()
                        } else {
                            JsonTree::Null
                        },
                ),
            ),
            Json::Object(members) => JsonTree::Object(
                Seq::new(
                    members@.len(),
                    |i: int|
                        if 0 <= i < members@.len() {
                            (members@[i].name@, members@[i].value.tree())
                        } else {
                            (Seq::empty(), JsonTree::Null)
                        },
                ),
            ),
        }
    }
}

/// The value that `serde_json::from_str` reads a text as, where it does.
pub uninterp spec fn read_as(text: Seq<char>) -> Option<serde_json::Value>;

/// `serde_json::from_str`, into a value of any shape: whether it reads the
/// text, and as which value, depends on the text alone.
#[verifier::external_body]
fn read_json(text: &str) -> (r: Option<serde_json::Value>)
    ensures
        r == read_as(text@),
{
    serde_json::from_str(text).ok()
}

/// The value that `serde_json` holds for a tree.
pub uninterp spec fn held_value(tree: JsonTree) -> serde_json::Value;

/// `serde_json::Value::from`, piece by piece: which value comes of it depends
/// on the tree alone. An object is collected from its members in their order,
/// so that of two members of one name the later stands.
#[verifier::external_body]
fn json_value(json: &Json) -> (r: serde_json::Value)
    ensures
        r == held_value(json.tree()),
{
    match json {
        Json::Null => serde_json::Value::Null,
        Json::Bool(b) => serde_json::Value::from(*b),
        Json::Count(n) => serde_json::Value::from(*n),
        Json::Int(n) => serde_json::Value::from(*n),
        Json::Text(s) => serde_json::Value::from(s.as_str()),
        Json::Read(v) => v.clone(),
        Json::List(items) => items.iter().map(json_value).collect(),
        Json::Object(members) => members.iter().map(|m| (m.name.clone(), json_value(&m.value))).collect(),
    }
}

/// The text that `serde_json` writes for a value.
pub uninterp spec fn written(value: serde_json::Value) -> Seq<char>;

/// `serde_json::Value::to_string`: the text depends on the value alone.
#[verifier::external_body]
fn write_value(value: &serde_json::Value) -> (r: String)
    ensures
        r@ == written(*value),
{
    value.to_string()
}

/// A header of a message.
#[derive(Debug, Clone)]
pub struct MessageHeader {
    /// Its name.
    pub name: String,
    /// Its value.
    pub value: String,
}

/// The sequence number of a message, and the method it counts.
#[derive(Debug, Clone)]
pub struct CSeq {
    /// The number.
    pub number: u32,
    /// The method.
    pub method: String,
}

/// A message of a dialog, as far as a plugin is told of it.
#[derive(Debug, Clone)]
pub struct DialogMessage {
    /// Whether it is a request.
    pub is_request: bool,
    /// Its method, where it is a request.
    pub method: Option<String>,
    /// Its status, where it is a response.
    pub status_code: Option<u16>,
    /// What its status line says.
    pub reason: Option<String>,
    /// When it was captured.
    pub timestamp: Timestamp,
    /// Its sequence number.
    pub cseq: Option<CSeq>,
    /// Its headers.
    pub headers: Vec<MessageHeader>,
}

/// Nanoseconds in a millisecond.
pub const NANOS_PER_MILLI: i128 = 1_000_000;

/// Largest distance of a capture time from the epoch, in nanoseconds: a little
/// more than a calendar of years up to 262143 reaches.
pub const CALENDAR_NANOS: i128 = 8_400_000_000_000_000_000_000;

/// Whether a calendar can give a time.
pub open spec fn on_the_calendar(t: Timestamp) -> bool {
    -CALENDAR_NANOS <= t.nanos <= CALENDAR_NANOS
}

/// Whole milliseconds from one time to another, toward zero.
pub open spec fn millis_between(from: Timestamp, to: Timestamp) -> int {
    if to.nanos >= from.nanos {
        (to.nanos - from.nanos) / 1_000_000
    } else {
        -((from.nanos - to.nanos) / 1_000_000)
    }
}

/// Whole milliseconds from one time to another, toward zero.
fn offset_millis(from: Timestamp, to: Timestamp) -> (r: i64)
    requires
        on_the_calendar(from),
        on_the_calendar(to),
    ensures
        r == millis_between(from, to),
{
    if to.nanos >= from.nanos {
        ((to.nanos - from.nanos) / NANOS_PER_MILLI) as i64
    } else {
        let n: i64 = ((from.nanos - to.nanos) / NANOS_PER_MILLI) as i64;
        -n
    }
}

/// A text that may be absent.
pub open spec fn optional_text(s: Option<String>) -> JsonTree {
    match s {
        Some(s) => JsonTree::Text(s@),
        None => JsonTree::Null,
    }
}

/// The headers of a message: one member for each, in their order.
pub open spec fn headers_tree(headers: Seq<MessageHeader>) -> JsonTree {
    JsonTree::Object(
        Seq::new(
            headers.len(),
            |i: int| (headers[i].name@, JsonTree::Text(headers[i].value@)),
        ),
    )
}

/// What a plugin is told of the message at a position.
pub open spec fn message_tree(messages: Seq<DialogMessage>, i: int) -> JsonTree {
    let m = messages[i];
    JsonTree::Object(
        seq![
            ("index"@, JsonTree::Number(i)),
            ("is_request"@, JsonTree::Bool(m.is_request)),
            ("method"@, optional_text(m.method)),
            (
                "status_code"@,
                match m.status_code {
                    Some(n) => JsonTree::Number(n as int),
                    None => JsonTree::Null,
                },
            ),
            ("reason"@, optional_text(m.reason)),
            ("offset_ms"@, JsonTree::Number(millis_between(messages[0].timestamp, m.timestamp))),
            (
                "cseq_number"@,
                match m.cseq {
                    Some(c) => JsonTree::Number(c.number as int),
                    None => JsonTree::Null,
                },
            ),
            (
                "cseq_method"@,
                match m.cseq {
                    Some(c) => JsonTree::Text(c.method@),
                    None => JsonTree::Null,
                },
            ),
            ("headers"@, headers_tree(m.headers@)),
        ],
    )
}

/// The document for a dialog: what is known of it as a whole, where that is
/// JSON, and its messages.
pub open spec fn document_tree(
    messages: Seq<DialogMessage>,
    dialog: Option<serde_json::Value>,
) -> JsonTree {
    JsonTree::Object(
        seq![
            (
                "dialog"@,
                match dialog {
                    Some(v) => JsonTree::Read(v),
                    None => JsonTree::Null,
                },
            ),
            (
                "messages"@,
                JsonTree::List(
                    Seq::new(messages.len(), |i: int| message_tree(messages, i)),
                ),
            ),
        ],
    )
}

/// A member.
fn member(name: &str, value: Json) -> (r: Member)
    ensures
        r.name@ == name@,
        r.value == value,
{
    Member { name: String::from_str(name), value }
}

/// A text that may be absent.
fn optional(s: &Option<String>) -> (r: Json)
    ensures
        r.tree() == optional_text(*s),
{
    match s {
        Some(s) => Json::Text(String::from_str(s.as_str())),
        None => Json::Null,
    }
}

/// The headers of a message.
fn headers_json(headers: &Vec<MessageHeader>) -> (r: Json)
    ensures
        r.tree() == headers_tree(headers@),
{
    let mut members: Vec<Member> = Vec::new();
    let mut i: usize = 0;
    while i < headers.len()
        invariant
            i <= headers.len(),
            members@.len() == i,
            forall|k: int|
                0 <= k < i ==> (#[trigger] members@[k]).name@ == headers@[k].name@
                    && members@[k].value.tree() == JsonTree::Text(headers@[k].value@),
        decreases headers.len() - i,
    {
        let h = &headers[i];
        members.push(
            member(h.name.as_str(), Json::Text(String::from_str(h.value.as_str()))),
        );
        i += 1;
    }
    let r = Json::Object(members);
    proof {
        assert(r.tree()->Object_0 =~= headers_tree(headers@)->Object_0);
    }
    r
}

/// What a plugin is told of one message.
fn message_json(messages: &Vec<DialogMessage>, i: usize) -> (r: Json)
    requires
        i < messages@.len(),
        forall|k: int| 0 <= k < messages@.len() ==> on_the_calendar(#[trigger] messages@[k].timestamp),
    ensures
        r.tree() == message_tree(messages@, i as int),
{
    let m = &messages[i];
    let offset: i64 = offset_millis(messages[0].timestamp, m.timestamp);
    let mut members: Vec<Member> = Vec::new();
    members.push(member("index", Json::Count(i as u64)));
    members.push(member("is_request", Json::Bool(m.is_request)));
    members.push(member("method", optional(&m.method)));
    members.push(
        member(
            "status_code",
            match m.status_code {
                Some(n) => Json::Count(n as u64),
                None => Json::Null,
            },
        ),
    );
    members.push(member("reason", optional(&m.reason)));
    members.push(member("offset_ms", Json::Int(offset)));
    members.push(
        member(
            "cseq_number",
            match &m.cseq {
                Some(c) => Json::Count(c.number as u64),
                None => Json::Null,
            },
        ),
    );
    members.push(
        member(
            "cseq_method",
            match &m.cseq {
                Some(c) => Json::Text(String::from_str(c.method.as_str())),
                None => Json::Null,
            },
        ),
    );
    members.push(member("headers", headers_json(&m.headers)));
    let r = Json::Object(members);
    proof {
        reveal_with_fuel(Json::tree, 2);
        assert(r.tree()->Object_0 =~= message_tree(messages@, i as int)->Object_0);
    }
    r
}

/// The document for a dialog, as a value.
pub fn plugin_document(messages: &Vec<DialogMessage>, dialog: Option<serde_json::Value>) -> (r:
    Json)
    requires
        forall|k: int| 0 <= k < messages@.len() ==> on_the_calendar(#[trigger] messages@[k].timestamp),
    ensures
        r.tree() == document_tree(messages@, dialog),
{
    let mut items: Vec<Json> = Vec::new();
    let mut i: usize = 0;
    while i < messages.len()
        invariant
            i <= messages.len(),
            items@.len() == i,
            forall|k: int|
                0 <= k < messages@.len() ==> on_the_calendar(#[trigger] messages@[k].timestamp),
            forall|k: int| 0 <= k < i ==> (#[trigger] items@[k]).tree() == message_tree(messages@, k),
        decreases messages.len() - i,
    {
        items.push(message_json(messages, i));
        i += 1;
    }
    let list = Json::List(items);
    proof {
        assert(list.tree()->List_0 =~= Seq::new(
            messages@.len(),
            |i: int| message_tree(messages@, i),
        ));
    }
    let base = match dialog {
        Some(v) => Json::Read(v),
        None => Json::Null,
    };
    let mut members: Vec<Member> = Vec::new();
    members.push(member("dialog", base));
    members.push(member("messages", list));
    let r = Json::Object(members);
    proof {
        reveal_with_fuel(Json::tree, 2);
        assert(r.tree()->Object_0 =~= document_tree(messages@, dialog)->Object_0);
    }
    r
}

/// The document a plugin receives for one dialog. `dialog_json` is what is
/// known of the dialog as a whole; where it is no JSON, the plugin is told
/// `null`.
pub fn plugin_input_json(messages: &Vec<DialogMessage>, dialog_json: &str) -> (r: String)
    requires
        forall|k: int| 0 <= k < messages@.len() ==> on_the_calendar(#[trigger] messages@[k].timestamp),
    ensures
        r@ == written(held_value(document_tree(messages@, read_as(dialog_json@)))),
{
    let value = json_value(&plugin_document(messages, read_json(dialog_json)));
    write_value(&value)
}

/// A plugin cannot tell when a capture ran: a dialog whose messages were all
/// captured earlier or later by the same time gives the same document.
pub proof fn the_document_does_not_say_when(
    a: Seq<DialogMessage>,
    b: Seq<DialogMessage>,
    dialog: Option<serde_json::Value>,
    shift: int,
)
    requires
        a.len() == b.len(),
        forall|i: int|
            0 <= i < a.len() ==> #[trigger] b[i] == (DialogMessage {
                timestamp: b[i].timestamp,
                ..a[i]
            }) && b[i].timestamp.nanos == a[i].timestamp.nanos + shift,
    ensures
        document_tree(a, dialog) == document_tree(b, dialog),
{
    assert forall|i: int| 0 <= i < a.len() implies message_tree(a, i) == #[trigger] message_tree(
        b,
        i,
    ) by {
        assert(b[i].timestamp.nanos == a[i].timestamp.nanos + shift);
        assert(b[0].timestamp.nanos == a[0].timestamp.nanos + shift);
        assert(millis_between(a[0].timestamp, a[i].timestamp) == millis_between(
            b[0].timestamp,
            b[i].timestamp,
        ));
        assert(message_tree(a, i)->Object_0 =~= message_tree(b, i)->Object_0);
    }
    assert(Seq::new(a.len(), |i: int| message_tree(a, i)) =~= Seq::new(
        b.len(),
        |i: int| message_tree(b, i),
    ));
}

} // verus!
