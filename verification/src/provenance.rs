//! Which capture an answer came from.
//!
//! A generation counter alone cannot tell a store that grew from one that was
//! cleared and refilled. The instance id does: it is replaced whenever a
//! different capture is loaded, so a consumer holding cursors learns that they
//! mean nothing any more.
use crate::text::{
    chars_of, decimal, decimal_round_trip, decimal_text, decimal_value, hex_text,
    hex_text_is_plain, hexadecimal, parse_unsigned, reads_unsigned, same_text, slice_of, text_of,
    unsigned_digits,
};
use crate::words::{find_char, first_at, first_at_is};
use vstd::prelude::*;
use vstd::string::*;

verus! {

/// Source of capture-instance ids: a prefix that tells this process from every
/// other, and a count of the ids handed out.
#[derive(Debug)]
pub struct InstanceMint {
    origin: String,
    minted: u64,
}

/// The id with number `n` under a prefix: the prefix, a hyphen, the number.
pub open spec fn instance_id(origin: Seq<char>, n: nat) -> Seq<char> {
    origin + seq!['-'] + decimal_text(n)
}

impl InstanceMint {
    /// The per-process prefix.
    pub closed spec fn origin(self) -> Seq<char> {
        self.origin@
    }

    /// Ids handed out so far.
    pub closed spec fn minted(self) -> nat {
        self.minted as nat
    }

    /// A source of ids for the process `pid` that started `start_nanos` after
    /// the epoch. The prefix is both numbers in hexadecimal: two runs on one
    /// host differ by process id, and a reused process id by start time.
    pub fn new(pid: u32, start_nanos: u64) -> (r: Self)
        ensures
            r.origin() == hex_text(pid as nat) + hex_text(start_nanos as nat),
            r.minted() == 0,
    {
        let mut origin = hexadecimal(pid as u64);
        origin.append(hexadecimal(start_nanos).as_str());
        InstanceMint { origin, minted: 0 }
    }

    /// Hand out the next id.
    pub fn mint(&mut self) -> (r: String)
        requires
            old(self).minted() < u64::MAX,
        ensures
            final(self).origin() == old(self).origin(),
            final(self).minted() == old(self).minted() + 1,
            r@ == instance_id(old(self).origin(), old(self).minted() + 1),
    {
        self.minted += 1;
        let mut id = self.origin.clone();
        id.push('-');
        id.append(decimal(self.minted).as_str());
        assert(id@ =~= instance_id(self.origin@, self.minted as nat));
        id
    }
}

/// The identity of the capture a server currently holds. Rotate it in the same
/// critical section that clears the stores.
#[derive(Debug, Clone)]
pub struct CaptureIdentity {
    instance: String,
}

impl View for CaptureIdentity {
    type V = Seq<char>;

    closed spec fn view(&self) -> Seq<char> {
        self.instance@
    }
}

impl CaptureIdentity {
    /// Mint the first identity of a capture.
    #[must_use]
    pub fn new(mint: &mut InstanceMint) -> (r: Self)
        requires
            old(mint).minted() < u64::MAX,
        ensures
            final(mint).origin() == old(mint).origin(),
            final(mint).minted() == old(mint).minted() + 1,
            r@ == instance_id(old(mint).origin(), old(mint).minted() + 1),
    {
        CaptureIdentity { instance: mint.mint() }
    }

    /// The current instance id.
    #[must_use]
    pub fn instance(&self) -> (r: &str)
        ensures
            r@ == self@,
    {
        self.instance.as_str()
    }

    /// Replace the instance because a different capture is now loaded, and
    /// give the new instance id.
    pub fn rotate(&mut self, mint: &mut InstanceMint) -> (r: String)
        requires
            old(mint).minted() < u64::MAX,
        ensures
            final(mint).origin() == old(mint).origin(),
            final(mint).minted() == old(mint).minted() + 1,
            final(self)@ == instance_id(old(mint).origin(), old(mint).minted() + 1),
            r@ == final(self)@,
    {
        self.instance = mint.mint();
        self.instance.clone()
    }

    /// Pair this instance with the two store generations.
    #[must_use]
    pub fn etag(&self, dialog_generation: u64, stream_generation: u64) -> (r: CaptureEtag)
        ensures
            r.instance@ == self@,
            r.dialog_generation == dialog_generation,
            r.stream_generation == stream_generation,
    {
        CaptureEtag { instance: self.instance.clone(), dialog_generation, stream_generation }
    }
}

/// Which capture an answer came from, and which revision of its stores.
///
/// A different `instance` is a different capture, and every cursor, index and
/// Call-ID of the earlier answer is meaningless. The same instance with a
/// higher generation is the same capture, grown.
#[derive(Debug, Clone, PartialEq, Eq)]
pub struct CaptureEtag {
    /// Identifies the loaded capture. Opaque; compare it, never parse it.
    pub instance: String,
    /// Dialog store mutations since it was created or cleared.
    pub dialog_generation: u64,
    /// Stream store mutations since it was created or cleared.
    pub stream_generation: u64,
}

/// What an etag says, as plain text and numbers.
pub ghost struct EtagView {
    /// Identifies the loaded capture.
    pub instance: Seq<char>,
    /// Dialog store generation.
    pub dialogs: nat,
    /// Stream store generation.
    pub streams: nat,
}

impl View for CaptureEtag {
    type V = EtagView;

    open spec fn view(&self) -> EtagView {
        EtagView {
            instance: self.instance@,
            dialogs: self.dialog_generation as nat,
            streams: self.stream_generation as nat,
        }
    }
}

/// The one-token form: `<instance>:<dialog generation>.<stream generation>`.
pub open spec fn etag_text(e: EtagView) -> Seq<char> {
    e.instance + seq![':'] + decimal_text(e.dialogs) + seq!['.'] + decimal_text(e.streams)
}

/// What is wrong with a text that is no etag.
pub ghost enum EtagFault {
    /// There is no colon.
    NoColon,
    /// No dot follows the colon.
    NoPair,
    /// Nothing stands before the colon.
    EmptyInstance,
    /// What stands between colon and dot is no number.
    BadDialogs(Seq<char>),
    /// What stands after the dot is no number.
    BadStreams(Seq<char>),
}

/// What a text says as an etag, or the first thing that is wrong with it.
pub open spec fn read_etag(s: Seq<char>) -> Result<EtagView, EtagFault> {
    let colon = first_at(s, ':') as int;
    let pair = s.skip(colon + 1);
    let dot = first_at(pair, '.') as int;
    let dialogs = pair.take(dot);
    let streams = pair.skip(dot + 1);
    if colon >= s.len() {
        Err(EtagFault::NoColon)
    } else if dot >= pair.len() {
        Err(EtagFault::NoPair)
    } else if colon == 0 {
        Err(EtagFault::EmptyInstance)
    } else if !reads_unsigned(dialogs, u64::MAX as nat) {
        Err(EtagFault::BadDialogs(dialogs))
    } else if !reads_unsigned(streams, u64::MAX as nat) {
        Err(EtagFault::BadStreams(streams))
    } else {
        Ok(
            EtagView {
                instance: s.take(colon),
                dialogs: decimal_value(unsigned_digits(dialogs)),
                streams: decimal_value(unsigned_digits(streams)),
            },
        )
    }
}

/// A text between single quotes.
pub open spec fn quoted(s: Seq<char>) -> Seq<char> {
    seq!['\''] + s + seq!['\'']
}

/// The message for a text that is no etag. It names the token and what was
/// expected.
pub open spec fn etag_message(s: Seq<char>, fault: EtagFault) -> Seq<char> {
    match fault {
        EtagFault::NoColon => quoted(s)
            + " is not an etag: expected <instance>:<dialogs>.<streams>"@,
        EtagFault::NoPair => quoted(s)
            + " has no generation pair: expected <instance>:<dialogs>.<streams>"@,
        EtagFault::EmptyInstance => quoted(s) + " has an empty instance id"@,
        EtagFault::BadDialogs(d) => quoted(d) + " is not a dialog generation"@,
        EtagFault::BadStreams(d) => quoted(d) + " is not a stream generation"@,
    }
}

/// A quoted text and what is said of it.
fn quote(s: &[char], says: &str) -> (r: String)
    ensures
        r@ == quoted(s@) + says@,
{
    let mut out = String::new();
    out.push('\'');
    out.append(text_of(s).as_str());
    out.push('\'');
    out.append(says);
    assert(out@ =~= quoted(s@) + says@);
    out
}

impl CaptureEtag {
    /// Whether `other` describes a different capture rather than a later
    /// revision of this one.
    #[must_use]
    pub fn is_different_capture(&self, other: &Self) -> (r: bool)
        ensures
            r == (self@.instance != other@.instance),
    {
        !same_text(self.instance.as_str(), other.instance.as_str())
    }

    /// The one-token form, for a consumer with a single string field.
    pub fn to_string(&self) -> (r: String)
        ensures
            r@ == etag_text(self@),
    {
        let mut out = self.instance.clone();
        out.push(':');
        out.append(decimal(self.dialog_generation).as_str());
        out.push('.');
        out.append(decimal(self.stream_generation).as_str());
        assert(out@ =~= etag_text(self@));
        out
    }

    /// Read the one-token form back. The error names the token and what was
    /// expected of it.
    pub fn from_text(s: &str) -> (r: Result<CaptureEtag, String>)
        ensures
            match read_etag(s@) {
                Ok(e) => r is Ok && r->Ok_0@ == e,
                Err(fault) => r is Err && r->Err_0@ == etag_message(s@, fault),
            },
    {
        let text = chars_of(s);
        let colon: usize = find_char(&text, ':');
        if colon == text.len() {
            return Err(quote(&text, " is not an etag: expected <instance>:<dialogs>.<streams>"));
        }
        let pair = slice_of(&text, colon + 1, text.len());
        assert(pair@ =~= s@.skip(colon + 1));
        let dot: usize = find_char(&pair, '.');
        if dot == pair.len() {
            return Err(
                quote(
                    &text,
                    " has no generation pair: expected <instance>:<dialogs>.<streams>",
                ),
            );
        }
        if colon == 0 {
            return Err(quote(&text, " has an empty instance id"));
        }
        let instance = slice_of(&text, 0, colon);
        assert(instance@ =~= s@.take(colon as int));
        let dialogs = slice_of(&pair, 0, dot);
        assert(dialogs@ =~= pair@.take(dot as int));
        let streams = slice_of(&pair, dot + 1, pair.len());
        assert(streams@ =~= pair@.skip(dot + 1));
        let dialog_generation: u64 = match parse_unsigned(&dialogs, u64::MAX) {
            None => {
                return Err(quote(&dialogs, " is not a dialog generation"));
            },
            Some(n) => n,
        };
        let stream_generation: u64 = match parse_unsigned(&streams, u64::MAX) {
            None => {
                return Err(quote(&streams, " is not a stream generation"));
            },
            Some(n) => n,
        };
        Ok(CaptureEtag { instance: text_of(&instance), dialog_generation, stream_generation })
    }
}

impl std::str::FromStr for CaptureEtag {
    type Err = String;

    /// Read the one-token form back. The error names the token and what was
    /// expected of it.
    fn from_str(s: &str) -> (r: Result<CaptureEtag, String>)
        ensures
            match read_etag(s@) {
                Ok(e) => r is Ok && r->Ok_0@ == e,
                Err(fault) => r is Err && r->Err_0@ == etag_message(s@, fault),
            },
    {
        CaptureEtag::from_text(s)
    }
}

/// Two ids of one process are equal only where they are the same id: what a
/// process mints never repeats.
pub proof fn minted_ids_are_distinct(origin: Seq<char>, m: nat, n: nat)
    requires
        m != n,
    ensures
        instance_id(origin, m) != instance_id(origin, n),
{
    let a = instance_id(origin, m);
    let b = instance_id(origin, n);
    let k = (origin.len() + 1) as int;
    assert(a.skip(k) =~= decimal_text(m));
    assert(b.skip(k) =~= decimal_text(n));
    decimal_round_trip(m);
    decimal_round_trip(n);
}

/// The text form survives a round trip, for every etag whose instance is not
/// empty and holds no colon.
pub proof fn etag_round_trips(e: EtagView)
    requires
        e.instance.len() > 0,
        forall|i: int| 0 <= i < e.instance.len() ==> #[trigger] e.instance[i] != ':',
        e.dialogs <= u64::MAX,
        e.streams <= u64::MAX,
    ensures
        read_etag(etag_text(e)) == Ok::<EtagView, EtagFault>(e),
{
    let s = etag_text(e);
    let k = e.instance.len() as int;
    assert forall|i: int| 0 <= i < k implies #[trigger] s[i] != ':' by {
        assert(s[i] == e.instance[i]);
    }
    first_at_is(s, ':', k);
    let pair = s.skip(k + 1);
    let d = decimal_text(e.dialogs);
    let t = decimal_text(e.streams);
    assert(pair =~= d + seq!['.'] + t);
    decimal_round_trip(e.dialogs);
    decimal_round_trip(e.streams);
    assert forall|i: int| 0 <= i < d.len() implies #[trigger] pair[i] != '.' by {
        assert(pair[i] == d[i]);
    }
    first_at_is(pair, '.', d.len() as int);
    assert(pair.take(d.len() as int) =~= d);
    assert(pair.skip(d.len() as int + 1) =~= t);
    assert(s.take(k) =~= e.instance);
    assert(d[0] != '+' && t[0] != '+');
}

/// Every etag of a minted identity survives the round trip, whatever process
/// minted it.
pub proof fn minted_etag_round_trips(pid: u32, start_nanos: u64, n: nat, dialogs: u64, streams: u64)
    ensures
        ({
            let origin = hex_text(pid as nat) + hex_text(start_nanos as nat);
            let e = EtagView {
                instance: instance_id(origin, n),
                dialogs: dialogs as nat,
                streams: streams as nat,
            };
            read_etag(etag_text(e)) == Ok::<EtagView, EtagFault>(e)
        }),
{
    let a = hex_text(pid as nat);
    let b = hex_text(start_nanos as nat);
    let origin = a + b;
    let id = instance_id(origin, n);
    hex_text_is_plain(pid as nat);
    hex_text_is_plain(start_nanos as nat);
    decimal_round_trip(n);
    assert forall|i: int| 0 <= i < id.len() implies #[trigger] id[i] != ':' by {
        if i < a.len() {
            assert(id[i] == a[i]);
        } else if i < origin.len() {
            assert(id[i] == b[i - a.len()]);
        } else if i > origin.len() {
            assert(id[i] == decimal_text(n)[i - origin.len() - 1]);
        }
    }
    etag_round_trips(
        EtagView { instance: id, dialogs: dialogs as nat, streams: streams as nat },
    );
}

/// Every capture that is loaded gets an id of its own: the process's prefix, a
/// hyphen and a number one higher than the last; so no two captures of a
/// process share one.
pub proof fn each_capture_has_its_own_id(
    mint: &mut InstanceMint,
    id: String,
    again: &mut InstanceMint,
    other: String,
)
    requires
        call_ensures(InstanceMint::mint, (mint,), id),
        call_ensures(InstanceMint::mint, (again,), other),
        old(again).origin() == final(mint).origin(),
        old(again).minted() >= final(mint).minted(),
        old(mint).minted() < u64::MAX,
        old(again).minted() < u64::MAX,
    ensures
        final(mint).minted() == old(mint).minted() + 1,
        final(mint).origin() == old(mint).origin(),
        id@ == old(mint).origin() + seq!['-'] + decimal_text(old(mint).minted() + 1),
        id@ != other@,
{
    minted_ids_are_distinct(
        old(mint).origin(),
        old(mint).minted() + 1,
        old(again).minted() + 1,
    );
}

/// A process's ids begin with its number and the time it started, in
/// hexadecimal.
pub proof fn a_process_has_its_own_prefix(pid: u32, start: u64, mint: InstanceMint)
    requires
        call_ensures(InstanceMint::new, (pid, start), mint),
    ensures
        mint.origin() == hex_text(pid as nat) + hex_text(start as nat),
        mint.minted() == 0,
{
}

/// A capture is named by the id it was loaded under until another is loaded,
/// and then by the new one, which is given back; an answer's etag names that
/// capture and both generations.
pub proof fn an_answer_names_its_capture(
    c: &mut CaptureIdentity,
    mint: &mut InstanceMint,
    given: String,
    after: &CaptureIdentity,
    named: &str,
    dialogs: u64,
    streams: u64,
    e: CaptureEtag,
)
    requires
        call_ensures(CaptureIdentity::rotate, (c, mint), given),
        *after == *final(c),
        call_ensures(CaptureIdentity::instance, (after,), named),
        call_ensures(CaptureIdentity::etag, (after, dialogs, streams), e),
        old(mint).minted() < u64::MAX,
    ensures
        named@ == given@,
        given@ == old(mint).origin() + seq!['-'] + decimal_text(old(mint).minted() + 1),
        final(mint).minted() == old(mint).minted() + 1,
        e.instance@ == given@,
        e.dialog_generation == dialogs,
        e.stream_generation == streams,
{
}

/// Two etags are of different captures exactly where their instances differ,
/// whatever their generations.
pub proof fn only_the_instance_tells_captures_apart(a: &CaptureEtag, b: &CaptureEtag, r: bool)
    requires
        call_ensures(CaptureEtag::is_different_capture, (a, b), r),
    ensures
        r <==> a.instance@ != b.instance@,
{
}

/// An etag is written as its instance, a colon, the dialogs' generation, a dot
/// and the streams', and what is written so is read back, as long as the
/// instance is not empty and holds no colon.
pub proof fn an_etag_is_read_as_it_was_written(
    e: &CaptureEtag,
    text: String,
    s: &str,
    r: Result<CaptureEtag, String>,
)
    requires
        call_ensures(CaptureEtag::to_string, (e,), text),
        call_ensures(CaptureEtag::from_text, (s,), r),
        s@ == text@,
        e.instance@.len() > 0,
        forall|i: int| 0 <= i < e.instance@.len() ==> #[trigger] e.instance@[i] != ':',
    ensures
        text@ == e.instance@ + seq![':'] + decimal_text(e.dialog_generation as nat) + seq!['.']
            + decimal_text(e.stream_generation as nat),
        r matches Ok(b) && b.instance@ == e.instance@ && b.dialog_generation == e.dialog_generation
            && b.stream_generation == e.stream_generation,
{
    etag_round_trips(e@);
}

/// A text without a colon, without a dot behind the first colon, or without
/// anything before it is no etag; nor is one whose generations are not numbers.
pub proof fn a_mangled_etag_is_refused(
    before: Seq<char>,
    pair: Seq<char>,
    s: &str,
    r: Result<CaptureEtag, String>,
)
    requires
        call_ensures(CaptureEtag::from_text, (s,), r),
        forall|i: int| 0 <= i < before.len() ==> #[trigger] before[i] != ':',
        s@ == before || s@ == before + seq![':'] + pair,
    ensures
        s@ == before ==> r is Err,
        s@ == before + seq![':'] + pair && before.len() == 0 ==> r is Err,
        s@ == before + seq![':'] + pair && (forall|i: int|
            0 <= i < pair.len() ==> #[trigger] pair[i] != '.') ==> r is Err,
        r matches Ok(e) ==> e.instance@ == before,
{
    if s@ == before {
        first_at_is(s@, ':', before.len() as int);
    } else {
        assert forall|i: int| 0 <= i < before.len() implies #[trigger] s@[i] != ':' by {
            assert(s@[i] == before[i]);
        }
        first_at_is(s@, ':', before.len() as int);
        assert(s@.skip(before.len() as int + 1) =~= pair);
        assert(s@.take(before.len() as int) =~= before);
        if forall|i: int| 0 <= i < pair.len() ==> #[trigger] pair[i] != '.' {
            first_at_is(pair, '.', pair.len() as int);
        }
    }
}

/// A capture takes the next id of its process when it begins, and the next one
/// after that when another capture takes its place.
pub proof fn a_capture_takes_the_next_id(
    mint: &mut InstanceMint,
    c: CaptureIdentity,
    loaded: &mut CaptureIdentity,
    again: &mut InstanceMint,
    id: String,
    shown: &str,
)
    requires
        old(mint).minted() < u64::MAX,
        old(again).minted() < u64::MAX,
        call_ensures(CaptureIdentity::new, (mint,), c),
        call_ensures(CaptureIdentity::rotate, (loaded, again), id),
        call_ensures(CaptureIdentity::instance, (&c,), shown),
    ensures
        shown@ == old(mint).origin() + seq!['-'] + decimal_text(old(mint).minted() + 1),
        final(mint).origin() == old(mint).origin(),
        final(mint).minted() == old(mint).minted() + 1,
        id@ == old(again).origin() + seq!['-'] + decimal_text(old(again).minted() + 1),
        final(loaded)@ == id@,
        final(again).origin() == old(again).origin(),
        final(again).minted() == old(again).minted() + 1,
{
}

} // verus!
