//! The rtpproxy control protocol, which is text and not bencode.
//!
//! Commands and replies share a leading cookie and cannot be told apart by
//! content alone, so the direction is the caller's statement. Modifiers that
//! ride on the verb letter are kept verbatim and never interpreted. `U` and `L`
//! create ordinary media; `R` and `C` create recording streams, which are never
//! a participant's leg.
use crate::relay::{
    counted_once_more, note_media_creating_command, ControlDecoder, ControlDelivery,
    ControlMessage, DecodedControl, MediaCreatingCount,
};
use crate::text::{
    all_digits, chars_of, decimal_value, only_digits, parse_unsigned, slice_of, text_of,
    unsigned_digits, utf8_text,
};
use crate::words::{
    breaks_line, byte_len, find_space, first_space, fits_bytes, has_line_break, split_words, trim_line_end,
    trimmed_len, views, word_len, word_len_bounds, words, is_ascii_space,
};
use vstd::prelude::*;
use vstd::utf8::*;

verus! {

/// What a command creates, when it creates anything.
#[derive(Debug, Clone, Copy, PartialEq, Eq, Structural)]
pub enum Stream {
    /// A media stream between the call's own participants.
    Ordinary,
    /// A recording or forking stream, never an ordinary leg.
    Recording,
}

/// A reply, in the shapes the relay writes.
#[derive(Debug, Clone, PartialEq, Eq)]
pub enum Reply {
    /// `E<decimal>`.
    Error(u32),
    /// A bare integer, which `V` and the stats commands return.
    Number(i64),
    /// The `<port> <address>` pair `U` and `L` return.
    Media {
        /// Port the relay allocated.
        port: u16,
        /// Address it allocated the port on, as written.
        address: String,
    },
    /// Free text, kept verbatim and unparsed.
    Text(String),
}

/// One decoded control datagram.
#[derive(Debug, Clone, PartialEq, Eq)]
pub enum RtpproxyControl {
    /// A command from the signaling element to the relay.
    Command {
        /// Leading cookie, which pairs this with its reply.
        cookie: String,
        /// The verb, normalized to upper case.
        verb: char,
        /// Anything attached to the verb letter, preserved and uninterpreted.
        modifiers: String,
        /// Arguments after the verb, in wire order.
        args: Vec<String>,
    },
    /// A reply from the relay.
    Reply {
        /// The cookie echoed back.
        cookie: String,
        /// What it said.
        reply: Reply,
    },
}

/// What a reply says, as plain text and numbers.
pub ghost enum ReplyView {
    /// An error code.
    Error(u32),
    /// A bare integer.
    Number(i64),
    /// A port and an address.
    Media(u16, Seq<char>),
    /// Free text.
    Text(Seq<char>),
}

/// What a control datagram says, as plain text.
pub ghost enum ControlView {
    /// A command.
    Command {
        /// Leading cookie.
        cookie: Seq<char>,
        /// Upper-case verb.
        verb: char,
        /// Rest of the verb token.
        modifiers: Seq<char>,
        /// Arguments in wire order.
        args: Seq<Seq<char>>,
    },
    /// A reply.
    Reply {
        /// Leading cookie.
        cookie: Seq<char>,
        /// What it said.
        reply: ReplyView,
    },
}

impl View for Reply {
    type V = ReplyView;

    open spec fn view(&self) -> ReplyView {
        match self {
            Reply::Error(code) => ReplyView::Error(*code),
            Reply::Number(n) => ReplyView::Number(*n),
            Reply::Media { port, address } => ReplyView::Media(*port, address@),
            Reply::Text(text) => ReplyView::Text(text@),
        }
    }
}

impl View for RtpproxyControl {
    type V = ControlView;

    open spec fn view(&self) -> ControlView {
        match self {
            RtpproxyControl::Command { cookie, verb, modifiers, args } => ControlView::Command {
                cookie: cookie@,
                verb: *verb,
                modifiers: modifiers@,
                args: args@.map_values(|a: String| a@),
            },
            RtpproxyControl::Reply { cookie, reply } => ControlView::Reply {
                cookie: cookie@,
                reply: reply@,
            },
        }
    }
}

/// Longest token this will read, in bytes.
pub const MAX_TOKEN: usize = 512;

/// Longest datagram this will look at.
pub const MAX_DATAGRAM: usize = 8192;

/// Ceiling for the two commands whose real maximum is a runtime value of the
/// relay.
pub const RTPC_MAX_ARGC: usize = 64;

/// A character with ASCII lower case raised to upper case.
pub open spec fn upper(c: char) -> char {
    if 'a' <= c <= 'z' {
        (c as u8 - 32) as u8 as char
    } else {
        c
    }
}

/// A character with ASCII lower case raised to upper case.
fn to_upper(c: char) -> (r: char)
    ensures
        r == upper(c),
{
    if 'a' <= c && c <= 'z' {
        (c as u8 - 32) as char
    } else {
        c
    }
}

/// What an upper-case verb creates.
pub open spec fn stream_of(verb: char) -> Option<Stream> {
    if verb == 'U' || verb == 'L' {
        Some(Stream::Ordinary)
    } else if verb == 'R' || verb == 'C' {
        Some(Stream::Recording)
    } else {
        None
    }
}

/// What `verb` creates, in either case, or `None` when it creates nothing.
#[must_use]
pub fn creates(verb: char) -> (r: Option<Stream>)
    ensures
        r == stream_of(upper(verb)),
{
    let v: char = to_upper(verb);
    if v == 'U' || v == 'L' {
        Some(Stream::Ordinary)
    } else if v == 'R' || v == 'C' {
        Some(Stream::Recording)
    } else {
        None
    }
}

/// What one command letter permits: the least and the greatest count of verb
/// plus arguments, and whether any modifiers may follow the letter.
pub open spec fn rules_of(verb: char) -> Option<(usize, usize, bool)> {
    if verb == 'U' {
        Some((5usize, 8usize, true))
    } else if verb == 'L' || verb == 'P' {
        Some((5usize, 6usize, true))
    } else if verb == 'D' || verb == 'R' || verb == 'N' {
        Some((3usize, 4usize, true))
    } else if verb == 'C' {
        Some((4usize, 5usize, true))
    } else if verb == 'S' {
        Some((3usize, 4usize, false))
    } else if verb == 'V' {
        Some((1usize, 2usize, false))
    } else if verb == 'I' {
        Some((1usize, 1usize, true))
    } else if verb == 'Q' {
        Some((3usize, RTPC_MAX_ARGC, true))
    } else if verb == 'X' {
        Some((1usize, 1usize, false))
    } else if verb == 'G' {
        Some((1usize, RTPC_MAX_ARGC, true))
    } else {
        None
    }
}

/// What one command letter permits, or `None` for a letter that is no command.
fn command_rules(verb: char) -> (r: Option<(usize, usize, bool)>)
    ensures
        r == rules_of(verb),
{
    match verb {
        'U' => Some((5, 8, true)),
        'L' => Some((5, 6, true)),
        'D' => Some((3, 4, true)),
        'P' => Some((5, 6, true)),
        'R' => Some((3, 4, true)),
        'C' => Some((4, 5, true)),
        'S' => Some((3, 4, false)),
        'N' => Some((3, 4, true)),
        'V' => Some((1, 2, false)),
        'I' => Some((1, 1, true)),
        'Q' => Some((3, RTPC_MAX_ARGC, true)),
        'X' => Some((1, 1, false)),
        'G' => Some((1, RTPC_MAX_ARGC, true)),
        _ => None,
    }
}

/// Whether a verb may stand with these modifiers and so many arguments. The
/// version query is `V`, or `VF` and one argument; it takes no other modifier.
pub open spec fn permitted(verb: char, modifiers: Seq<char>, args: nat) -> bool {
    if verb == 'V' {
        ||| modifiers.len() == 0 && args <= 1
        ||| modifiers.len() == 1 && upper(modifiers[0]) == 'F' && args == 1
    } else {
        match rules_of(verb) {
            None => false,
            Some((low, high, modifiers_allowed)) => low <= 1 + args <= high && (modifiers.len() > 0
                ==> modifiers_allowed),
        }
    }
}

/// Whether a verb may stand with these modifiers and so many arguments.
fn keeps_rules(verb: char, modifiers: &[char], args: usize) -> (r: bool)
    ensures
        r == permitted(verb, modifiers@, args as nat),
{
    if verb == 'V' && modifiers.len() > 0 {
        return modifiers.len() == 1 && to_upper(modifiers[0]) == 'F' && args == 1;
    }
    match command_rules(verb) {
        None => false,
        Some((low, high, modifiers_allowed)) => {
            (modifiers_allowed || modifiers.len() == 0) && args >= low - 1 && args <= high - 1
        },
    }
}

/// The tokens before the first one that is longer than a token may be.
pub open spec fn short_tokens(tokens: Seq<Seq<char>>) -> Seq<Seq<char>>
    decreases tokens.len(),
{
    if tokens.len() == 0 || byte_len(tokens[0]) > MAX_TOKEN {
        seq![]
    } else {
        seq![tokens[0]] + short_tokens(tokens.skip(1))
    }
}

/// Whether a datagram is one this will look at: not empty, not too long, and
/// text.
pub open spec fn readable(payload: Seq<u8>) -> bool {
    0 < payload.len() <= MAX_DATAGRAM && valid_utf8(payload)
}

/// The command a datagram heading to the relay carries: one line, a cookie, a
/// verb token, and as many arguments as the verb's rules ask for.
pub open spec fn command_of(payload: Seq<u8>) -> Option<ControlView> {
    let text = decode_utf8(payload);
    let tokens = words(text);
    if !readable(payload) || has_line_break(trim_line_end(text)) || tokens.len() < 2 || byte_len(
        tokens[0],
    ) > MAX_TOKEN || byte_len(tokens[1]) > MAX_TOKEN {
        None
    } else {
        let verb = upper(tokens[1][0]);
        let modifiers = tokens[1].skip(1);
        let args = short_tokens(tokens.skip(2));
        if permitted(verb, modifiers, args.len()) {
            Some(ControlView::Command { cookie: tokens[0], verb, modifiers, args })
        } else {
            None
        }
    }
}

/// What the text after a reply's cookie says, or `None` where it is no reply:
/// only whitespace, or a number that the field it stands in cannot hold.
pub open spec fn reply_body(rest: Seq<char>) -> Option<ReplyView> {
    let code = rest.skip(1);
    let fields = words(rest);
    if (rest[0] == 'E' || rest[0] == 'e') && code.len() > 0 && all_digits(code) {
        if decimal_value(code) <= u32::MAX {
            Some(ReplyView::Error(decimal_value(code) as u32))
        } else {
            None
        }
    } else if fields.len() == 0 {
        None
    } else if all_digits(fields[0]) && fields.len() == 2 && byte_len(fields[1]) <= MAX_TOKEN {
        if decimal_value(fields[0]) <= u16::MAX {
            Some(ReplyView::Media(decimal_value(fields[0]) as u16, fields[1]))
        } else {
            None
        }
    } else if all_digits(fields[0]) && fields.len() == 1 {
        if decimal_value(fields[0]) <= i64::MAX {
            Some(ReplyView::Number(decimal_value(fields[0]) as i64))
        } else {
            None
        }
    } else {
        Some(ReplyView::Text(rest))
    }
}

/// The reply a datagram heading from the relay carries: a cookie up to the
/// first whitespace, and a body that is not empty once line ends are trimmed.
pub open spec fn reply_of(payload: Seq<u8>) -> Option<ControlView> {
    let text = decode_utf8(payload);
    let at = first_space(text) as int;
    let cookie = text.take(at);
    let rest = trim_line_end(text.skip(at + 1));
    if !readable(payload) || at >= text.len() || cookie.len() == 0 || byte_len(cookie) > MAX_TOKEN
        || rest.len() == 0 {
        None
    } else {
        match reply_body(rest) {
            None => None,
            Some(reply) => Some(ControlView::Reply { cookie, reply }),
        }
    }
}

/// Every word of a text has at least one character, and no whitespace.
proof fn words_are_not_empty(s: Seq<char>)
    ensures
        forall|i: int| 0 <= i < words(s).len() ==> (#[trigger] words(s)[i]).len() > 0,
    decreases s.len(),
{
    if s.len() > 0 {
        if is_ascii_space(s[0]) {
            words_are_not_empty(s.skip(1));
            assert(words(s) == words(s.skip(1)));
        } else {
            word_len_bounds(s);
            let n = word_len(s) as int;
            words_are_not_empty(s.skip(n));
            assert forall|i: int| 0 <= i < words(s).len() implies (#[trigger] words(s)[i]).len()
                > 0 by {
                if i > 0 {
                    assert(words(s)[i] == words(s.skip(n))[i - 1]);
                } else {
                    assert(words(s)[0] == s.take(n));
                }
            }
        }
    }
}

/// Decode one control datagram, given which way it was going.
#[must_use]
pub fn decode(payload: &[u8], to_relay: bool) -> (r: Option<RtpproxyControl>)
    ensures
        to_relay ==> (r is Some <==> command_of(payload@) is Some),
        !to_relay ==> (r is Some <==> reply_of(payload@) is Some),
        r matches Some(c) ==> Some(c@) == if to_relay {
            command_of(payload@)
        } else {
            reply_of(payload@)
        },
{
    if to_relay {
        decode_command(payload)
    } else {
        decode_reply(payload)
    }
}

/// Decode a datagram heading to the relay, which is a command.
#[must_use]
pub fn decode_command(payload: &[u8]) -> (r: Option<RtpproxyControl>)
    ensures
        r is Some <==> command_of(payload@) is Some,
        r matches Some(c) ==> Some(c@) == command_of(payload@),
{
    if payload.len() == 0 || payload.len() > MAX_DATAGRAM {
        return None;
    }
    let text = match utf8_text(payload) {
        None => {
            return None;
        },
        Some(t) => chars_of(t),
    };
    let end: usize = trimmed_len(&text);
    let line = slice_of(&text, 0, end);
    assert(line@ =~= text@.take(end as int));
    if breaks_line(&line) {
        return None;
    }
    let tokens = split_words(&text);
    let ghost all = words(text@);
    assert(tokens@.len() == all.len());
    if tokens.len() < 2 {
        return None;
    }
    assert(tokens@[0]@ == views(tokens@)[0]);
    assert(tokens@[1]@ == views(tokens@)[1]);
    if !fits_bytes(&tokens[0], MAX_TOKEN) || !fits_bytes(&tokens[1], MAX_TOKEN) {
        return None;
    }
    proof {
        words_are_not_empty(text@);
    }
    let verb: char = to_upper(tokens[1][0]);
    let modifiers = slice_of(&tokens[1], 1, tokens[1].len());
    assert(modifiers@ =~= all[1].skip(1));
    let mut args: Vec<String> = Vec::new();
    let ghost rest = all.skip(2);
    let mut j: usize = 2;
    assert(rest.skip(0) =~= rest);
    while j < tokens.len() && fits_bytes(&tokens[j], MAX_TOKEN)
        invariant
            2 <= j <= tokens.len(),
            views(tokens@) == all,
            rest == all.skip(2),
            args@.map_values(|a: String| a@) + short_tokens(rest.skip(j - 2)) =~= short_tokens(
                rest,
            ),
        decreases tokens.len() - j,
    {
        let ghost before = args@.map_values(|a: String| a@);
        assert(views(tokens@)[j as int] == tokens@[j as int]@);
        assert(rest.skip(j - 2)[0] == tokens@[j as int]@);
        assert(rest.skip(j - 2).skip(1) =~= rest.skip(j - 1));
        args.push(text_of(&tokens[j]));
        assert(args@.map_values(|a: String| a@) =~= before.push(tokens@[j as int]@));
        j += 1;
    }
    proof {
        if j < tokens.len() {
            assert(views(tokens@)[j as int] == tokens@[j as int]@);
            assert(rest.skip(j - 2)[0] == tokens@[j as int]@);
        }
        assert(short_tokens(rest.skip(j - 2)) =~= seq![]);
        assert(args@.map_values(|a: String| a@) =~= short_tokens(rest));
    }
    if !keeps_rules(verb, &modifiers, args.len()) {
        return None;
    }
    Some(
        RtpproxyControl::Command {
            cookie: text_of(&tokens[0]),
            verb,
            modifiers: text_of(&modifiers),
            args,
        },
    )
}

/// Decode what follows a reply's cookie.
fn decode_reply_body(rest: &[char]) -> (r: Option<Reply>)
    requires
        rest@.len() > 0,
    ensures
        r is Some <==> reply_body(rest@) is Some,
        r matches Some(x) ==> Some(x@) == reply_body(rest@),
{
    let code = slice_of(rest, 1, rest.len());
    assert(code@ =~= rest@.skip(1));
    if (rest[0] == 'E' || rest[0] == 'e') && only_digits(&code) {
        assert(code@[0] != '+');
        return match parse_unsigned(&code, 0xFFFF_FFFF) {
            None => None,
            Some(n) => Some(Reply::Error(n as u32)),
        };
    }
    let fields = split_words(rest);
    let ghost all = words(rest@);
    assert(fields@.len() == all.len());
    proof {
        words_are_not_empty(rest@);
    }
    if fields.len() == 0 {
        return None;
    }
    assert(fields@[0]@ == views(fields@)[0]);
    let numeric: bool = only_digits(&fields[0]);
    if numeric {
        assert(fields@[0]@[0] != '+');
        assert(unsigned_digits(fields@[0]@) == fields@[0]@);
    }
    if fields.len() == 2 {
        assert(fields@[1]@ == views(fields@)[1]);
    }
    if numeric && fields.len() == 2 && fits_bytes(&fields[1], MAX_TOKEN) {
        match parse_unsigned(&fields[0], 0xFFFF) {
            None => None,
            Some(n) => Some(Reply::Media { port: n as u16, address: text_of(&fields[1]) }),
        }
    } else if numeric && fields.len() == 1 {
        match parse_unsigned(&fields[0], 0x7FFF_FFFF_FFFF_FFFF) {
            None => None,
            Some(n) => Some(Reply::Number(n as i64)),
        }
    } else {
        Some(Reply::Text(text_of(rest)))
    }
}

/// Decode a datagram heading from the relay, which is a reply.
#[must_use]
pub fn decode_reply(payload: &[u8]) -> (r: Option<RtpproxyControl>)
    ensures
        r is Some <==> reply_of(payload@) is Some,
        r matches Some(c) ==> Some(c@) == reply_of(payload@),
{
    if payload.len() == 0 || payload.len() > MAX_DATAGRAM {
        return None;
    }
    let text = match utf8_text(payload) {
        None => {
            return None;
        },
        Some(t) => chars_of(t),
    };
    let at: usize = find_space(&text);
    if at == text.len() {
        return None;
    }
    let cookie = slice_of(&text, 0, at);
    assert(cookie@ =~= text@.take(at as int));
    if at == 0 || !fits_bytes(&cookie, MAX_TOKEN) {
        return None;
    }
    let tail = slice_of(&text, at + 1, text.len());
    assert(tail@ =~= text@.skip(at + 1));
    let end: usize = trimmed_len(&tail);
    if end == 0 {
        return None;
    }
    let rest = slice_of(&tail, 0, end);
    assert(rest@ =~= tail@.take(end as int));
    match decode_reply_body(&rest) {
        None => None,
        Some(reply) => Some(RtpproxyControl::Reply { cookie: text_of(&cookie), reply }),
    }
}

/// The rtpproxy control decoder, behind the relay seam. It holds the control
/// port because nothing else can know it.
#[derive(Debug, Clone, Copy)]
pub struct RtpproxyDecoder {
    control_port: u16,
}

impl RtpproxyDecoder {
    /// The UDP port the relay's control socket listens on.
    pub closed spec fn port(self) -> u16 {
        self.control_port
    }

    /// A decoder for a relay whose control socket the operator has named.
    #[must_use]
    pub fn on_port(control_port: u16) -> (r: Self)
        ensures
            r.port() == control_port,
    {
        RtpproxyDecoder { control_port }
    }
}

/// Whether a verb names no call: version, information, delete-all, statistics.
pub open spec fn names_no_call(verb: char) -> bool {
    verb == 'V' || verb == 'I' || verb == 'X' || verb == 'G'
}

/// What a datagram says: a command where it lands on the control port, a
/// reply elsewhere.
pub open spec fn sniffed(payload: Seq<u8>, dst_port: u16, control_port: u16) -> Option<
    ControlView,
> {
    if dst_port == control_port {
        command_of(payload)
    } else {
        reply_of(payload)
    }
}

/// Whether a decoded datagram reports exactly what its control message says.
pub open spec fn reports(d: DecodedControl, c: ControlView) -> bool {
    &&& d.delivery == ControlDelivery::BareDatagram
    &&& d.on_believed_mirror_port is None
    &&& d.message.sdp_bytes is None
    &&& match c {
        ControlView::Command { cookie, verb, modifiers, args } => {
            &&& d.message.command is Some && d.message.command->0@ == seq![verb]
            &&& d.correlation_id is Some && d.correlation_id->0@ == cookie
            &&& d.message.call_id is Some <==> !names_no_call(verb) && args.len() > 0
            &&& d.message.call_id matches Some(id) ==> id@ == args[0]
        },
        ControlView::Reply { cookie, reply } => {
            &&& d.message.command is None
            &&& d.message.call_id is None
            &&& d.correlation_id is Some && d.correlation_id->0@ == cookie
        },
    }
}

/// Whether a message is a command that creates ordinary media.
pub open spec fn creates_media(c: Option<ControlView>) -> bool {
    c matches Some(ControlView::Command { cookie, verb, modifiers, args }) && stream_of(verb)
        == Some(Stream::Ordinary)
}

impl ControlDecoder for RtpproxyDecoder {
    /// Decode a sniffed datagram, using its destination to know which way it
    /// went. Only a command that creates ordinary media moves the count.
    fn decode(&self, payload: &[u8], dst_port: u16, count: &mut MediaCreatingCount) -> (r: Option<
        DecodedControl,
    >)
        ensures
            r is Some <==> sniffed(payload@, dst_port, self.port()) is Some,
            r matches Some(d) ==> reports(d, sniffed(payload@, dst_port, self.port())->0),
            final(count).seen == if creates_media(sniffed(payload@, dst_port, self.port())) {
                counted_once_more(old(count).seen)
            } else {
                old(count).seen
            },
    {
        let decoded = match decode(payload, dst_port == self.control_port) {
            None => {
                return None;
            },
            Some(c) => c,
        };
        let ghost said = decoded@;
        let (command, call_id, correlation_id) = match decoded {
            RtpproxyControl::Command { cookie, verb, modifiers, args } => {
                proof {
                    command_keeps_its_rules(payload@);
                }
                assert(upper(verb) == verb);
                if let Some(Stream::Ordinary) = creates(verb) {
                    note_media_creating_command(count);
                }
                let call_id: Option<String> = if verb == 'V' || verb == 'I' || verb == 'X' || verb
                    == 'G' || args.len() == 0 {
                    None
                } else {
                    Some(args[0].clone())
                };
                let mut letter = String::new();
                letter.push(verb);
                assert(letter@ =~= seq![verb]);
                (Some(letter), call_id, Some(cookie))
            },
            RtpproxyControl::Reply { cookie, reply } => (None, None, Some(cookie)),
        };
        let d = DecodedControl {
            delivery: ControlDelivery::BareDatagram,
            message: ControlMessage { command, call_id, sdp_bytes: None },
            correlation_id,
            on_believed_mirror_port: None,
        };
        assert(reports(d, said));
        Some(d)
    }
}

/// A decoded command is a single line whose verb is a known upper-case letter,
/// with as many arguments as that letter takes, and modifiers only where the
/// letter takes them.
pub proof fn command_keeps_its_rules(payload: Seq<u8>)
    ensures
        command_of(payload) matches Some(c) ==> c is Command && {
            &&& !has_line_break(trim_line_end(decode_utf8(payload)))
            &&& c->verb == upper(c->verb)
            &&& rules_of(c->verb) matches Some((low, high, modifiers_allowed)) && low <= 1
                + c->args.len() <= high
            &&& permitted(c->verb, c->modifiers, c->args.len())
        },
{
}

/// Every decoded message carries a cookie: not empty, and no longer than a
/// token may be.
pub proof fn every_message_has_a_cookie(payload: Seq<u8>)
    ensures
        command_of(payload) matches Some(c) ==> c is Command && 0 < byte_len(c->Command_cookie)
            <= MAX_TOKEN,
        reply_of(payload) matches Some(c) ==> c is Reply && 0 < byte_len(c->Reply_cookie)
            <= MAX_TOKEN,
{
    let text = decode_utf8(payload);
    words_are_not_empty(text);
    if words(text).len() > 0 {
        some_bytes(words(text)[0]);
    }
    if first_space(text) > 0 && first_space(text) < text.len() {
        some_bytes(text.take(first_space(text) as int));
    }
}

/// A text that is not empty takes at least one byte.
proof fn some_bytes(s: Seq<char>)
    requires
        s.len() > 0,
    ensures
        byte_len(s) > 0,
{
}

/// A recording command never creates an ordinary leg, and the two kinds of
/// stream exclude each other.
pub proof fn recording_is_never_a_leg(verb: char)
    ensures
        verb == 'R' || verb == 'C' ==> stream_of(verb) == Some(Stream::Recording),
        verb == 'U' || verb == 'L' ==> stream_of(verb) == Some(Stream::Ordinary),
        stream_of(verb) is Some <==> verb == 'R' || verb == 'C' || verb == 'U' || verb == 'L',
{
}

} // verus!
