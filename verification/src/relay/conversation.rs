//! What following a relay's control traffic is for.
//!
//! Each law writes a datagram out of the parts that its sender put together,
//! and says that decoding it gives those parts back.
use crate::relay::rtpproxy::{
    creates, decode, decode_command, decode_reply, short_tokens, Reply, RtpproxyControl,
    RtpproxyDecoder, Stream,
};
use crate::relay::{
    media_creating_commands_seen, note_media_creating_command, reset_media_creating_count,
    ControlDecoder, ControlDelivery, DecodedControl, MediaCreatingCount,
};
use crate::text::{all_digits, decimal_round_trip, decimal_text};
use crate::words::{
    byte_len, first_space, has_line_break, is_ascii_space, is_space, joined, trim_line_end, word_len,
    words,
};
use vstd::prelude::*;
use vstd::utf8::*;

verus! {

/// Whether a text stands in one piece: not empty and without whitespace.
pub open spec fn solid(s: Seq<char>) -> bool {
    &&& s.len() > 0
    &&& forall|i: int| 0 <= i < s.len() ==> !is_ascii_space(#[trigger] s[i])
}

/// Whether a text is one token: not empty, no longer than a token may be, and
/// without whitespace.
pub open spec fn token(s: Seq<char>) -> bool {
    &&& solid(s)
    &&& byte_len(s) <= 512
}

/// Whether a text is nothing but line ends.
pub open spec fn line_ends(s: Seq<char>) -> bool {
    forall|i: int| 0 <= i < s.len() ==> #[trigger] s[i] == '\r' || s[i] == '\n'
}

/// Whether a datagram is this line of tokens, with one space between each two
/// and line ends behind them.
pub open spec fn is_line_of(payload: Seq<u8>, tokens: Seq<Seq<char>>, end: Seq<char>) -> bool {
    &&& payload == encode_utf8(joined(tokens, ' ') + end)
    &&& payload.len() <= 8192
    &&& line_ends(end)
    &&& forall|i: int| 0 <= i < tokens.len() ==> token(#[trigger] tokens[i])
}

/// Whether a datagram is a line of such pieces, however long each of them is.
pub open spec fn is_line_of_pieces(
    payload: Seq<u8>,
    pieces: Seq<Seq<char>>,
    end: Seq<char>,
) -> bool {
    &&& payload == encode_utf8(joined(pieces, ' ') + end)
    &&& payload.len() <= 8192
    &&& line_ends(end)
    &&& forall|i: int| 0 <= i < pieces.len() ==> solid(#[trigger] pieces[i])
}

/// A word and what follows the space behind it.
proof fn a_word_first(w: Seq<char>, c: char, rest: Seq<char>)
    requires
        w.len() > 0,
        forall|i: int| 0 <= i < w.len() ==> !is_ascii_space(#[trigger] w[i]),
        is_ascii_space(c),
    ensures
        words(w + seq![c] + rest) == seq![w] + words(rest),
{
    let s = w + seq![c] + rest;
    word_is(w, seq![c] + rest);
    assert(s =~= w + (seq![c] + rest));
    let n = w.len() as int;
    assert(s.take(n) =~= w);
    assert(s[0] == w[0]);
    let t = s.skip(n);
    assert(t =~= seq![c] + rest);
    assert(t.skip(1) =~= rest);
    assert(words(t) == words(rest));
}

/// A word by itself.
proof fn a_word_alone(w: Seq<char>)
    requires
        w.len() > 0,
        forall|i: int| 0 <= i < w.len() ==> !is_ascii_space(#[trigger] w[i]),
    ensures
        words(w) == seq![w],
{
    let none = Seq::<char>::empty();
    word_is(w, none);
    assert(w + none =~= w);
    assert(w.take(w.len() as int) =~= w);
    assert(w.skip(w.len() as int) =~= none);
    no_word_in_line_ends(none);
    assert(words(w) =~= seq![w]);
}

/// The length of a word that whitespace, or nothing, follows.
proof fn word_is(w: Seq<char>, rest: Seq<char>)
    requires
        forall|i: int| 0 <= i < w.len() ==> !is_ascii_space(#[trigger] w[i]),
        rest.len() == 0 || is_ascii_space(rest[0]),
    ensures
        word_len(w + rest) == w.len(),
    decreases w.len(),
{
    let s = w + rest;
    if w.len() > 0 {
        let t = w.skip(1);
        assert(!is_ascii_space(w[0]));
        assert(s[0] == w[0]);
        assert(s.skip(1) =~= t + rest);
        assert forall|i: int| 0 <= i < t.len() implies !is_ascii_space(#[trigger] t[i]) by {
            assert(t[i] == w[i + 1]);
        }
        word_is(t, rest);
    } else {
        assert(s =~= rest);
    }
}

/// Line ends hold no word.
proof fn no_word_in_line_ends(end: Seq<char>)
    requires
        line_ends(end),
    ensures
        words(end) == Seq::<Seq<char>>::empty(),
    decreases end.len(),
{
    if end.len() > 0 {
        assert(end[0] == '\r' || end[0] == '\n');
        let t = end.skip(1);
        assert forall|i: int| 0 <= i < t.len() implies #[trigger] t[i] == '\r' || t[i]
            == '\n' by {
            assert(t[i] == end[i + 1]);
        }
        no_word_in_line_ends(t);
    }
}

/// The words of a line are the tokens it was made of.
proof fn the_words_are_the_tokens(tokens: Seq<Seq<char>>, end: Seq<char>)
    requires
        tokens.len() > 0,
        line_ends(end),
        forall|i: int| 0 <= i < tokens.len() ==> solid(#[trigger] tokens[i]),
    ensures
        words(joined(tokens, ' ') + end) == tokens,
    decreases tokens.len(),
{
    let w = tokens[0];
    assert(solid(w));
    let s = joined(tokens, ' ') + end;
    if tokens.len() == 1 {
        word_is(w, end);
        assert(s.take(w.len() as int) =~= w);
        assert(s.skip(w.len() as int) =~= end);
        assert(s[0] == w[0]);
        no_word_in_line_ends(end);
        assert(words(s) =~= tokens);
    } else {
        let rest = tokens.skip(1);
        assert forall|i: int| 0 <= i < rest.len() implies solid(#[trigger] rest[i]) by {
            assert(rest[i] == tokens[i + 1]);
        }
        the_words_are_the_tokens(rest, end);
        assert(s =~= w + seq![' '] + (joined(rest, ' ') + end));
        a_word_first(w, ' ', joined(rest, ' ') + end);
        assert(words(s) =~= tokens);
    }
}

/// A line of tokens is solid: it holds no line end, and does not end in one.
proof fn tokens_hold_no_line_end(tokens: Seq<Seq<char>>)
    requires
        tokens.len() > 0,
        forall|i: int| 0 <= i < tokens.len() ==> solid(#[trigger] tokens[i]),
    ensures
        joined(tokens, ' ').len() > 0,
        !has_line_break(joined(tokens, ' ')),
    decreases tokens.len(),
{
    let s = joined(tokens, ' ');
    assert(solid(tokens[0]));
    if tokens.len() > 1 {
        let rest = tokens.skip(1);
        assert forall|i: int| 0 <= i < rest.len() implies solid(#[trigger] rest[i]) by {
            assert(rest[i] == tokens[i + 1]);
        }
        tokens_hold_no_line_end(rest);
        assert forall|i: int| 0 <= i < s.len() implies #[trigger] s[i] != '\r' && s[i]
            != '\n' by {
            let n = tokens[0].len() as int;
            if i < n {
                assert(s[i] == tokens[0][i]);
            } else if i > n {
                assert(s[i] == joined(rest, ' ')[i - n - 1]);
            }
        }
    } else {
        assert forall|i: int| 0 <= i < s.len() implies #[trigger] s[i] != '\r' && s[i]
            != '\n' by {
            assert(s[i] == tokens[0][i]);
        }
    }
}

/// Line ends behind a text are trimmed away.
proof fn line_ends_go(s: Seq<char>, end: Seq<char>)
    requires
        line_ends(end),
        s.len() > 0 ==> s.last() != '\r' && s.last() != '\n',
    ensures
        trim_line_end(s + end) == s,
    decreases end.len(),
{
    let all = s + end;
    if end.len() == 0 {
        assert(all =~= s);
    } else {
        assert(end[end.len() - 1] == all.last());
        let t = end.drop_last();
        assert(all.drop_last() =~= s + t);
        assert forall|i: int| 0 <= i < t.len() implies #[trigger] t[i] == '\r' || t[i]
            == '\n' by {
            assert(t[i] == end[i]);
        }
        line_ends_go(s, t);
    }
}

/// Tokens that all fit are all kept.
proof fn all_are_short(tokens: Seq<Seq<char>>)
    requires
        forall|i: int| 0 <= i < tokens.len() ==> token(#[trigger] tokens[i]),
    ensures
        short_tokens(tokens) == tokens,
    decreases tokens.len(),
{
    if tokens.len() > 0 {
        assert(token(tokens[0]));
        let rest = tokens.skip(1);
        assert forall|i: int| 0 <= i < rest.len() implies token(#[trigger] rest[i]) by {
            assert(rest[i] == tokens[i + 1]);
        }
        all_are_short(rest);
    }
    assert(short_tokens(tokens) =~= tokens);
}

/// Whether a character is this capital letter, or the small one.
pub open spec fn is_letter(c: char, capital: char) -> bool {
    &&& 'A' <= capital <= 'Z'
    &&& c == capital || c as u32 == capital as u32 + 32
}

/// How many arguments a command takes, with modifiers or without.
pub open spec fn takes(capital: char, modifiers: Seq<char>, n: nat) -> bool {
    let plain = modifiers.len() == 0;
    match capital {
        'U' => 4 <= n <= 7,
        'L' => 4 <= n <= 5,
        'P' => 4 <= n <= 5,
        'D' => 2 <= n <= 3,
        'R' => 2 <= n <= 3,
        'N' => 2 <= n <= 3,
        'C' => 3 <= n <= 4,
        'S' => plain && 2 <= n <= 3,
        'V' => (plain && n <= 1) || (modifiers.len() == 1 && is_letter(modifiers[0], 'F') && n == 1),
        'I' => n == 0,
        'X' => plain && n == 0,
        'Q' => 2 <= n <= 63,
        'G' => n <= 63,
        _ => false,
    }
}

/// A command is read as it was written: its cookie, its letter in either case,
/// what rides on the letter, and its arguments in order. It is one exactly
/// where the letter takes so many arguments.
pub proof fn a_command_is_read_as_it_was_written(
    payload: &[u8],
    cookie: Seq<char>,
    letter: char,
    capital: char,
    modifiers: Seq<char>,
    args: Seq<Seq<char>>,
    end: Seq<char>,
    r: Option<RtpproxyControl>,
)
    requires
        call_ensures(decode_command, (payload,), r),
        is_line_of(payload@, seq![cookie, seq![letter] + modifiers] + args, end),
        is_letter(letter, capital),
    ensures
        r is Some <==> takes(capital, modifiers, args.len()),
        r matches Some(c) ==> (c matches RtpproxyControl::Command {
            cookie: k,
            verb: v,
            modifiers: m,
            args: a,
        } && {
            &&& k@ == cookie
            &&& v == capital
            &&& m@ == modifiers
            &&& a@.len() == args.len()
            &&& forall|i: int| 0 <= i < args.len() ==> (#[trigger] a@[i])@ == args[i]
        }),
{
    let tokens = seq![cookie, seq![letter] + modifiers] + args;
    let text = joined(tokens, ' ') + end;
    line_is_read(payload@, tokens, end);
    assert(tokens[0] == cookie && tokens[1] == seq![letter] + modifiers);
    assert(token(tokens[0]) && token(tokens[1]));
    assert(tokens.skip(2) =~= args);
    assert forall|i: int| 0 <= i < args.len() implies token(#[trigger] args[i]) by {
        assert(args[i] == tokens[i + 2]);
    }
    all_are_short(args);
    assert(tokens[1].skip(1) =~= modifiers);
    assert(tokens[1][0] == letter);
    if let Some(c) = r {
        if let RtpproxyControl::Command { cookie: k, verb, modifiers: m, args: a } = c {
            let v = a@.map_values(|s: String| s@);
            assert(v == args);
            assert(v.len() == a@.len());
            assert forall|i: int| 0 <= i < args.len() implies (#[trigger] a@[i])@ == args[i] by {
                assert(v[i] == a@[i]@);
            }
        }
    }
}

/// A line of tokens is text that reads as its tokens and holds no line end.
proof fn line_is_read(payload: Seq<u8>, tokens: Seq<Seq<char>>, end: Seq<char>)
    requires
        is_line_of_pieces(payload, tokens, end),
        tokens.len() > 0,
    ensures
        valid_utf8(payload),
        payload.len() > 0,
        words(decode_utf8(payload)) == tokens,
        !has_line_break(trim_line_end(decode_utf8(payload))),
{
    let text = joined(tokens, ' ') + end;
    encode_utf8_valid_utf8(text);
    encode_utf8_decode_utf8(text);
    the_words_are_the_tokens(tokens, end);
    tokens_hold_no_line_end(tokens);
    let s = joined(tokens, ' ');
    assert(s.last() == s[s.len() - 1]);
    assert(s.last() != '\r' && s.last() != '\n');
    line_ends_go(s, end);
    assert(payload.len() > 0) by {
        assert(text.len() > 0);
        assert(encode_utf8(text).len() > 0);
    }
}

/// A command of a letter that is none is refused, and so is a line without a
/// command.
pub proof fn an_unknown_letter_is_no_command(
    payload: &[u8],
    tokens: Seq<Seq<char>>,
    end: Seq<char>,
    r: Option<RtpproxyControl>,
)
    requires
        call_ensures(decode_command, (payload,), r),
        is_line_of(payload@, tokens, end),
        tokens.len() > 1 ==> !('A' <= tokens[1][0] <= 'Z') && !('a' <= tokens[1][0] <= 'z'),
    ensures
        r is None,
{
    if tokens.len() > 0 {
        line_is_read(payload@, tokens, end);
    } else {
        assert(joined(tokens, ' ') + end =~= end);
        encode_utf8_valid_utf8(end);
        encode_utf8_decode_utf8(end);
        no_word_in_line_ends(end);
    }
}

/// A command is one line: text with a line end before its last character but
/// line ends is none.
pub proof fn two_lines_are_no_command(
    payload: &[u8],
    a: Seq<char>,
    b: Seq<char>,
    r: Option<RtpproxyControl>,
)
    requires
        call_ensures(decode_command, (payload,), r),
        payload@ == encode_utf8(a + seq!['\n'] + b),
        b.len() > 0,
        b.last() != '\r' && b.last() != '\n',
    ensures
        r is None,
{
    let text = a + seq!['\n'] + b;
    encode_utf8_valid_utf8(text);
    encode_utf8_decode_utf8(text);
    assert(text.last() == b.last());
    assert(text[a.len() as int] == '\n');
    assert(has_line_break(text));
}

/// A datagram that is empty, too long or no text is neither command nor reply.
pub proof fn only_short_text_is_decoded(
    payload: &[u8],
    c: Option<RtpproxyControl>,
    r: Option<RtpproxyControl>,
)
    requires
        call_ensures(decode_command, (payload,), c),
        call_ensures(decode_reply, (payload,), r),
        payload@.len() == 0 || payload@.len() > 8192 || !valid_utf8(payload@),
    ensures
        c is None,
        r is None,
{
}

/// The direction alone decides how a datagram is read: toward the relay it is
/// what a command is read as, from it what a reply is.
pub proof fn the_direction_decides(
    payload: &[u8],
    to_relay: bool,
    r: Option<RtpproxyControl>,
    c: Option<RtpproxyControl>,
    a: Option<RtpproxyControl>,
)
    requires
        call_ensures(decode, (payload, to_relay), r),
        call_ensures(decode_command, (payload,), c),
        call_ensures(decode_reply, (payload,), a),
    ensures
        ({
            let as_read = if to_relay {
                c
            } else {
                a
            };
            &&& r is Some <==> as_read is Some
            &&& r is Some ==> r->0@ == as_read->0@
        }),
        c is Some ==> c->0 is Command,
        a is Some ==> a->0 is Reply,
{
}

/// The updates and lookups of a call create ordinary media, recording and
/// copying create recording streams, and no other letter creates anything, in
/// either case.
pub proof fn letters_create_their_streams(c: char, r: Option<Stream>)
    requires
        call_ensures(creates, (c,), r),
    ensures
        r == Some(Stream::Ordinary) <==> is_letter(c, 'U') || is_letter(c, 'L'),
        r == Some(Stream::Recording) <==> is_letter(c, 'R') || is_letter(c, 'C'),
{
}

/// Every command names its call, but for those that concern no call: version,
/// information, delete-all and statistics. The decoder reports the letter, the
/// cookie and the call, and counts exactly the commands that create ordinary
/// media.
pub proof fn every_command_names_its_call(
    port: u16,
    decoder: &RtpproxyDecoder,
    payload: &[u8],
    count: &mut MediaCreatingCount,
    d: Option<DecodedControl>,
    c: Option<RtpproxyControl>,
)
    requires
        call_ensures(RtpproxyDecoder::on_port, (port,), *decoder),
        call_ensures(
            <RtpproxyDecoder as ControlDecoder>::decode,
            (decoder, payload, port, count),
            d,
        ),
        call_ensures(decode_command, (payload,), c),
    ensures
        d is Some <==> c is Some,
        c matches Some(RtpproxyControl::Command { cookie, verb, modifiers, args }) ==> {
            let m = d->0.message;
            &&& verb == 'V' || verb == 'I' || verb == 'X' || verb == 'G' ==> m.call_id is None
            &&& !(verb == 'V' || verb == 'I' || verb == 'X' || verb == 'G') ==> args@.len() > 0
                && m.call_id is Some && m.call_id->0@ == args@[0]@
            &&& m.command is Some && m.command->0@ == seq![verb]
            &&& m.sdp_bytes is None
            &&& d->0.correlation_id is Some && d->0.correlation_id->0@ == cookie@
            &&& d->0.delivery == ControlDelivery::BareDatagram
            &&& d->0.on_believed_mirror_port is None
            &&& verb == 'U' || verb == 'L' ==> final(count).seen == if old(count).seen
                == 0xFFFF_FFFF_FFFF_FFFF {
                0
            } else {
                old(count).seen + 1
            }
            &&& !(verb == 'U' || verb == 'L') ==> final(count).seen == old(count).seen
        },
        c is None ==> final(count).seen == old(count).seen,
{
    if let Some(RtpproxyControl::Command { cookie, verb, modifiers, args }) = c {
        let v = args@.map_values(|s: String| s@);
        assert(v.len() == args@.len());
        if args@.len() > 0 {
            assert(v[0] == args@[0]@);
        }
    }
}

/// What comes from the relay is reported by its cookie alone: it names no
/// command and no call, and counts as none.
pub proof fn a_reply_is_reported_by_its_cookie(
    port: u16,
    dst_port: u16,
    decoder: &RtpproxyDecoder,
    payload: &[u8],
    count: &mut MediaCreatingCount,
    d: Option<DecodedControl>,
    a: Option<RtpproxyControl>,
)
    requires
        call_ensures(RtpproxyDecoder::on_port, (port,), *decoder),
        dst_port != port,
        call_ensures(
            <RtpproxyDecoder as ControlDecoder>::decode,
            (decoder, payload, dst_port, count),
            d,
        ),
        call_ensures(decode_reply, (payload,), a),
    ensures
        d is Some <==> a is Some,
        a matches Some(RtpproxyControl::Reply { cookie, reply }) ==> {
            &&& d->0.message.command is None
            &&& d->0.message.call_id is None
            &&& d->0.message.sdp_bytes is None
            &&& d->0.correlation_id is Some && d->0.correlation_id->0@ == cookie@
            &&& d->0.delivery == ControlDelivery::BareDatagram
            &&& d->0.on_believed_mirror_port is None
        },
        final(count).seen == old(count).seen,
{
}

/// Whether a datagram is this reply: a cookie, one whitespace character, what
/// it says, and line ends.
pub open spec fn is_reply_of(
    payload: Seq<u8>,
    cookie: Seq<char>,
    gap: char,
    said: Seq<char>,
    end: Seq<char>,
) -> bool {
    &&& payload == encode_utf8(cookie + seq![gap] + said + end)
    &&& payload.len() <= 8192
    &&& cookie.len() > 0
    &&& byte_len(cookie) <= 512
    &&& forall|i: int| 0 <= i < cookie.len() ==> !is_space(#[trigger] cookie[i])
    &&& is_space(gap)
    &&& said.len() > 0
    &&& said.last() != '\r' && said.last() != '\n'
    &&& line_ends(end)
}

/// Where the first whitespace of a reply stands.
proof fn the_gap_is_found(cookie: Seq<char>, gap: char, rest: Seq<char>)
    requires
        forall|i: int| 0 <= i < cookie.len() ==> !is_space(#[trigger] cookie[i]),
        is_space(gap),
    ensures
        first_space(cookie + seq![gap] + rest) == cookie.len(),
    decreases cookie.len(),
{
    let s = cookie + seq![gap] + rest;
    if cookie.len() > 0 {
        let t = cookie.skip(1);
        assert(!is_space(cookie[0]));
        assert(s[0] == cookie[0]);
        assert(s.skip(1) =~= t + seq![gap] + rest);
        assert forall|i: int| 0 <= i < t.len() implies !is_space(#[trigger] t[i]) by {
            assert(t[i] == cookie[i + 1]);
        }
        the_gap_is_found(t, gap, rest);
    }
}

/// A reply is its cookie and what it says.
proof fn a_reply_comes_apart(
    payload: Seq<u8>,
    cookie: Seq<char>,
    gap: char,
    said: Seq<char>,
    end: Seq<char>,
)
    requires
        is_reply_of(payload, cookie, gap, said, end),
    ensures
        ({
            let text = decode_utf8(payload);
            &&& valid_utf8(payload)
            &&& payload.len() > 0
            &&& first_space(text) == cookie.len()
            &&& cookie.len() < text.len()
            &&& text.take(cookie.len() as int) == cookie
            &&& trim_line_end(text.skip(cookie.len() as int + 1)) == said
        }),
{
    let text = cookie + seq![gap] + said + end;
    encode_utf8_valid_utf8(text);
    encode_utf8_decode_utf8(text);
    assert(text =~= cookie + seq![gap] + (said + end));
    the_gap_is_found(cookie, gap, said + end);
    assert(text.take(cookie.len() as int) =~= cookie);
    assert(text.skip(cookie.len() as int + 1) =~= said + end);
    line_ends_go(said, end);
    assert(encode_utf8(text).len() > 0);
}

/// Digits hold no whitespace.
proof fn digits_are_a_word(n: nat)
    ensures
        decimal_text(n).len() > 0,
        all_digits(decimal_text(n)),
        forall|i: int|
            0 <= i < decimal_text(n).len() ==> !is_ascii_space(#[trigger] decimal_text(n)[i]),
        decimal_text(n)[0] != 'E' && decimal_text(n)[0] != 'e',
{
    decimal_round_trip(n);
}

/// An error reply is read as its code, where that is a number the code can
/// hold, and as nothing where it is larger.
pub proof fn an_error_is_read_as_its_code(
    payload: &[u8],
    cookie: Seq<char>,
    gap: char,
    mark: char,
    code: nat,
    end: Seq<char>,
    r: Option<RtpproxyControl>,
)
    requires
        call_ensures(decode_reply, (payload,), r),
        mark == 'E' || mark == 'e',
        is_reply_of(payload@, cookie, gap, seq![mark] + decimal_text(code), end),
    ensures
        code > 0xFFFF_FFFF ==> r is None,
        code <= 0xFFFF_FFFF ==> (r matches Some(RtpproxyControl::Reply { cookie: k, reply }) && k@
            == cookie && (reply matches Reply::Error(n) && n == code)),
{
    let said = seq![mark] + decimal_text(code);
    a_reply_comes_apart(payload@, cookie, gap, said, end);
    decimal_round_trip(code);
    assert(said.skip(1) =~= decimal_text(code));
    assert(said[0] == mark);
}

/// A bare number is read as that number.
pub proof fn a_number_is_read_as_itself(
    payload: &[u8],
    cookie: Seq<char>,
    gap: char,
    n: nat,
    end: Seq<char>,
    r: Option<RtpproxyControl>,
)
    requires
        call_ensures(decode_reply, (payload,), r),
        is_reply_of(payload@, cookie, gap, decimal_text(n), end),
    ensures
        n > 0x7FFF_FFFF_FFFF_FFFF ==> r is None,
        n <= 0x7FFF_FFFF_FFFF_FFFF ==> (r matches Some(RtpproxyControl::Reply { cookie: k, reply })
            && k@ == cookie && (reply matches Reply::Number(x) && x == n)),
{
    let said = decimal_text(n);
    a_reply_comes_apart(payload@, cookie, gap, said, end);
    decimal_round_trip(n);
    digits_are_a_word(n);
    a_word_alone(said);
}

/// A port and an address are read as what the relay allocated; a port that is
/// none is no reply.
pub proof fn an_allocation_is_read_as_port_and_address(
    payload: &[u8],
    cookie: Seq<char>,
    gap: char,
    port: nat,
    address: Seq<char>,
    end: Seq<char>,
    r: Option<RtpproxyControl>,
)
    requires
        call_ensures(decode_reply, (payload,), r),
        token(address),
        is_reply_of(payload@, cookie, gap, decimal_text(port) + seq![' '] + address, end),
    ensures
        port > 0xFFFF ==> r is None,
        port <= 0xFFFF ==> (r matches Some(RtpproxyControl::Reply { cookie: k, reply }) && k@
            == cookie && (reply matches Reply::Media { port: p, address: a } && p == port && a@
            == address)),
{
    let digits = decimal_text(port);
    let said = digits + seq![' '] + address;
    a_reply_comes_apart(payload@, cookie, gap, said, end);
    decimal_round_trip(port);
    digits_are_a_word(port);
    a_word_first(digits, ' ', address);
    a_word_alone(address);
    assert(words(said) =~= seq![digits, address]);
    assert(said[0] == digits[0]);
}

/// Anything that does not begin with a number is kept as it was written, unless
/// it is an error code.
pub proof fn free_text_is_kept_as_it_was_written(
    payload: &[u8],
    cookie: Seq<char>,
    gap: char,
    first: Seq<char>,
    more: Seq<char>,
    end: Seq<char>,
    r: Option<RtpproxyControl>,
)
    requires
        call_ensures(decode_reply, (payload,), r),
        is_reply_of(payload@, cookie, gap, first + more, end),
        token(first),
        more.len() > 0 ==> is_ascii_space(more[0]),
        !all_digits(first),
        first[0] != 'E' && first[0] != 'e',
    ensures
        r matches Some(RtpproxyControl::Reply { cookie: k, reply }) && k@ == cookie && (
        reply matches Reply::Text(t) && t@ == first + more),
{
    let said = first + more;
    a_reply_comes_apart(payload@, cookie, gap, said, end);
    word_is(first, more);
    assert(said.take(first.len() as int) =~= first);
    assert(said[0] == first[0]);
    assert(words(said)[0] == first);
}

/// The counter of commands starts at nothing, gives what it has seen, rises by
/// one for each command until it wraps, and forgets all of them at once.
pub proof fn each_unattributed_command_is_counted(
    new: MediaCreatingCount,
    count: &mut MediaCreatingCount,
    after: &MediaCreatingCount,
    seen: u64,
    forgotten: &mut MediaCreatingCount,
)
    requires
        call_ensures(MediaCreatingCount::new, (), new),
        call_ensures(note_media_creating_command, (count,), ()),
        *after == *final(count),
        call_ensures(media_creating_commands_seen, (after,), seen),
        call_ensures(reset_media_creating_count, (forgotten,), ()),
    ensures
        new.seen == 0,
        old(count).seen < 0xFFFF_FFFF_FFFF_FFFF ==> seen == old(count).seen + 1,
        old(count).seen == 0xFFFF_FFFF_FFFF_FFFF ==> seen == 0,
        final(forgotten).seen == 0,
{
}

/// A datagram whose cookie or verb is too long to be a token is no command.
pub proof fn a_piece_too_long_is_no_command(
    payload: &[u8],
    pieces: Seq<Seq<char>>,
    end: Seq<char>,
    r: Option<RtpproxyControl>,
)
    requires
        call_ensures(decode_command, (payload,), r),
        is_line_of_pieces(payload@, pieces, end),
        pieces.len() >= 1,
        byte_len(pieces[0]) > 512 || (pieces.len() >= 2 && byte_len(pieces[1]) > 512),
    ensures
        r is None,
{
    line_is_read(payload@, pieces, end);
}

/// The tokens in front of one that is too long.
proof fn the_rest_is_cut(args: Seq<Seq<char>>, long: Seq<char>, rest: Seq<Seq<char>>)
    requires
        forall|i: int| 0 <= i < args.len() ==> token(#[trigger] args[i]),
        byte_len(long) > 512,
    ensures
        short_tokens(args + seq![long] + rest) == args,
    decreases args.len(),
{
    let all = args + seq![long] + rest;
    if args.len() == 0 {
        assert(all[0] == long);
        assert(short_tokens(all) =~= args);
    } else {
        assert(token(args[0]));
        let t = args.skip(1);
        assert forall|i: int| 0 <= i < t.len() implies token(#[trigger] t[i]) by {
            assert(t[i] == args[i + 1]);
        }
        the_rest_is_cut(t, long, rest);
        assert(all[0] == args[0]);
        assert(all.skip(1) =~= t + seq![long] + rest);
        assert(short_tokens(all) =~= args);
    }
}

/// The arguments of a command end where one is too long to be a token: what
/// stands in front of it counts, and nothing behind.
pub proof fn arguments_end_at_one_too_long(
    payload: &[u8],
    cookie: Seq<char>,
    letter: char,
    capital: char,
    modifiers: Seq<char>,
    args: Seq<Seq<char>>,
    long: Seq<char>,
    rest: Seq<Seq<char>>,
    end: Seq<char>,
    r: Option<RtpproxyControl>,
)
    requires
        call_ensures(decode_command, (payload,), r),
        is_line_of_pieces(
            payload@,
            seq![cookie, seq![letter] + modifiers] + (args + seq![long] + rest),
            end,
        ),
        token(cookie),
        token(seq![letter] + modifiers),
        forall|i: int| 0 <= i < args.len() ==> token(#[trigger] args[i]),
        byte_len(long) > 512,
        is_letter(letter, capital),
    ensures
        r is Some <==> takes(capital, modifiers, args.len()),
        r matches Some(c) ==> (c matches RtpproxyControl::Command {
            cookie: k,
            verb: v,
            modifiers: m,
            args: a,
        } && {
            &&& k@ == cookie
            &&& v == capital
            &&& m@ == modifiers
            &&& a@.len() == args.len()
            &&& forall|i: int| 0 <= i < args.len() ==> (#[trigger] a@[i])@ == args[i]
        }),
{
    let behind = args + seq![long] + rest;
    let pieces = seq![cookie, seq![letter] + modifiers] + behind;
    line_is_read(payload@, pieces, end);
    assert(pieces[0] == cookie && pieces[1] == seq![letter] + modifiers);
    assert(pieces.skip(2) =~= behind);
    the_rest_is_cut(args, long, rest);
    assert(pieces[1].skip(1) =~= modifiers);
    assert(pieces[1][0] == letter);
    if let Some(c) = r {
        if let RtpproxyControl::Command { cookie: k, verb, modifiers: m, args: a } = c {
            let v = a@.map_values(|s: String| s@);
            assert(v == args);
            assert(v.len() == a@.len());
            assert forall|i: int| 0 <= i < args.len() implies (#[trigger] a@[i])@ == args[i] by {
                assert(v[i] == a@[i]@);
            }
        }
    }
}

/// A number with more behind it than one address, and an `E` with more behind it
/// than a number, are text as well and kept as it was written.
pub proof fn what_only_begins_like_an_answer_is_text(
    payload: &[u8],
    cookie: Seq<char>,
    gap: char,
    first: Seq<char>,
    more: Seq<char>,
    end: Seq<char>,
    r: Option<RtpproxyControl>,
)
    requires
        call_ensures(decode_reply, (payload,), r),
        is_reply_of(payload@, cookie, gap, first + seq![' '] + more, end),
        solid(first),
        (all_digits(first) && words(more).len() > 1) || first[0] == 'E' || first[0] == 'e',
    ensures
        r matches Some(RtpproxyControl::Reply { cookie: k, reply }) && k@ == cookie && (
        reply matches Reply::Text(t) && t@ == first + seq![' '] + more),
{
    let said = first + seq![' '] + more;
    a_reply_comes_apart(payload@, cookie, gap, said, end);
    a_word_first(first, ' ', more);
    assert(words(said)[0] == first);
    assert(said[0] == first[0]);
    assert(said.skip(1)[first.len() - 1] == ' ');
    if all_digits(first) {
        assert('0' <= first[0] <= '9');
    }
}

} // verus!
