//! What reading a quote is for.
//!
//! Each law builds a quote out of its parts, or sets one beside another, and
//! says what reading it gives back.
use crate::pipeline::quote::{
    begins, byte_at, call_id_name, crlf_at, crlf_bounds, crlf_not_before, cseq_name, header_value,
    line_len, names, names_header, quoted_header, quoted_media_kind, quoted_method,
    quoted_sip_prefix, quoted_uri, sip_scheme, sips_scheme, tel_scheme, trim_back, trim_front,
    trimmed, QuotedMediaKind, QuotedSipPrefix,
};
use vstd::prelude::*;
use vstd::utf8::*;

verus! {

/// Every RTP header is recognized: twelve bytes of version 2, without a claim
/// of padding, whose payload type is none of those kept free for RTCP, are RTP
/// with that payload type, dynamic or not, and the source at its place.
pub proof fn every_rtp_header_is_recognized(p: &[u8], r: QuotedMediaKind)
    requires
        call_ensures(quoted_media_kind, (p,), r),
        p@.len() >= 12,
        128 <= p@[0] < 160,
        !(192 <= p@[1] <= 223),
        !(64 <= p@[1] < 96),
    ensures
        r matches QuotedMediaKind::Rtp { ssrc, payload_type } && {
            &&& payload_type == if p@[1] >= 128 {
                p@[1] - 128
            } else {
                p@[1] as int
            }
            &&& ssrc == 0x100_0000 * p@[8] + 0x1_0000 * p@[9] + 0x100 * p@[10] + p@[11]
        },
{
}

/// A claim of padding needs at least one byte behind the header; with it the
/// header is read as any other.
pub proof fn padding_needs_a_byte(p: &[u8], plain: &[u8], r: QuotedMediaKind, q: QuotedMediaKind)
    requires
        call_ensures(quoted_media_kind, (p,), r),
        call_ensures(quoted_media_kind, (plain,), q),
        p@.len() >= 12,
        160 <= p@[0] < 192,
        !(192 <= p@[1] <= 223),
        plain@ == p@.update(0, (p@[0] - 32) as u8),
    ensures
        p@.len() > 12 ==> r == q,
        p@.len() == 12 ==> r is NotMedia,
{
}

/// Every RTCP header is recognized, however little of the packet was quoted
/// behind it: eight bytes of version 2, with a type kept for RTCP and a length
/// of at least one word, are RTCP of that type with the source at its place.
pub proof fn every_rtcp_header_is_recognized(p: &[u8], r: QuotedMediaKind)
    requires
        call_ensures(quoted_media_kind, (p,), r),
        p@.len() >= 8,
        128 <= p@[0] < 192,
        192 <= p@[1] <= 223,
    ensures
        p@[2] != 0 || p@[3] != 0 ==> (r matches QuotedMediaKind::Rtcp { ssrc, packet_type } && {
            &&& packet_type == p@[1]
            &&& ssrc == 0x100_0000 * p@[4] + 0x1_0000 * p@[5] + 0x100 * p@[6] + p@[7]
        }),
        p@[2] == 0 && p@[3] == 0 ==> r is NotMedia,
{
}

/// A payload is called unread where it is too short to tell, and not media
/// where what there is of it rules media out.
pub proof fn too_little_is_unread_and_not_the_rest(p: &[u8], r: QuotedMediaKind)
    requires
        call_ensures(quoted_media_kind, (p,), r),
    ensures
        p@.len() == 0 ==> r is Unread,
        p@.len() > 0 && !(128 <= p@[0] < 192) ==> r is NotMedia,
        p@.len() == 1 && 128 <= p@[0] < 192 ==> r is Unread,
        1 < p@.len() < 12 && 128 <= p@[0] < 192 && !(192 <= p@[1] <= 223) ==> if 64 <= p@[1] < 96 {
            r is NotMedia
        } else {
            r is Unread
        },
        p@.len() >= 12 ==> !(r is Unread),
        p@.len() >= 12 && 64 <= p@[1] < 96 ==> r is NotMedia,
{
}

/// A longer quote never changes what a shorter one proved to be media.
pub proof fn a_longer_quote_is_the_same_media(
    short: &[u8],
    long: &[u8],
    more: Seq<u8>,
    r: QuotedMediaKind,
    q: QuotedMediaKind,
)
    requires
        call_ensures(quoted_media_kind, (short,), r),
        call_ensures(quoted_media_kind, (long,), q),
        long@ == short@ + more,
        r is Rtp || r is Rtcp,
    ensures
        q == r,
{
}

/// The source that a payload names is offered, and whether it proves itself
/// media is said, exactly where it is RTP or RTCP.
pub proof fn media_offers_its_source(k: QuotedMediaKind, ssrc: Option<u32>, media: bool)
    requires
        call_ensures(QuotedMediaKind::ssrc, (k,), ssrc),
        call_ensures(QuotedMediaKind::is_media, (k,), media),
    ensures
        match k {
            QuotedMediaKind::Rtp { ssrc: s, payload_type } => ssrc == Some(s) && media,
            QuotedMediaKind::Rtcp { ssrc: s, packet_type } => ssrc == Some(s) && media,
            _ => ssrc is None && !media,
        },
{
}

/// Whether two readings agree.
pub open spec fn agree(a: Option<String>, b: Option<String>) -> bool {
    match (a, b) {
        (Some(x), Some(y)) => x@ == y@,
        (None, None) => true,
        _ => false,
    }
}

/// Whether bytes hold no line end.
pub open spec fn one_line(s: Seq<u8>) -> bool {
    forall|i: int| 0 <= i < s.len() ==> #[trigger] s[i] != 0x0D && s[i] != 0x0A
}

/// Whether bytes hold no colon.
pub open spec fn no_colon(s: Seq<u8>) -> bool {
    forall|i: int| 0 <= i < s.len() ==> #[trigger] s[i] != 0x3A
}

/// Whether bytes are spaces and tabs.
pub open spec fn blank(s: Seq<u8>) -> bool {
    forall|i: int| 0 <= i < s.len() ==> #[trigger] s[i] == 0x20 || s[i] == 0x09
}

/// Whether bytes begin and end with something to be seen.
pub open spec fn solid(s: Seq<u8>) -> bool {
    &&& s.len() > 0
    &&& s[0] > 0x20
    &&& s.last() > 0x20
}

/// Whether a field is this name, whatever its letter case.
pub open spec fn same_letters(field: Seq<u8>, name: Seq<u8>) -> bool {
    field.len() == name.len() && forall|i: int|
        0 <= i < field.len() ==> {
            ||| (0x41 <= #[trigger] field[i] <= 0x5A && field[i] + 32 == name[i])
            ||| (!(0x41 <= field[i] <= 0x5A) && field[i] == name[i])
        }
}

/// Whether a field is the compact form of a name, whatever its letter case.
pub open spec fn compact_letter(field: Seq<u8>, compact: Option<u8>) -> bool {
    compact matches Some(c) && same_letters(field, seq![c])
}

/// A line and its end.
pub open spec fn ended(line: Seq<u8>) -> Seq<u8> {
    line + seq![0x0Du8, 0x0A]
}

/// The line end behind a line is where the line ends.
proof fn line_ends(line: Seq<u8>, rest: Seq<u8>)
    requires
        one_line(line),
    ensures
        crlf_at(ended(line) + rest) == line.len(),
        line_len(ended(line) + rest) == Some(line.len()),
    decreases line.len(),
{
    let s = ended(line) + rest;
    if line.len() > 0 {
        assert(line[0] != 0x0D);
        let t = line.skip(1);
        assert(s.skip(1) =~= ended(t) + rest);
        assert forall|i: int| 0 <= i < t.len() implies #[trigger] t[i] != 0x0D && t[i] != 0x0A by {
            assert(t[i] == line[i + 1]);
        }
        line_ends(t, rest);
        assert(s[0] == line[0]);
    } else {
        assert(s[0] == 0x0D && s[1] == 0x0A);
    }
}

/// A byte that others stand before is found behind them.
proof fn found_behind(a: Seq<u8>, b: u8, rest: Seq<u8>)
    requires
        forall|i: int| 0 <= i < a.len() ==> #[trigger] a[i] != b,
    ensures
        byte_at(a + seq![b] + rest, b) == a.len(),
    decreases a.len(),
{
    let s = a + seq![b] + rest;
    if a.len() > 0 {
        assert(a[0] != b);
        let t = a.skip(1);
        assert(s.skip(1) =~= t + seq![b] + rest);
        assert forall|i: int| 0 <= i < t.len() implies #[trigger] t[i] != b by {
            assert(t[i] == a[i + 1]);
        }
        found_behind(t, b, rest);
        assert(s[0] == a[0]);
    }
}

/// A byte that does not stand in a text is not found in it.
proof fn not_found(a: Seq<u8>, b: u8)
    requires
        forall|i: int| 0 <= i < a.len() ==> #[trigger] a[i] != b,
    ensures
        byte_at(a, b) == a.len(),
    decreases a.len(),
{
    if a.len() > 0 {
        assert(a[0] != b);
        let t = a.skip(1);
        assert forall|i: int| 0 <= i < t.len() implies #[trigger] t[i] != b by {
            assert(t[i] == a[i + 1]);
        }
        not_found(t, b);
    }
}

/// Blanks in front are trimmed away.
proof fn front_blanks_go(pad: Seq<u8>, s: Seq<u8>)
    requires
        blank(pad),
        s.len() > 0 ==> s[0] > 0x20,
    ensures
        trim_front(pad + s) == s,
    decreases pad.len(),
{
    let all = pad + s;
    if pad.len() == 0 {
        assert(all =~= s);
    } else {
        assert(pad[0] == 0x20 || pad[0] == 0x09);
        let t = pad.skip(1);
        assert(all[0] == pad[0]);
        assert(all.skip(1) =~= t + s);
        assert forall|i: int| 0 <= i < t.len() implies #[trigger] t[i] == 0x20 || t[i] == 0x09 by {
            assert(t[i] == pad[i + 1]);
        }
        front_blanks_go(t, s);
    }
}

/// Blanks behind are trimmed away.
proof fn back_blanks_go(s: Seq<u8>, pad: Seq<u8>)
    requires
        blank(pad),
        s.len() > 0 ==> s.last() > 0x20,
    ensures
        trim_back(s + pad) == s,
    decreases pad.len(),
{
    let all = s + pad;
    if pad.len() == 0 {
        assert(all =~= s);
    } else {
        assert(pad.last() == 0x20 || pad.last() == 0x09) by {
            assert(pad[pad.len() - 1] == pad.last());
        }
        let t = pad.drop_last();
        assert(all.last() == pad.last());
        assert(all.drop_last() =~= s + t);
        assert forall|i: int| 0 <= i < t.len() implies #[trigger] t[i] == 0x20 || t[i] == 0x09 by {
            assert(t[i] == pad[i]);
        }
        back_blanks_go(s, t);
    }
}

/// Blanks around bytes are trimmed away.
proof fn blanks_go(before: Seq<u8>, s: Seq<u8>, after: Seq<u8>)
    requires
        blank(before),
        blank(after),
        solid(s),
    ensures
        trimmed(before + s + after) == s,
{
    assert(before + s + after =~= before + (s + after));
    front_blanks_go(before, s + after);
    back_blanks_go(s, after);
}

/// Nothing but blanks is trimmed to nothing.
proof fn only_blanks_go(pad: Seq<u8>)
    requires
        blank(pad),
    ensures
        trimmed(pad).len() == 0,
{
    front_blanks_go(pad, seq![]);
    assert(pad + seq![] =~= pad);
}

/// Being a name whatever the letter case is being it once lowered.
proof fn letters_are_names(field: Seq<u8>, name: Seq<u8>)
    ensures
        same_letters(field, name) <==> names(field, name),
{
    if field.len() == name.len() {
        if names(field, name) {
            assert forall|i: int| 0 <= i < field.len() implies {
                ||| (0x41 <= #[trigger] field[i] <= 0x5A && field[i] + 32 == name[i])
                ||| (!(0x41 <= field[i] <= 0x5A) && field[i] == name[i])
            } by {
                assert(crate::pipeline::quote::lower(field[i]) == name[i]);
            }
        }
    }
}

/// A header is read from its own line: the value is what stands behind the
/// colon without the blanks around it, whatever the letter case of the name or
/// of its compact form, and whatever follows the line. A value of nothing but
/// blanks is none.
pub proof fn a_header_is_read_from_its_line(
    field: Seq<u8>,
    gap: Seq<u8>,
    before: Seq<u8>,
    value: Seq<u8>,
    after: Seq<u8>,
    rest: Seq<u8>,
    quote: &[u8],
    name: &[u8],
    compact: Option<u8>,
    r: Option<String>,
)
    requires
        call_ensures(quoted_header, (quote, name, compact), r),
        quote@ == ended(field + gap + seq![0x3Au8] + before + value + after) + rest,
        solid(field) && one_line(field) && no_colon(field),
        same_letters(field, name@) || compact_letter(field, compact),
        blank(gap) && blank(before) && blank(after),
        value.len() == 0 || (solid(value) && one_line(value) && valid_utf8(value)),
    ensures
        value.len() == 0 ==> r is None,
        value.len() > 0 ==> (r matches Some(text) && text@ == decode_utf8(value)),
{
    let line = field + gap + seq![0x3Au8] + before + value + after;
    let behind = before + value + after;
    assert(line =~= (field + gap) + seq![0x3Au8] + behind);
    assert forall|i: int| 0 <= i < line.len() implies #[trigger] line[i] != 0x0D && line[i]
        != 0x0A by {
        let n = field.len();
        let g = n + gap.len();
        let b = g + 1 + before.len();
        let v = b + value.len();
        if i < n {
            assert(line[i] == field[i]);
        } else if i < g {
            assert(line[i] == gap[i - n]);
        } else if i == g {
        } else if i < b {
            assert(line[i] == before[i - g - 1]);
        } else if i < v {
            assert(line[i] == value[i - b]);
        } else {
            assert(line[i] == after[i - v]);
        }
    }
    line_ends(line, rest);
    assert(quote@.take(line.len() as int) =~= line);
    let named = field + gap;
    assert forall|i: int| 0 <= i < named.len() implies #[trigger] named[i] != 0x3A by {
        if i < field.len() {
            assert(named[i] == field[i]);
        } else {
            assert(named[i] == gap[i - field.len()]);
        }
    }
    found_behind(named, 0x3A, behind);
    assert(line.take(named.len() as int) =~= named);
    assert(line.skip(named.len() as int + 1) =~= behind);
    assert(Seq::<u8>::empty() + field + gap =~= named);
    blanks_go(seq![], field, gap);
    letters_are_names(field, name@);
    if compact is Some {
        letters_are_names(field, seq![compact->0]);
    }
    assert(names_header(field, name@, compact));
    if value.len() > 0 {
        blanks_go(before, value, after);
    } else {
        assert(behind =~= before + after);
        assert forall|i: int| 0 <= i < behind.len() implies #[trigger] behind[i] == 0x20
            || behind[i] == 0x09 by {
            if i < before.len() {
                assert(behind[i] == before[i]);
            } else {
                assert(behind[i] == after[i - before.len()]);
            }
        }
        only_blanks_go(behind);
    }
}

/// A line that is not the header's is passed over: what is read is what would
/// be read of the lines behind it. An empty line ends the headers.
pub proof fn another_line_is_passed_over(
    line: Seq<u8>,
    field: Seq<u8>,
    behind: Seq<u8>,
    rest: &[u8],
    quote: &[u8],
    name: &[u8],
    compact: Option<u8>,
    r: Option<String>,
    q: Option<String>,
)
    requires
        call_ensures(quoted_header, (quote, name, compact), r),
        call_ensures(quoted_header, (rest, name, compact), q),
        quote@ == ended(line) + rest@,
        one_line(line),
        line.len() == 0 || no_colon(line) || (line == field + seq![0x3Au8] + behind && solid(field)
            && no_colon(field) && !same_letters(field, name@) && !compact_letter(field, compact)),
    ensures
        line.len() == 0 ==> r is None,
        line.len() > 0 ==> agree(r, q),
{
    line_ends(line, rest@);
    let n = line.len() as int;
    assert(quote@.take(n) =~= line);
    if n > 0 {
        if no_colon(line) {
            not_found(line, 0x3A);
        } else {
            found_behind(field, 0x3A, behind);
            assert(line.take(field.len() as int) =~= field);
            assert(seq![] + field + seq![] =~= field);
            blanks_go(seq![], field, seq![]);
            letters_are_names(field, name@);
            if compact is Some {
                letters_are_names(field, seq![compact->0]);
            }
            assert(!names_header(field, name@, compact));
        }
        assert(quote@[n] == 0x0D);
        assert(quote@.skip(n + 2) =~= rest@);
        assert(header_value(quote@, name@, compact) == header_value(rest@, name@, compact));
    } else {
        assert(line =~= seq![]);
        not_found(line, 0x3A);
    }
}

/// A header whose line was cut before its end is not claimed, and neither is
/// any header of an empty quote.
pub proof fn a_cut_line_claims_nothing(
    quote: &[u8],
    name: &[u8],
    compact: Option<u8>,
    r: Option<String>,
)
    requires
        call_ensures(quoted_header, (quote, name, compact), r),
        forall|i: int| 0 <= i < quote@.len() ==> #[trigger] quote@[i] != 0x0A,
    ensures
        r is None,
{
    crlf_bounds(quote@);
    not_found(quote@, 0x0A);
}

/// Whether bytes begin with a SIP, SIPS or telephone scheme.
pub open spec fn names_a_sip_uri(s: Seq<u8>) -> bool {
    ||| s.len() >= 4 && s[0] == 0x73 && s[1] == 0x69 && s[2] == 0x70 && s[3] == 0x3A
    ||| s.len() >= 5 && s[0] == 0x73 && s[1] == 0x69 && s[2] == 0x70 && s[3] == 0x73 && s[4] == 0x3A
    ||| s.len() >= 4 && s[0] == 0x74 && s[1] == 0x65 && s[2] == 0x6C && s[3] == 0x3A
}

/// Beginning with a scheme, byte by byte.
proof fn schemes_are(s: Seq<u8>)
    ensures
        names_a_sip_uri(s) <==> begins(s, sip_scheme()) || begins(s, sips_scheme()) || begins(
            s,
            tel_scheme(),
        ),
{
    same_start(s, sip_scheme());
    same_start(s, sips_scheme());
    same_start(s, tel_scheme());
    assert(sip_scheme().len() == 4 && sips_scheme().len() == 5 && tel_scheme().len() == 4);
    assert(sip_scheme()[0] == 0x73 && sip_scheme()[1] == 0x69 && sip_scheme()[2] == 0x70
        && sip_scheme()[3] == 0x3A);
    assert(sips_scheme()[0] == 0x73 && sips_scheme()[1] == 0x69 && sips_scheme()[2] == 0x70
        && sips_scheme()[3] == 0x73 && sips_scheme()[4] == 0x3A);
    assert(tel_scheme()[0] == 0x74 && tel_scheme()[1] == 0x65 && tel_scheme()[2] == 0x6C
        && tel_scheme()[3] == 0x3A);
}

/// Beginning with others is having them at the front.
proof fn same_start(s: Seq<u8>, start: Seq<u8>)
    ensures
        begins(s, start) <==> s.len() >= start.len() && forall|i: int|
            0 <= i < start.len() ==> s[i] == #[trigger] start[i],
{
    if s.len() >= start.len() {
        let head = s.take(start.len() as int);
        if forall|i: int| 0 <= i < start.len() ==> s[i] == #[trigger] start[i] {
            assert(head =~= start);
        }
        if head == start {
            assert forall|i: int| 0 <= i < start.len() implies s[i] == #[trigger] start[i] by {
                assert(head[i] == s[i]);
            }
        }
    }
}

/// A quote begins a request exactly where upper-case letters, a space and a
/// SIP, SIPS or telephone URI stand at its front, however much follows. The
/// method is those letters; the `Call-ID`, in its long or compact form, and the
/// `CSeq` are the headers of those names.
pub proof fn a_request_is_its_method_and_its_uri(
    method: Seq<u8>,
    uri: Seq<u8>,
    tail: Seq<u8>,
    quote: &[u8],
    call_id: &[u8],
    cseq: &[u8],
    r: Option<QuotedSipPrefix>,
    named: Option<String>,
    counted: Option<String>,
)
    requires
        call_ensures(quoted_sip_prefix, (quote,), r),
        call_ensures(quoted_header, (quote, call_id, Some(0x69u8)), named),
        call_ensures(quoted_header, (quote, cseq, None), counted),
        call_id@ == seq![0x63u8, 0x61, 0x6C, 0x6C, 0x2D, 0x69, 0x64],
        cseq@ == seq![0x63u8, 0x73, 0x65, 0x71],
        quote@ == method + seq![0x20u8] + uri + tail,
        one_line(method) && one_line(uri),
        forall|i: int| 0 <= i < method.len() ==> #[trigger] method[i] != 0x20,
        forall|i: int| 0 <= i < uri.len() ==> #[trigger] uri[i] != 0x20,
        tail.len() == 0 || tail[0] == 0x20 || (tail.len() > 1 && tail[0] == 0x0D && tail[1] == 0x0A),
    ensures
        r is Some <==> method.len() > 0 && (forall|i: int|
            0 <= i < method.len() ==> 0x41 <= #[trigger] method[i] <= 0x5A) && names_a_sip_uri(uri),
        r matches Some(q) ==> {
            &&& q.method@.len() == method.len()
            &&& forall|i: int| 0 <= i < method.len() ==> #[trigger] q.method@[i] == method[i] as char
            &&& agree(q.call_id, named)
            &&& agree(q.cseq, counted)
        },
{
    let s = quote@;
    let m = method.len() as int;
    let u = uri.len() as int;
    let head = method + seq![0x20u8] + uri;
    assert(s =~= head + tail);
    assert forall|i: int| 0 <= i < head.len() implies #[trigger] head[i] != 0x0D && head[i]
        != 0x0A by {
        if i < m {
            assert(head[i] == method[i]);
        } else if i > m {
            assert(head[i] == uri[i - m - 1]);
        }
    }
    assert forall|i: int| 0 <= i < head.len() implies #[trigger] s[i] != 0x0D by {
        assert(s[i] == head[i]);
    }
    crlf_not_before(s, head.len() as int);
    crlf_bounds(s);
    let end = crlf_at(s) as int;
    let line = s.take(end);
    if tail.len() > 1 && tail[0] == 0x0D && tail[1] == 0x0A {
        line_ends(head, tail.skip(2));
        assert(s =~= ended(head) + tail.skip(2));
        assert(end == head.len());
    }
    assert(line =~= method + seq![0x20u8] + line.skip(m + 1));
    found_behind(method, 0x20, line.skip(m + 1));
    assert(quoted_method(s) =~= method);
    let after = line.skip(m + 1);
    if tail.len() > 0 && tail[0] == 0x20 {
        assert(after =~= uri + seq![0x20u8] + after.skip(u + 1));
        found_behind(uri, 0x20, after.skip(u + 1));
    } else {
        assert(after =~= uri);
        not_found(uri, 0x20);
    }
    assert(quoted_uri(s) =~= uri);
    schemes_are(uri);
    assert(call_id@ =~= call_id_name());
    assert(cseq@ =~= cseq_name());
}

/// A quote whose first line holds no space begins no request.
pub proof fn a_request_has_a_uri(quote: &[u8], r: Option<QuotedSipPrefix>)
    requires
        call_ensures(quoted_sip_prefix, (quote,), r),
        forall|i: int| 0 <= i < crlf_at(quote@) ==> #[trigger] quote@[i] != 0x20,
    ensures
        r is None,
{
    crlf_bounds(quote@);
    let line = quote@.take(crlf_at(quote@) as int);
    assert forall|i: int| 0 <= i < line.len() implies #[trigger] line[i] != 0x20 by {
        assert(line[i] == quote@[i]);
    }
    not_found(line, 0x20);
}

} // verus!
