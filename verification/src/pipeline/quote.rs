//! What the part of a datagram quoted inside an ICMP error reveals.
//!
//! A quote is a prefix: no more of a datagram is guaranteed than its IP header
//! and eight bytes. What is there is read and the rest is not guessed at: a
//! header whose line was cut before its end is not claimed, and a payload too
//! short to tell is called unread rather than anything else.
use crate::words::is_ascii_space;
use vstd::prelude::*;
use vstd::utf8::*;

verus! {

/// The text that `String::from_utf8_lossy` makes of bytes.
pub uninterp spec fn lossy_text(bytes: Seq<u8>) -> Seq<char>;

/// The text of bytes: what they encode, where they are well-formed UTF-8, and
/// what stands in for it where they are not.
pub open spec fn shown_text(bytes: Seq<u8>) -> Seq<char> {
    if valid_utf8(bytes) {
        decode_utf8(bytes)
    } else {
        lossy_text(bytes)
    }
}

/// `String::from_utf8_lossy`: the text of well-formed UTF-8 unchanged. What is
/// put in place of malformed parts depends on the bytes alone and is left to
/// the name.
#[verifier::external_body]
pub(crate) fn text_lossy(bytes: &[u8]) -> (r: String)
    ensures
        r@ == lossy_text(bytes@),
        valid_utf8(bytes@) ==> r@ == decode_utf8(bytes@),
{
    String::from_utf8_lossy(bytes).into_owned()
}

/// A SIP request start line and the headers an ICMP quote reached. It is not a
/// message and cannot be mistaken for one.
#[derive(Debug, Clone, PartialEq, Eq)]
pub struct QuotedSipPrefix {
    /// The request method from the start line.
    pub method: String,
    /// `Call-ID`, when the quote reached that header and its end.
    pub call_id: Option<String>,
    /// `CSeq` header value, when quoted to its end.
    pub cseq: Option<String>,
}

/// Where a carriage return and line feed first stand; the length where they
/// do not.
pub open spec fn crlf_at(s: Seq<u8>) -> nat
    decreases s.len(),
{
    if s.len() < 2 {
        s.len()
    } else if s[0] == 0x0D && s[1] == 0x0A {
        0
    } else {
        1 + crlf_at(s.skip(1))
    }
}

/// Where a byte first stands; the length where it does not.
pub open spec fn byte_at(s: Seq<u8>, b: u8) -> nat
    decreases s.len(),
{
    if s.len() == 0 || s[0] == b {
        0
    } else {
        1 + byte_at(s.skip(1), b)
    }
}

/// What the search for a line end finds.
pub(crate) proof fn crlf_bounds(s: Seq<u8>)
    ensures
        crlf_at(s) <= s.len(),
        crlf_at(s) < s.len() ==> crlf_at(s) + 1 < s.len() && s[crlf_at(s) as int] == 0x0D
            && s[crlf_at(s) as int + 1] == 0x0A,
    decreases s.len(),
{
    if s.len() >= 2 && !(s[0] == 0x0D && s[1] == 0x0A) {
        crlf_bounds(s.skip(1));
    }
}

/// Where a carriage return and line feed first stand, or the length.
fn find_crlf(s: &[u8], from: usize) -> (r: usize)
    requires
        from <= s.len(),
    ensures
        r == crlf_at(s@.skip(from as int)),
        from + r <= s.len(),
{
    let mut i: usize = from;
    while s.len() - i >= 2 && !(s[i] == 0x0D && s[i + 1] == 0x0A)
        invariant
            from <= i <= s.len(),
            crlf_at(s@.skip(from as int)) == i - from + crlf_at(s@.skip(i as int)),
        decreases s.len() - i,
    {
        assert(s@.skip(i as int).skip(1) =~= s@.skip(i + 1));
        i += 1;
    }
    if s.len() - i >= 2 {
        i - from
    } else {
        s.len() - from
    }
}

/// Where a byte first stands in part of a sequence, or the part's length.
fn find_byte(s: &[u8], from: usize, to: usize, b: u8) -> (r: usize)
    requires
        from <= to <= s.len(),
    ensures
        r == byte_at(s@.subrange(from as int, to as int), b),
        from + r <= to,
        from + r < to ==> s@[from + r] == b,
{
    let mut i: usize = from;
    let ghost part = s@.subrange(from as int, to as int);
    assert(part.skip(0) =~= part);
    while i < to && s[i] != b
        invariant
            from <= i <= to <= s.len(),
            part == s@.subrange(from as int, to as int),
            byte_at(part, b) == i - from + byte_at(part.skip(i - from), b),
        decreases to - i,
    {
        assert(part.skip(i - from)[0] == s@[i as int]);
        assert(part.skip(i - from).skip(1) =~= part.skip(i - from + 1));
        i += 1;
    }
    if i < to {
        assert(part.skip(i - from)[0] == s@[i as int]);
    }
    i - from
}

/// ASCII whitespace as a byte.
pub open spec fn is_space_byte(b: u8) -> bool {
    b == 0x20 || b == 0x09 || b == 0x0A || b == 0x0C || b == 0x0D
}

/// Bytes without the ASCII whitespace in front of them.
pub open spec fn trim_front(s: Seq<u8>) -> Seq<u8>
    decreases s.len(),
{
    if s.len() > 0 && is_space_byte(s[0]) {
        trim_front(s.skip(1))
    } else {
        s
    }
}

/// Bytes without the ASCII whitespace behind them.
pub open spec fn trim_back(s: Seq<u8>) -> Seq<u8>
    decreases s.len(),
{
    if s.len() > 0 && is_space_byte(s.last()) {
        trim_back(s.drop_last())
    } else {
        s
    }
}

/// Bytes without the ASCII whitespace around them.
pub open spec fn trimmed(s: Seq<u8>) -> Seq<u8> {
    trim_back(trim_front(s))
}

/// Whether a byte is ASCII whitespace.
fn space_byte(b: u8) -> (r: bool)
    ensures
        r == is_space_byte(b),
{
    b == 0x20 || b == 0x09 || b == 0x0A || b == 0x0C || b == 0x0D
}

/// Part of a sequence without the ASCII whitespace around it.
fn trimmed_part(s: &[u8], from: usize, to: usize) -> (r: Vec<u8>)
    requires
        from <= to <= s.len(),
    ensures
        r@ == trimmed(s@.subrange(from as int, to as int)),
{
    let ghost whole = s@.subrange(from as int, to as int);
    let mut a: usize = from;
    while a < to && space_byte(s[a])
        invariant
            from <= a <= to <= s.len(),
            trim_front(whole) == trim_front(s@.subrange(a as int, to as int)),
        decreases to - a,
    {
        assert(s@.subrange(a as int, to as int).skip(1) =~= s@.subrange(a + 1, to as int));
        a += 1;
    }
    assert(trim_front(whole) == s@.subrange(a as int, to as int));
    let mut b: usize = to;
    while b > a && space_byte(s[b - 1])
        invariant
            from <= a <= b <= to <= s.len(),
            trim_back(s@.subrange(a as int, to as int)) == trim_back(
                s@.subrange(a as int, b as int),
            ),
        decreases b,
    {
        assert(s@.subrange(a as int, b as int).drop_last() =~= s@.subrange(a as int, b - 1));
        b -= 1;
    }
    let mut out: Vec<u8> = Vec::new();
    let mut i: usize = a;
    while i < b
        invariant
            a <= i <= b <= s.len(),
            out@ == s@.subrange(a as int, i as int),
        decreases b - i,
    {
        out.push(s[i]);
        i += 1;
        assert(s@.subrange(a as int, i as int) =~= s@.subrange(a as int, i - 1).push(s@[i - 1]));
    }
    out
}

/// A byte with ASCII upper case lowered.
pub open spec fn lower(b: u8) -> u8 {
    if 0x41 <= b <= 0x5A {
        (b + 32) as u8
    } else {
        b
    }
}

/// Whether a field name is a header's, letter case aside. `name` is in lower
/// case.
pub open spec fn names(field: Seq<u8>, name: Seq<u8>) -> bool {
    field.len() == name.len() && forall|i: int|
        0 <= i < field.len() ==> lower(#[trigger] field[i]) == name[i]
}

/// Whether a field name is a header's long name or its compact form.
pub open spec fn names_header(field: Seq<u8>, name: Seq<u8>, compact: Option<u8>) -> bool {
    names(field, name) || (compact matches Some(c) && field.len() == 1 && lower(field[0]) == c)
}

/// Length of the first line of what is left, without its end: up to a carriage
/// return and line feed, or up to a bare line feed where there is none.
/// `None` where the quote stops before either.
pub open spec fn line_len(rest: Seq<u8>) -> Option<nat> {
    if crlf_at(rest) < rest.len() {
        Some(crlf_at(rest))
    } else if byte_at(rest, 0x0A) < rest.len() {
        Some(byte_at(rest, 0x0A))
    } else {
        None
    }
}

/// The value of the first header of this name in what is left of a quote, and
/// `None` where the headers end, the quote stops before the header's line end,
/// or the value is empty.
pub open spec fn header_value(rest: Seq<u8>, name: Seq<u8>, compact: Option<u8>) -> Option<Seq<u8>>
    decreases rest.len(),
{
    match line_len(rest) {
        None => None,
        Some(n) => {
            let line = rest.take(n as int);
            let colon = byte_at(line, 0x3A) as int;
            if colon < line.len() && names_header(trimmed(line.take(colon)), name, compact) {
                let value = trimmed(line.skip(colon + 1));
                if value.len() == 0 {
                    None
                } else {
                    Some(value)
                }
            } else if n == 0 {
                None
            } else {
                let past = n + if rest[n as int] == 0x0D {
                    2int
                } else {
                    1int
                };
                if 0 < past <= rest.len() {
                    header_value(rest.skip(past), name, compact)
                } else {
                    None
                }
            }
        },
    }
}

/// Whether a field name is the given one, letter case aside.
fn same_name(field: &[u8], name: &[u8]) -> (r: bool)
    ensures
        r == names(field@, name@),
{
    if field.len() != name.len() {
        return false;
    }
    let mut i: usize = 0;
    while i < field.len()
        invariant
            i <= field.len(),
            field.len() == name.len(),
            forall|k: int| 0 <= k < i ==> lower(#[trigger] field@[k]) == name@[k],
        decreases field.len() - i,
    {
        if to_lower(field[i]) != name[i] {
            return false;
        }
        i += 1;
    }
    true
}

/// A byte with ASCII upper case lowered.
fn to_lower(b: u8) -> (r: u8)
    ensures
        r == lower(b),
{
    if 0x41 <= b && b <= 0x5A {
        b + 32
    } else {
        b
    }
}

/// The first byte of this value is where it is first.
proof fn byte_at_bounds(s: Seq<u8>, b: u8)
    ensures
        byte_at(s, b) <= s.len(),
        byte_at(s, b) < s.len() ==> s[byte_at(s, b) as int] == b,
    decreases s.len(),
{
    if s.len() > 0 && s[0] != b {
        byte_at_bounds(s.skip(1), b);
    }
}

/// The header of this name that a quote claims, as text.
pub open spec fn claimed_header(
    prefix: Seq<u8>,
    name: Seq<u8>,
    compact: Option<u8>,
) -> Option<Seq<char>> {
    match header_value(prefix, name, compact) {
        Some(value) => Some(shown_text(value)),
        None => None,
    }
}

/// Read one header out of a truncated SIP prefix. A header whose line was cut
/// before its end is not claimed: a shorter, different value would name the
/// wrong dialog.
pub fn quoted_header(prefix: &[u8], name: &[u8], compact: Option<u8>) -> (r: Option<String>)
    ensures
        match claimed_header(prefix@, name@, compact) {
            Some(text) => r is Some && r->0@ == text,
            None => r is None,
        },
{
    let mut at: usize = 0;
    assert(prefix@.skip(0) =~= prefix@);
    while at < prefix.len()
        invariant
            at <= prefix.len(),
            header_value(prefix@, name@, compact) == header_value(
                prefix@.skip(at as int),
                name@,
                compact,
            ),
        decreases prefix.len() - at,
    {
        let ghost rest = prefix@.skip(at as int);
        proof {
            crlf_bounds(rest);
            byte_at_bounds(rest, 0x0A);
        }
        let left: usize = prefix.len() - at;
        let mut n: usize = find_crlf(prefix, at);
        if n == left {
            n = find_byte(prefix, at, prefix.len(), 0x0A);
            assert(prefix@.subrange(at as int, prefix@.len() as int) =~= rest);
            if n == left {
                return None;
            }
        }
        assert(line_len(rest) == Some(n as nat));
        let ghost line = rest.take(n as int);
        assert(line =~= prefix@.subrange(at as int, at + n));
        let colon: usize = find_byte(prefix, at, at + n, 0x3A);
        if colon < n {
            let field = trimmed_part(prefix, at, at + colon);
            assert(prefix@.subrange(at as int, at + colon) =~= line.take(colon as int));
            let short: bool = match compact {
                Some(c) => field.len() == 1 && to_lower(field[0]) == c,
                None => false,
            };
            if same_name(&field, name) || short {
                let value = trimmed_part(prefix, at + colon + 1, at + n);
                assert(prefix@.subrange(at + colon + 1, at + n) =~= line.skip(colon + 1));
                if value.len() == 0 {
                    return None;
                }
                return Some(text_lossy(&value));
            }
        }
        if n == 0 {
            return None;
        }
        let past: usize = n + if prefix[at + n] == 0x0D {
            2
        } else {
            1
        };
        assert(rest[n as int] == prefix@[at + n]);
        assert(past <= left);
        assert(rest.skip(past as int) =~= prefix@.skip(at + past));
        at += past;
    }
    assert(prefix@.skip(at as int) =~= Seq::<u8>::empty());
    None
}

/// Whether bytes begin with others.
pub open spec fn begins(s: Seq<u8>, start: Seq<u8>) -> bool {
    s.len() >= start.len() && s.take(start.len() as int) == start
}

/// `sip:`
pub open spec fn sip_scheme() -> Seq<u8> {
    seq![0x73u8, 0x69, 0x70, 0x3A]
}

/// `sips:`
pub open spec fn sips_scheme() -> Seq<u8> {
    seq![0x73u8, 0x69, 0x70, 0x73, 0x3A]
}

/// `tel:`
pub open spec fn tel_scheme() -> Seq<u8> {
    seq![0x74u8, 0x65, 0x6C, 0x3A]
}

/// `call-id`
pub open spec fn call_id_name() -> Seq<u8> {
    seq![0x63u8, 0x61, 0x6C, 0x6C, 0x2D, 0x69, 0x64]
}

/// `cseq`
pub open spec fn cseq_name() -> Seq<u8> {
    seq![0x63u8, 0x73, 0x65, 0x71]
}

/// The method of a quote: what stands before the first space of its first
/// line.
pub open spec fn quoted_method(prefix: Seq<u8>) -> Seq<u8> {
    let line = prefix.take(crlf_at(prefix) as int);
    line.take(byte_at(line, 0x20) as int)
}

/// Bytes that are ASCII, as text.
pub open spec fn letters(bytes: Seq<u8>) -> Seq<char> {
    bytes.map_values(|b: u8| b as char)
}

/// ASCII bytes are the encoding of their letters.
proof fn letters_are_read(bytes: Seq<u8>)
    requires
        forall|i: int| 0 <= i < bytes.len() ==> #[trigger] bytes[i] < 0x80,
    ensures
        valid_utf8(bytes),
        decode_utf8(bytes) == letters(bytes),
{
    let chars = letters(bytes);
    assert(is_ascii_chars(chars));
    is_ascii_chars_encode_utf8(chars);
    assert(encode_utf8(chars) =~= bytes);
    encode_utf8_valid_utf8(chars);
    encode_utf8_decode_utf8(chars);
}

/// The request URI of a quote: what stands between the first two spaces of its
/// first line, as far as it was quoted.
pub open spec fn quoted_uri(prefix: Seq<u8>) -> Seq<u8> {
    let line = prefix.take(crlf_at(prefix) as int);
    let space = byte_at(line, 0x20) as int;
    if space < line.len() {
        let rest = line.skip(space + 1);
        rest.take(byte_at(rest, 0x20) as int)
    } else {
        seq![]
    }
}

/// Whether a quote begins a SIP request: a method of upper-case letters and a
/// `sip:`, `sips:` or `tel:` URI.
pub open spec fn quotes_request(prefix: Seq<u8>) -> bool {
    let method = quoted_method(prefix);
    let uri = quoted_uri(prefix);
    &&& method.len() > 0
    &&& forall|i: int| 0 <= i < method.len() ==> 0x41 <= #[trigger] method[i] <= 0x5A
    &&& begins(uri, sip_scheme()) || begins(uri, sips_scheme()) || begins(uri, tel_scheme())
}

/// Whether part of a sequence begins with others.
fn starts_with(s: &[u8], from: usize, to: usize, start: &[u8]) -> (r: bool)
    requires
        from <= to <= s.len(),
    ensures
        r == begins(s@.subrange(from as int, to as int), start@),
{
    let ghost part = s@.subrange(from as int, to as int);
    if to - from < start.len() {
        return false;
    }
    let mut i: usize = 0;
    while i < start.len()
        invariant
            i <= start.len() <= to - from,
            to <= s.len(),
            part == s@.subrange(from as int, to as int),
            forall|k: int| 0 <= k < i ==> part[k] == #[trigger] start@[k],
        decreases start.len() - i,
    {
        assert(part[i as int] == s@[from + i]);
        if s[from + i] != start[i] {
            assert(part.take(start@.len() as int)[i as int] != start@[i as int]);
            return false;
        }
        i += 1;
    }
    assert(part.take(start@.len() as int) =~= start@);
    true
}

/// A copy of part of a byte sequence.
fn part_of(s: &[u8], from: usize, to: usize) -> (r: Vec<u8>)
    requires
        from <= to <= s.len(),
    ensures
        r@ == s@.subrange(from as int, to as int),
{
    let mut out: Vec<u8> = Vec::new();
    let mut i: usize = from;
    while i < to
        invariant
            from <= i <= to <= s.len(),
            out@ == s@.subrange(from as int, i as int),
        decreases to - i,
    {
        out.push(s[i]);
        i += 1;
        assert(s@.subrange(from as int, i as int) =~= s@.subrange(from as int, i - 1).push(
            s@[i - 1],
        ));
    }
    out
}

/// Read what a truncated ICMP quote reveals about the SIP request it holds.
///
/// `None` when the quote does not begin with a SIP request start line: media, a
/// DNS query, or a SIP response.
pub fn quoted_sip_prefix(prefix: &[u8]) -> (r: Option<QuotedSipPrefix>)
    ensures
        r is Some <==> quotes_request(prefix@),
        r matches Some(q) ==> {
            &&& q.method@ == letters(quoted_method(prefix@))
            &&& match claimed_header(prefix@, call_id_name(), Some(0x69u8)) {
                Some(text) => q.call_id is Some && q.call_id->0@ == text,
                None => q.call_id is None,
            }
            &&& match claimed_header(prefix@, cseq_name(), None) {
                Some(text) => q.cseq is Some && q.cseq->0@ == text,
                None => q.cseq is None,
            }
        },
{
    let end: usize = find_crlf(prefix, 0);
    assert(prefix@.skip(0) =~= prefix@);
    let ghost line = prefix@.take(end as int);
    assert(line =~= prefix@.subrange(0, end as int));
    let space: usize = find_byte(prefix, 0, end, 0x20);
    let ghost method = quoted_method(prefix@);
    assert(method =~= prefix@.subrange(0, space as int));
    let mut i: usize = 0;
    let mut upper: bool = space > 0;
    while i < space
        invariant
            i <= space <= end <= prefix.len(),
            method == prefix@.subrange(0, space as int),
            upper == (space > 0 && forall|k: int|
                0 <= k < i ==> 0x41 <= #[trigger] method[k] <= 0x5A),
        decreases space - i,
    {
        assert(method[i as int] == prefix@[i as int]);
        upper = upper && 0x41 <= prefix[i] && prefix[i] <= 0x5A;
        i += 1;
    }
    if !upper {
        return None;
    }
    let from: usize = if space < end {
        space + 1
    } else {
        end
    };
    let to: usize = from + find_byte(prefix, from, end, 0x20);
    proof {
        if space < end {
            assert(line.skip(space + 1) =~= prefix@.subrange(from as int, end as int));
            assert(quoted_uri(prefix@) =~= prefix@.subrange(from as int, to as int));
        } else {
            assert(prefix@.subrange(from as int, to as int) =~= seq![]);
        }
    }
    let sip: [u8; 4] = [0x73, 0x69, 0x70, 0x3A];
    let sips: [u8; 5] = [0x73, 0x69, 0x70, 0x73, 0x3A];
    let tel: [u8; 4] = [0x74, 0x65, 0x6C, 0x3A];
    assert(sip@ =~= sip_scheme());
    assert(sips@ =~= sips_scheme());
    assert(tel@ =~= tel_scheme());
    if !(starts_with(prefix, from, to, &sip) || starts_with(prefix, from, to, &sips)
        || starts_with(prefix, from, to, &tel)) {
        return None;
    }
    let call_id: [u8; 7] = [0x63, 0x61, 0x6C, 0x6C, 0x2D, 0x69, 0x64];
    let cseq: [u8; 4] = [0x63, 0x73, 0x65, 0x71];
    assert(call_id@ =~= call_id_name());
    assert(cseq@ =~= cseq_name());
    proof {
        letters_are_read(method);
    }
    Some(
        QuotedSipPrefix {
            method: text_lossy(&part_of(prefix, 0, space)),
            call_id: quoted_header(prefix, &call_id, Some(0x69)),
            cseq: quoted_header(prefix, &cseq, None),
        },
    )
}

/// What a quoted non-SIP payload turned out to be, read from the quote itself
/// and never inferred from the port.
#[derive(Debug, Clone, Copy, PartialEq, Eq, Structural)]
pub enum QuotedMediaKind {
    /// An RTP header.
    Rtp {
        /// Synchronization source from the RTP header.
        ssrc: u32,
        /// Payload type.
        payload_type: u8,
    },
    /// An RTCP packet.
    Rtcp {
        /// Synchronization source from the report.
        ssrc: u32,
        /// RTCP packet type.
        packet_type: u8,
    },
    /// The quote carried too little payload to tell. The flow may still match
    /// a stream.
    Unread,
    /// Payload was present and is neither RTP nor RTCP.
    NotMedia,
}

impl QuotedMediaKind {
    /// The SSRC this payload named.
    pub open spec fn ssrc_spec(self) -> Option<u32> {
        match self {
            QuotedMediaKind::Rtp { ssrc, .. } => Some(ssrc),
            QuotedMediaKind::Rtcp { ssrc, .. } => Some(ssrc),
            QuotedMediaKind::Unread => None,
            QuotedMediaKind::NotMedia => None,
        }
    }

    /// Whether the payload itself proves that the datagram was media.
    pub open spec fn is_media_spec(self) -> bool {
        self is Rtp || self is Rtcp
    }

    /// The SSRC this payload named, when it named one.
    pub fn ssrc(self) -> (r: Option<u32>)
        ensures
            r == self.ssrc_spec(),
    {
        match self {
            QuotedMediaKind::Rtp { ssrc, .. } => Some(ssrc),
            QuotedMediaKind::Rtcp { ssrc, .. } => Some(ssrc),
            QuotedMediaKind::Unread => None,
            QuotedMediaKind::NotMedia => None,
        }
    }

    /// Whether the payload itself proves that the datagram was media.
    pub fn is_media(self) -> (r: bool)
        ensures
            r == self.is_media_spec(),
    {
        match self {
            QuotedMediaKind::Rtp { .. } => true,
            QuotedMediaKind::Rtcp { .. } => true,
            _ => false,
        }
    }
}

/// Four bytes as one number, most significant first.
pub open spec fn word32(s: Seq<u8>, at: int) -> u32 {
    (s[at] * 0x100_0000 + s[at + 1] * 0x1_0000 + s[at + 2] * 0x100 + s[at + 3]) as u32
}

/// Four bytes as one number, most significant first.
fn read_word32(s: &[u8], at: usize) -> (r: u32)
    requires
        at + 4 <= s.len(),
    ensures
        r == word32(s@, at as int),
{
    s[at] as u32 * 0x100_0000 + s[at + 1] as u32 * 0x1_0000 + s[at + 2] as u32 * 0x100 + s[at
        + 3] as u32
}

/// What a quoted payload is.
///
/// RTCP has version 2, a packet type from 192 to 223, and a length that holds
/// at least its own eight-byte header; a truncated quote may hold less than
/// the length declares. RTP has version 2, a payload type outside 64 to 95,
/// which is kept free so that the two can share a port, twelve bytes of
/// header, and a byte behind the header where it claims padding.
pub open spec fn media_kind(p: Seq<u8>) -> QuotedMediaKind {
    let payload_type = (p[1] % 128) as u8;
    if p.len() == 0 {
        QuotedMediaKind::Unread
    } else if p[0] / 64 != 2 {
        QuotedMediaKind::NotMedia
    } else if p.len() == 1 {
        QuotedMediaKind::Unread
    } else if 192 <= p[1] <= 223 && p.len() >= 8 {
        if (p[2] * 256 + p[3] + 1) * 4 >= 8 {
            QuotedMediaKind::Rtcp { ssrc: word32(p, 4), packet_type: p[1] }
        } else {
            QuotedMediaKind::NotMedia
        }
    } else if 64 <= payload_type <= 95 {
        QuotedMediaKind::NotMedia
    } else if p.len() < 12 {
        QuotedMediaKind::Unread
    } else if p[0] / 32 % 2 == 1 && p.len() == 12 {
        QuotedMediaKind::NotMedia
    } else {
        QuotedMediaKind::Rtp { ssrc: word32(p, 8), payload_type }
    }
}

/// Read a quoted non-SIP UDP payload as RTP or RTCP. The answer only labels a
/// quote: it never creates a stream.
pub fn quoted_media_kind(payload: &[u8]) -> (r: QuotedMediaKind)
    ensures
        r == media_kind(payload@),
{
    if payload.len() == 0 {
        return QuotedMediaKind::Unread;
    }
    let first: u8 = payload[0];
    if first / 64 != 2 {
        return QuotedMediaKind::NotMedia;
    }
    if payload.len() == 1 {
        return QuotedMediaKind::Unread;
    }
    let second: u8 = payload[1];
    if 192 <= second && second <= 223 && payload.len() >= 8 {
        let declared: u32 = (payload[2] as u32 * 256 + payload[3] as u32 + 1) * 4;
        if declared >= 8 {
            return QuotedMediaKind::Rtcp { ssrc: read_word32(payload, 4), packet_type: second };
        }
        return QuotedMediaKind::NotMedia;
    }
    let payload_type: u8 = second % 128;
    if 64 <= payload_type && payload_type <= 95 {
        return QuotedMediaKind::NotMedia;
    }
    if payload.len() < 12 {
        return QuotedMediaKind::Unread;
    }
    if first / 32 % 2 == 1 && payload.len() == 12 {
        return QuotedMediaKind::NotMedia;
    }
    QuotedMediaKind::Rtp { ssrc: read_word32(payload, 8), payload_type }
}

/// Only a payload that proves itself media offers an SSRC, so that no caller
/// matches on one that was not there.
pub proof fn only_media_offers_an_ssrc(p: Seq<u8>)
    ensures
        media_kind(p).ssrc_spec() is Some <==> media_kind(p).is_media_spec(),
{
}

/// A line does not end before bytes that are no carriage return.
pub(crate) proof fn crlf_not_before(s: Seq<u8>, n: int)
    requires
        0 <= n <= s.len(),
        forall|i: int| 0 <= i < n ==> #[trigger] s[i] != 0x0D,
    ensures
        crlf_at(s) >= n,
    decreases n,
{
    if n > 0 && s.len() >= 2 {
        assert(s[0] != 0x0D);
        let t = s.skip(1);
        assert forall|i: int| 0 <= i < n - 1 implies #[trigger] t[i] != 0x0D by {
            assert(t[i] == s[i + 1]);
        }
        crlf_not_before(t, n - 1);
    }
}

/// A byte does not first stand where other bytes stand.
proof fn byte_not_before(s: Seq<u8>, b: u8, n: int)
    requires
        0 <= n <= s.len(),
        forall|i: int| 0 <= i < n ==> #[trigger] s[i] != b,
    ensures
        byte_at(s, b) >= n,
    decreases n,
{
    if n > 0 {
        assert(s[0] != b);
        let t = s.skip(1);
        assert forall|i: int| 0 <= i < n - 1 implies #[trigger] t[i] != b by {
            assert(t[i] == s[i + 1]);
        }
        byte_not_before(t, b, n - 1);
    }
}

/// A SIP response is never read as a request that failed.
pub proof fn a_response_is_not_quoted_as_a_request(rest: Seq<u8>)
    ensures
        !quotes_request(seq![0x53u8, 0x49, 0x50, 0x2F, 0x32, 0x2E, 0x30, 0x20] + rest),
{
    let s = seq![0x53u8, 0x49, 0x50, 0x2F, 0x32, 0x2E, 0x30, 0x20] + rest;
    crlf_bounds(s);
    crlf_not_before(s, 8);
    let line = s.take(crlf_at(s) as int);
    byte_at_bounds(line, 0x20);
    byte_not_before(line, 0x20, 7);
    assert(quoted_method(s)[3] == 0x2F);
}

/// A line that ends in a prefix ends at the same place in the whole.
proof fn crlf_extends(p: Seq<u8>, q: Seq<u8>)
    requires
        crlf_at(p) < p.len(),
    ensures
        crlf_at(p + q) == crlf_at(p),
    decreases p.len(),
{
    if p.len() >= 2 && !(p[0] == 0x0D && p[1] == 0x0A) {
        assert((p + q).skip(1) =~= p.skip(1) + q);
        crlf_extends(p.skip(1), q);
    }
}

/// A line feed that stands behind a carriage return ends a line.
proof fn crlf_found(p: Seq<u8>, i: int)
    requires
        0 < i < p.len(),
        p[i] == 0x0A,
        p[i - 1] == 0x0D,
    ensures
        crlf_at(p) < p.len(),
    decreases p.len(),
{
    if !(p[0] == 0x0D && p[1] == 0x0A) {
        crlf_found(p.skip(1), i - 1);
    }
}

/// Whether every line feed stands behind a carriage return, as SIP has it.
pub open spec fn lines_end_properly(p: Seq<u8>) -> bool {
    forall|i: int| 0 <= i < p.len() && #[trigger] p[i] == 0x0A ==> i > 0 && p[i - 1] == 0x0D
}

/// A header value that a quote holds whole is the same in a longer quote.
proof fn a_whole_value_stays(
    quote: Seq<u8>,
    cut: Seq<u8>,
    name: Seq<u8>,
    compact: Option<u8>,
)
    requires
        lines_end_properly(quote),
        header_value(quote, name, compact) is Some,
    ensures
        header_value(quote + cut, name, compact) == header_value(quote, name, compact),
    decreases quote.len(),
{
    let n = line_len(quote)->0 as int;
    let whole = quote + cut;
    crlf_bounds(quote);
    byte_at_bounds(quote, 0x0A);
    if crlf_at(quote) == quote.len() {
        crlf_found(quote, byte_at(quote, 0x0A) as int);
    }
    crlf_extends(quote, cut);
    assert(line_len(whole) == Some(n as nat));
    assert(whole.take(n) =~= quote.take(n));
    let line = quote.take(n);
    let colon = byte_at(line, 0x3A) as int;
    if !(colon < line.len() && names_header(trimmed(line.take(colon)), name, compact)) {
        assert(n > 0);
        assert(quote[n] == 0x0D);
        assert(whole[n] == 0x0D);
        let rest = quote.skip(n + 2);
        assert(whole.skip(n + 2) =~= rest + cut);
        assert forall|i: int| 0 <= i < rest.len() && #[trigger] rest[i] == 0x0A implies i > 0
            && rest[i - 1] == 0x0D by {
            assert(quote[i + n + 2] == 0x0A);
            assert(quote[i + n + 1] == 0x0D);
            if i == 0 {
                assert(quote[n + 1] == 0x0A);
            } else {
                assert(rest[i - 1] == quote[i + n + 1]);
            }
        }
        a_whole_value_stays(rest, cut, name, compact);
    }
}

/// What is left once the whitespace around it is gone begins and ends with
/// none.
proof fn nothing_left_to_trim(s: Seq<u8>)
    ensures
        trimmed(s).len() > 0 ==> !is_space_byte(trimmed(s)[0]) && !is_space_byte(trimmed(s).last()),
{
    front_is_trimmed(s);
    back_is_trimmed(trim_front(s));
}

/// Trimming in front leaves no whitespace there.
proof fn front_is_trimmed(s: Seq<u8>)
    ensures
        trim_front(s).len() > 0 ==> !is_space_byte(trim_front(s)[0]),
    decreases s.len(),
{
    if s.len() > 0 && is_space_byte(s[0]) {
        front_is_trimmed(s.skip(1));
    }
}

/// Trimming behind leaves no whitespace there, and what is in front.
proof fn back_is_trimmed(s: Seq<u8>)
    ensures
        trim_back(s).len() > 0 ==> !is_space_byte(trim_back(s).last()) && trim_back(s)[0] == s[0],
    decreases s.len(),
{
    if s.len() > 0 && is_space_byte(s.last()) {
        back_is_trimmed(s.drop_last());
    }
}

/// A header value is never empty, and has no whitespace around it.
proof fn a_value_is_trimmed(quote: Seq<u8>, name: Seq<u8>, compact: Option<u8>)
    requires
        header_value(quote, name, compact) is Some,
    ensures
        ({
            let value = header_value(quote, name, compact)->0;
            &&& value.len() > 0
            &&& !is_space_byte(value[0])
            &&& !is_space_byte(value.last())
        }),
    decreases quote.len(),
{
    let n = line_len(quote)->0 as int;
    let line = quote.take(n);
    let colon = byte_at(line, 0x3A) as int;
    if colon < line.len() && names_header(trimmed(line.take(colon)), name, compact) {
        nothing_left_to_trim(line.skip(colon + 1));
    } else {
        let past = n + if quote[n] == 0x0D {
            2int
        } else {
            1int
        };
        a_value_is_trimmed(quote.skip(past), name, compact);
    }
}

/// The encoding of a text that ends in an ASCII character ends in it.
proof fn encoding_ends_alike(text: Seq<char>)
    requires
        text.len() > 0,
        text.last() as u32 <= 0x7F,
    ensures
        encode_utf8(text).len() > 0,
        encode_utf8(text).last() == text.last() as u32,
    decreases text.len(),
{
    if text.len() == 1 {
        let v = text[0] as u32;
        assert(text.last() == text[0]);
        assert((v & 0x7F) as u8 == v) by (bit_vector)
            requires
                v <= 0x7F,
        ;
        assert(encode_utf8(text.drop_first()) =~= seq![]);
        assert(encode_utf8(text) =~= encode_scalar(v));
    } else {
        let rest = text.drop_first();
        assert(rest.last() == text.last());
        encoding_ends_alike(rest);
        let head = encode_scalar(text[0] as u32);
        assert(encode_utf8(text) == head + encode_utf8(rest));
        assert((head + encode_utf8(rest)).last() == encode_utf8(rest).last());
    }
}

/// Text whose encoding begins and ends with no whitespace does so too.
proof fn trimmed_bytes_are_trimmed_text(bytes: Seq<u8>)
    requires
        valid_utf8(bytes),
        bytes.len() > 0,
        !is_space_byte(bytes[0]),
        !is_space_byte(bytes.last()),
    ensures
        decode_utf8(bytes).len() > 0,
        !is_ascii_space(decode_utf8(bytes)[0]),
        !is_ascii_space(decode_utf8(bytes).last()),
{
    let text = decode_utf8(bytes);
    decode_utf8_encode_utf8(bytes);
    assert(encode_utf8(text) == bytes);
    let v = text[0] as u32;
    if is_ascii_space(text[0]) {
        assert((v & 0x7F) as u8 == v) by (bit_vector)
            requires
                v <= 0x7F,
        ;
        assert(bytes[0] == encode_scalar(v)[0]);
    }
    if is_ascii_space(text.last()) {
        encoding_ends_alike(text);
    }
}

/// A quote never claims a header that the whole message does not have: whatever
/// followed the part that was quoted, the header reads the same in the message.
/// So a value that was cut before its line's end is never claimed.
pub proof fn a_longer_quote_changes_no_claimed_header(
    quote: Seq<u8>,
    cut: Seq<u8>,
    name: Seq<u8>,
    compact: Option<u8>,
)
    requires
        lines_end_properly(quote),
        claimed_header(quote, name, compact) is Some,
    ensures
        claimed_header(quote + cut, name, compact) == claimed_header(quote, name, compact),
{
    a_whole_value_stays(quote, cut, name, compact);
}

/// A claimed header comes of a value that is not empty and has no whitespace
/// around it; where the value is well-formed UTF-8, so has the text.
pub proof fn a_claimed_header_is_trimmed(quote: Seq<u8>, name: Seq<u8>, compact: Option<u8>)
    requires
        claimed_header(quote, name, compact) is Some,
    ensures
        ({
            let value = header_value(quote, name, compact)->0;
            let text = claimed_header(quote, name, compact)->0;
            &&& value.len() > 0
            &&& !is_space_byte(value[0])
            &&& !is_space_byte(value.last())
            &&& valid_utf8(value) ==> text.len() > 0 && !is_ascii_space(text[0])
                && !is_ascii_space(text.last())
        }),
{
    a_value_is_trimmed(quote, name, compact);
    let value = header_value(quote, name, compact)->0;
    if valid_utf8(value) {
        trimmed_bytes_are_trimmed_text(value);
    }
}

} // verus!
