//! Text building and reading: decimal and hexadecimal numbers, character
//! vectors, UTF-8.
use vstd::prelude::*;
use vstd::string::*;
use vstd::utf8::*;

verus! {

/// `String::push`: the character goes to the end of the text.
pub assume_specification[ String::push ](s: &mut String, c: char)
    ensures
        final(s)@ == old(s)@.push(c),
;

/// `str::from_utf8`: the text whose UTF-8 encoding is `bytes`, and `None` on
/// exactly the byte strings that are not well-formed UTF-8.
#[verifier::external_body]
pub(crate) fn utf8_text(bytes: &[u8]) -> (r: Option<&str>)
    ensures
        r is Some <==> valid_utf8(bytes@),
        r matches Some(s) ==> s.spec_bytes() == bytes@ && s@ == decode_utf8(bytes@),
{
    core::str::from_utf8(bytes).ok()
}

/// The characters of a text, in order.
pub fn chars_of(s: &str) -> (r: Vec<char>)
    ensures
        r@ == s@,
{
    broadcast use group_string_axioms;

    let mut out: Vec<char> = Vec::new();
    for c in it: s.chars()
        invariant
            out@ == it.seq().take(it.index@),
            it.seq() == s@,
    {
        out.push(c);
    }
    assert(s@.take(s@.len() as int) =~= s@);
    out
}

/// The text with exactly these characters.
pub fn text_of(chars: &[char]) -> (r: String)
    ensures
        r@ == chars@,
{
    let mut out = String::new();
    let mut i: usize = 0;
    while i < chars.len()
        invariant
            i <= chars.len(),
            out@ == chars@.take(i as int),
        decreases chars.len() - i,
    {
        out.push(chars[i]);
        i += 1;
        assert(chars@.take(i as int) =~= chars@.take(i - 1).push(chars@[i - 1]));
    }
    assert(chars@.take(i as int) =~= chars@);
    out
}

/// Whether two texts hold the same characters.
pub fn same_text(a: &str, b: &str) -> (r: bool)
    ensures
        r == (a@ == b@),
{
    let x = chars_of(a);
    let y = chars_of(b);
    same_chars(&x, &y)
}

/// Whether two character sequences are equal.
pub fn same_chars(a: &[char], b: &[char]) -> (r: bool)
    ensures
        r == (a@ == b@),
{
    if a.len() != b.len() {
        return false;
    }
    let mut i: usize = 0;
    while i < a.len()
        invariant
            i <= a.len(),
            a.len() == b.len(),
            forall|k: int| 0 <= k < i ==> a@[k] == b@[k],
        decreases a.len() - i,
    {
        if a[i] != b[i] {
            return false;
        }
        i += 1;
    }
    assert(a@ =~= b@);
    true
}

/// A copy of part of a character sequence.
pub fn slice_of(a: &[char], from: usize, to: usize) -> (r: Vec<char>)
    requires
        from <= to <= a.len(),
    ensures
        r@ == a@.subrange(from as int, to as int),
{
    let mut out: Vec<char> = Vec::new();
    let mut i: usize = from;
    while i < to
        invariant
            from <= i <= to <= a.len(),
            out@ == a@.subrange(from as int, i as int),
        decreases to - i,
    {
        out.push(a[i]);
        i += 1;
        assert(a@.subrange(from as int, i as int) =~= a@.subrange(from as int, i - 1).push(
            a@[i - 1],
        ));
    }
    out
}

/// The character that writes one decimal digit.
pub open spec fn digit_char(d: nat) -> char {
    (48 + d) as u8 as char
}

/// Whether a character is an ASCII decimal digit.
pub open spec fn is_digit(c: char) -> bool {
    '0' <= c <= '9'
}

/// The number an ASCII decimal digit stands for.
pub open spec fn digit_value(c: char) -> nat {
    (c as u32 - 48) as nat
}

/// A number written in decimal, without leading zeros.
pub open spec fn decimal_text(n: nat) -> Seq<char>
    decreases n,
{
    if n < 10 {
        seq![digit_char(n)]
    } else {
        decimal_text(n / 10).push(digit_char(n % 10))
    }
}

/// Whether every character is a decimal digit.
pub open spec fn all_digits(s: Seq<char>) -> bool {
    forall|i: int| 0 <= i < s.len() ==> is_digit(#[trigger] s[i])
}

/// The number a run of decimal digits stands for.
pub open spec fn decimal_value(s: Seq<char>) -> nat
    decreases s.len(),
{
    if s.len() == 0 {
        0
    } else {
        decimal_value(s.drop_last()) * 10 + digit_value(s.last())
    }
}

/// Writing a number and reading it back gives the number.
pub proof fn decimal_round_trip(n: nat)
    ensures
        decimal_text(n).len() > 0,
        all_digits(decimal_text(n)),
        decimal_value(decimal_text(n)) == n,
    decreases n,
{
    if n < 10 {
        assert(decimal_text(n).drop_last() =~= Seq::<char>::empty());
        assert(decimal_value(decimal_text(n).drop_last()) == 0);
        assert(decimal_text(n).last() == digit_char(n));
        assert(digit_value(digit_char(n)) == n);
    } else {
        decimal_round_trip(n / 10);
        assert(decimal_text(n).drop_last() =~= decimal_text(n / 10));
        assert(decimal_text(n).last() == digit_char(n % 10));
        assert(digit_value(digit_char(n % 10)) == n % 10);
    }
}

/// Dropping digits from the end of a number never makes it larger.
pub proof fn decimal_value_grows(s: Seq<char>, i: int)
    requires
        0 <= i <= s.len(),
    ensures
        decimal_value(s.take(i)) <= decimal_value(s),
    decreases s.len() - i,
{
    if i == s.len() {
        assert(s.take(i) =~= s);
    } else {
        decimal_value_grows(s, i + 1);
        assert(s.take(i + 1).drop_last() =~= s.take(i));
        assert(decimal_value(s.take(i + 1)) >= decimal_value(s.take(i)));
    }
}

/// A number in decimal.
pub fn decimal(n: u64) -> (r: String)
    ensures
        r@ == decimal_text(n as nat),
{
    decimal_wide(n as u128)
}

/// A number in decimal.
pub fn decimal_wide(n: u128) -> (r: String)
    ensures
        r@ == decimal_text(n as nat),
{
    let mut back: Vec<char> = Vec::new();
    let mut rest: u128 = n;
    let ghost whole = decimal_text(n as nat);
    while rest >= 10
        invariant
            whole == decimal_text(n as nat),
            whole =~= decimal_text(rest as nat) + back@.reverse(),
        decreases rest,
    {
        let d: u8 = (rest % 10) as u8;
        let ghost before = back@;
        let ghost r0 = rest as nat;
        back.push((48 + d) as char);
        rest = rest / 10;
        proof {
            assert(back@.reverse() =~= seq![digit_char(r0 % 10)] + before.reverse());
            assert(decimal_text(rest as nat) + back@.reverse() =~= decimal_text(r0)
                + before.reverse());
        }
    }
    let ghost before = back@;
    back.push((48 + rest as u8) as char);
    assert(back@.reverse() =~= seq![digit_char(rest as nat)] + before.reverse());
    reversed_text(&back)
}

/// Whether a text is read as an unsigned number no larger than `max`: at least
/// one digit, nothing but digits after one optional leading `+`.
pub open spec fn reads_unsigned(s: Seq<char>, max: nat) -> bool {
    let d = unsigned_digits(s);
    d.len() > 0 && all_digits(d) && decimal_value(d) <= max
}

/// The digits of an unsigned number's text, its optional leading `+` removed.
pub open spec fn unsigned_digits(s: Seq<char>) -> Seq<char> {
    if s.len() > 0 && s[0] == '+' {
        s.skip(1)
    } else {
        s
    }
}

/// Read an unsigned decimal number that may not exceed `max`.
pub fn parse_unsigned(s: &[char], max: u64) -> (r: Option<u64>)
    ensures
        r is Some <==> reads_unsigned(s@, max as nat),
        r matches Some(v) ==> v == decimal_value(unsigned_digits(s@)) && v <= max,
{
    let start: usize = if s.len() > 0 && s[0] == '+' { 1 } else { 0 };
    let ghost d = unsigned_digits(s@);
    assert(d =~= s@.skip(start as int));
    if s.len() == start {
        return None;
    }
    let mut i: usize = start;
    let mut v: u64 = 0;
    while i < s.len()
        invariant
            start <= i <= s.len(),
            d == s@.skip(start as int),
            d == unsigned_digits(s@),
            forall|k: int| 0 <= k < i - start ==> is_digit(#[trigger] d[k]),
            v == decimal_value(d.take(i - start)),
            v <= max,
        decreases s.len() - i,
    {
        let c: char = s[i];
        assert(c == d[i - start]);
        if c < '0' || c > '9' {
            assert(!all_digits(d));
            return None;
        }
        let x: u64 = (c as u32 - 48) as u64;
        assert(d.take(i - start + 1).drop_last() =~= d.take(i - start));
        assert(decimal_value(d.take(i - start + 1)) == v * 10 + x);
        proof {
            decimal_value_grows(d, i - start + 1);
        }
        if v > max / 10 || x > max - v * 10 {
            return None;
        }
        v = v * 10 + x;
        i += 1;
    }
    assert(d.take(d.len() as int) =~= d);
    Some(v)
}

/// Whether a character sequence is non-empty and holds decimal digits alone.
pub fn only_digits(s: &[char]) -> (r: bool)
    ensures
        r == (s@.len() > 0 && all_digits(s@)),
{
    let mut i: usize = 0;
    while i < s.len()
        invariant
            i <= s.len(),
            forall|k: int| 0 <= k < i ==> is_digit(#[trigger] s@[k]),
        decreases s.len() - i,
    {
        if s[i] < '0' || s[i] > '9' {
            return false;
        }
        i += 1;
    }
    s.len() > 0
}

/// The character that writes one lower-case hexadecimal digit.
pub open spec fn hex_char(d: nat) -> char {
    if d < 10 {
        digit_char(d)
    } else {
        (87 + d) as u8 as char
    }
}

/// A number written in lower-case hexadecimal, without leading zeros.
pub open spec fn hex_text(n: nat) -> Seq<char>
    decreases n,
{
    if n < 16 {
        seq![hex_char(n)]
    } else {
        hex_text(n / 16).push(hex_char(n % 16))
    }
}

/// A number's hexadecimal text is not empty and holds neither a colon nor a
/// hyphen.
pub proof fn hex_text_is_plain(n: nat)
    ensures
        hex_text(n).len() > 0,
        forall|i: int| 0 <= i < hex_text(n).len() ==> #[trigger] hex_text(n)[i] != ':'
            && hex_text(n)[i] != '-',
    decreases n,
{
    if n >= 16 {
        hex_text_is_plain(n / 16);
        assert forall|i: int| 0 <= i < hex_text(n).len() implies #[trigger] hex_text(n)[i] != ':'
            && hex_text(n)[i] != '-' by {
            if i < hex_text(n / 16).len() {
                assert(hex_text(n)[i] == hex_text(n / 16)[i]);
            } else {
                assert(hex_text(n)[i] == hex_char(n % 16));
            }
        }
    }
}

/// The characters in reverse, as text.
fn reversed_text(back: &[char]) -> (r: String)
    ensures
        r@ == back@.reverse(),
{
    let mut out = String::new();
    let mut i: usize = back.len();
    while i > 0
        invariant
            i <= back.len(),
            out@ == back@.reverse().take(back.len() - i),
        decreases i,
    {
        i -= 1;
        out.push(back[i]);
        assert(back@.reverse().take(back.len() - i) =~= back@.reverse().take(
            back.len() - i - 1,
        ).push(back@[i as int]));
    }
    assert(back@.reverse().take(back.len() as int) =~= back@.reverse());
    out
}

/// The character of one hexadecimal digit.
fn hex_digit(d: u8) -> (c: char)
    requires
        d < 16,
    ensures
        c == hex_char(d as nat),
{
    if d < 10 {
        (48 + d) as char
    } else {
        (87 + d) as char
    }
}

/// A number in lower-case hexadecimal.
pub fn hexadecimal(n: u64) -> (r: String)
    ensures
        r@ == hex_text(n as nat),
{
    let mut back: Vec<char> = Vec::new();
    let mut rest: u64 = n;
    let ghost whole = hex_text(n as nat);
    while rest >= 16
        invariant
            whole == hex_text(n as nat),
            whole =~= hex_text(rest as nat) + back@.reverse(),
        decreases rest,
    {
        let ghost before = back@;
        let ghost r0 = rest as nat;
        back.push(hex_digit((rest % 16) as u8));
        rest = rest / 16;
        proof {
            assert(back@.reverse() =~= seq![hex_char(r0 % 16)] + before.reverse());
            assert(hex_text(rest as nat) + back@.reverse() =~= hex_text(r0) + before.reverse());
        }
    }
    let ghost before = back@;
    back.push(hex_digit(rest as u8));
    assert(back@.reverse() =~= seq![hex_char(rest as nat)] + before.reverse());
    reversed_text(&back)
}

/// Whether one text sorts no later than another, character by character.
pub open spec fn text_le(a: Seq<char>, b: Seq<char>) -> bool
    decreases a.len(),
{
    if a.len() == 0 {
        true
    } else if b.len() == 0 {
        false
    } else if a[0] != b[0] {
        (a[0] as u32) < (b[0] as u32)
    } else {
        text_le(a.skip(1), b.skip(1))
    }
}

/// Of two texts one sorts no later than the other; both do only where they are
/// the same.
pub proof fn text_order_is_total(a: Seq<char>, b: Seq<char>)
    ensures
        text_le(a, b) || text_le(b, a),
        text_le(a, b) && text_le(b, a) ==> a == b,
    decreases a.len(),
{
    if a.len() > 0 && b.len() > 0 && a[0] == b[0] {
        text_order_is_total(a.skip(1), b.skip(1));
        if text_le(a, b) && text_le(b, a) {
            assert(a =~= seq![a[0]] + a.skip(1));
            assert(b =~= seq![b[0]] + b.skip(1));
        }
    } else if a.len() == 0 && b.len() == 0 {
        assert(a =~= b);
    } else if a.len() > 0 && b.len() > 0 {
        let x: char = a[0];
        let y: char = b[0];
        assert(x as u32 != y as u32) by {
            vstd::utf8::char_u32_cast(x, x as u32);
            vstd::utf8::char_u32_cast(y, y as u32);
        }
    }
}

/// The order of texts carries over.
pub proof fn text_order_is_transitive(a: Seq<char>, b: Seq<char>, c: Seq<char>)
    requires
        text_le(a, b),
        text_le(b, c),
    ensures
        text_le(a, c),
    decreases a.len(),
{
    if a.len() > 0 && a[0] == b[0] && b[0] == c[0] {
        text_order_is_transitive(a.skip(1), b.skip(1), c.skip(1));
    }
}

/// Whether one text sorts no later than another.
pub fn sorts_no_later(a: &str, b: &str) -> (r: bool)
    ensures
        r == text_le(a@, b@),
{
    let x = chars_of(a);
    let y = chars_of(b);
    let mut i: usize = 0;
    assert(x@.skip(0) =~= x@);
    assert(y@.skip(0) =~= y@);
    while i < x.len() && i < y.len() && x[i] == y[i]
        invariant
            i <= x.len(),
            i <= y.len(),
            text_le(x@, y@) == text_le(x@.skip(i as int), y@.skip(i as int)),
        decreases x.len() - i,
    {
        assert(x@.skip(i as int).skip(1) =~= x@.skip(i + 1));
        assert(y@.skip(i as int).skip(1) =~= y@.skip(i + 1));
        i += 1;
    }
    if i == x.len() {
        true
    } else if i == y.len() {
        false
    } else {
        (x[i] as u32) < (y[i] as u32)
    }
}

/// A number is written digit by digit: its last digit stands behind the number
/// without it, and a number of one digit is that digit alone.
pub proof fn a_number_is_written_digit_by_digit(n: u64, r: String, q: String)
    requires
        call_ensures(decimal, (n,), r),
        call_ensures(decimal, (n / 10,), q),
    ensures
        r@.last() as u32 == 48 + n % 10,
        n < 10 ==> r@.len() == 1,
        n >= 10 ==> r@.drop_last() == q@,
{
    if n >= 10 {
        assert(r@.drop_last() =~= decimal_text((n / 10) as nat));
    }
}

/// A number is written in hexadecimal in the same way, with small letters behind
/// the nine.
pub proof fn a_number_is_written_in_small_letters(n: u64, r: String, q: String)
    requires
        call_ensures(hexadecimal, (n,), r),
        call_ensures(hexadecimal, (n / 16,), q),
    ensures
        n % 16 < 10 ==> r@.last() as u32 == '0' as u32 + n % 16,
        n % 16 >= 10 ==> r@.last() as u32 == 'a' as u32 + (n % 16 - 10),
        n < 16 ==> r@.len() == 1,
        n >= 16 ==> r@.drop_last() == q@,
{
    if n >= 16 {
        assert(r@.drop_last() =~= hex_text((n / 16) as nat));
    }
}

/// A number that was written is read as itself, with a sign or without one, where
/// it is within the limit; nothing, and anything with a character that is no
/// digit, is read as no number.
pub proof fn a_written_number_is_read_back(
    n: u64,
    text: String,
    s: &[char],
    max: u64,
    i: int,
    r: Option<u64>,
)
    requires
        call_ensures(decimal, (n,), text),
        call_ensures(parse_unsigned, (s, max), r),
    ensures
        (s@ == text@ || s@ == seq!['+'] + text@) && n <= max ==> r == Some(n),
        (s@ == text@ || s@ == seq!['+'] + text@) && n > max ==> r is None,
        s@.len() == 0 ==> r is None,
        s@ == seq!['+'] ==> r is None,
        0 <= i < s@.len() && !('0' <= s@[i] <= '9') && (i > 0 || s@[i] != '+') ==> r is None,
{
    decimal_round_trip(n as nat);
    if s@ == text@ {
        assert(is_digit(text@[0]));
    }
    if s@ == seq!['+'] + text@ {
        assert(s@.skip(1) =~= text@);
    }
    if 0 <= i < s@.len() && !('0' <= s@[i] <= '9') && (i > 0 || s@[i] != '+') {
        let d = unsigned_digits(s@);
        if s@[0] == '+' {
            assert(d[i - 1] == s@[i]);
            assert(!is_digit(d[i - 1]));
        } else {
            assert(!is_digit(d[i]));
        }
    }
}

/// Of two texts the one sorts first that has the lower character where they
/// first differ, or that ends there.
pub proof fn the_first_difference_decides(
    a: &str,
    b: &str,
    same: bool,
    r: bool,
    n: int,
)
    requires
        call_ensures(same_text, (a, b), same),
        call_ensures(sorts_no_later, (a, b), r),
        0 <= n <= a@.len(),
        n <= b@.len(),
        forall|i: int| 0 <= i < n ==> #[trigger] a@[i] == b@[i],
        n < a@.len() && n < b@.len() ==> a@[n] != b@[n],
    ensures
        same <==> n == a@.len() && n == b@.len(),
        n == a@.len() ==> r,
        n < a@.len() && n == b@.len() ==> !r,
        n < a@.len() && n < b@.len() ==> (r <==> (a@[n] as u32) < (b@[n] as u32)),
{
    alike_up_to(a@, b@, n);
    if n == a@.len() && n == b@.len() {
        assert(a@ =~= b@);
    }
}

/// What two texts have in common does not decide their order.
proof fn alike_up_to(a: Seq<char>, b: Seq<char>, n: int)
    requires
        0 <= n <= a.len(),
        n <= b.len(),
        forall|i: int| 0 <= i < n ==> #[trigger] a[i] == b[i],
    ensures
        text_le(a, b) == text_le(a.skip(n), b.skip(n)),
    decreases n,
{
    if n > 0 {
        assert(a[0] == b[0]);
        let x = a.skip(1);
        let y = b.skip(1);
        assert forall|i: int| 0 <= i < n - 1 implies #[trigger] x[i] == y[i] by {
            assert(x[i] == a[i + 1] && y[i] == b[i + 1]);
        }
        alike_up_to(x, y, n - 1);
        assert(x.skip(n - 1) =~= a.skip(n));
        assert(y.skip(n - 1) =~= b.skip(n));
    } else {
        assert(a.skip(0) =~= a && b.skip(0) =~= b);
    }
}

} // verus!
