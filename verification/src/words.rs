//! Cutting text into words and lines, and measuring it in bytes.
use crate::text::slice_of;
use vstd::prelude::*;
use vstd::utf8::*;

verus! {

/// ASCII whitespace: space, tab, line feed, form feed, carriage return.
pub open spec fn is_ascii_space(c: char) -> bool {
    c == ' ' || c == '\t' || c == '\n' || c == '\x0C' || c == '\r'
}

/// Unicode whitespace, by the `White_Space` property.
pub open spec fn is_space(c: char) -> bool {
    let v = c as u32;
    ||| 0x09 <= v <= 0x0D
    ||| v == 0x20
    ||| v == 0x85
    ||| v == 0xA0
    ||| v == 0x1680
    ||| 0x2000 <= v <= 0x200A
    ||| v == 0x2028
    ||| v == 0x2029
    ||| v == 0x202F
    ||| v == 0x205F
    ||| v == 0x3000
}

/// Whether a character is ASCII whitespace.
pub fn ascii_space(c: char) -> (r: bool)
    ensures
        r == is_ascii_space(c),
{
    c == ' ' || c == '\t' || c == '\n' || c == '\x0C' || c == '\r'
}

/// Whether a character is Unicode whitespace.
pub fn space(c: char) -> (r: bool)
    ensures
        r == is_space(c),
{
    let v: u32 = c as u32;
    (0x09 <= v && v <= 0x0D) || v == 0x20 || v == 0x85 || v == 0xA0 || v == 0x1680 || (0x2000 <= v
        && v <= 0x200A) || v == 0x2028 || v == 0x2029 || v == 0x202F || v == 0x205F || v == 0x3000
}

/// Length of the leading run of characters that are not ASCII whitespace.
pub open spec fn word_len(s: Seq<char>) -> nat
    decreases s.len(),
{
    if s.len() == 0 || is_ascii_space(s[0]) {
        0
    } else {
        1 + word_len(s.skip(1))
    }
}

/// The leading run is within the text, and a whitespace or the end follows it.
pub proof fn word_len_bounds(s: Seq<char>)
    ensures
        word_len(s) <= s.len(),
        forall|i: int| 0 <= i < word_len(s) ==> !is_ascii_space(#[trigger] s[i]),
        word_len(s) < s.len() ==> is_ascii_space(s[word_len(s) as int]),
    decreases s.len(),
{
    if s.len() > 0 && !is_ascii_space(s[0]) {
        let t = s.skip(1);
        word_len_bounds(t);
        assert forall|i: int| 0 <= i < word_len(s) implies !is_ascii_space(#[trigger] s[i]) by {
            if i > 0 {
                assert(s[i] == t[i - 1]);
            }
        }
        if word_len(s) < s.len() {
            assert(s[word_len(s) as int] == t[word_len(t) as int]);
        }
    }
}

/// The words of a text: its maximal runs without ASCII whitespace, in order.
pub open spec fn words(s: Seq<char>) -> Seq<Seq<char>>
    decreases s.len(),
{
    if s.len() == 0 {
        seq![]
    } else if is_ascii_space(s[0]) {
        words(s.skip(1))
    } else {
        proof {
            word_len_bounds(s);
        }
        seq![s.take(word_len(s) as int)] + words(s.skip(word_len(s) as int))
    }
}

/// The views of a list of character vectors.
pub open spec fn views(v: Seq<Vec<char>>) -> Seq<Seq<char>> {
    v.map_values(|w: Vec<char>| w@)
}

/// The words of a text.
pub fn split_words(s: &[char]) -> (r: Vec<Vec<char>>)
    ensures
        views(r@) == words(s@),
{
    let mut out: Vec<Vec<char>> = Vec::new();
    let mut i: usize = 0;
    assert(s@.skip(0) =~= s@);
    while i < s.len()
        invariant
            i <= s.len(),
            views(out@) + words(s@.skip(i as int)) =~= words(s@),
        decreases s.len() - i,
    {
        let ghost rest = s@.skip(i as int);
        if ascii_space(s[i]) {
            assert(rest.skip(1) =~= s@.skip(i + 1));
            i += 1;
        } else {
            let mut j: usize = i + 1;
            proof {
                word_len_bounds(rest);
            }
            while j < s.len() && !ascii_space(s[j])
                invariant
                    i < j <= s.len(),
                    rest == s@.skip(i as int),
                    j - i <= word_len(rest) <= rest.len(),
                    forall|k: int| 0 <= k < word_len(rest) ==> !is_ascii_space(#[trigger] rest[k]),
                    word_len(rest) < rest.len() ==> is_ascii_space(rest[word_len(rest) as int]),
                decreases s.len() - j,
            {
                assert(rest[j - i] == s@[j as int]);
                j += 1;
            }
            assert(j - i == word_len(rest)) by {
                if j - i < word_len(rest) {
                    assert(j < s.len());
                    assert(rest[j - i] == s@[j as int]);
                }
            }
            let ghost before = views(out@);
            let word = slice_of(s, i, j);
            assert(word@ =~= rest.take(j - i));
            assert(rest.skip(j - i) =~= s@.skip(j as int));
            out.push(word);
            assert(views(out@) =~= before.push(rest.take(j - i)));
            assert(words(rest) == seq![rest.take(j - i)] + words(s@.skip(j as int)));
            i = j;
        }
    }
    assert(s@.skip(i as int) =~= Seq::<char>::empty());
    out
}

/// A text without the carriage returns and line feeds at its end.
pub open spec fn trim_line_end(s: Seq<char>) -> Seq<char>
    decreases s.len(),
{
    if s.len() > 0 && (s.last() == '\r' || s.last() == '\n') {
        trim_line_end(s.drop_last())
    } else {
        s
    }
}

/// How many characters stay when line ends are trimmed.
pub fn trimmed_len(s: &[char]) -> (n: usize)
    ensures
        n <= s.len(),
        s@.take(n as int) == trim_line_end(s@),
{
    let mut n: usize = s.len();
    assert(s@.take(n as int) =~= s@);
    while n > 0 && (s[n - 1] == '\r' || s[n - 1] == '\n')
        invariant
            n <= s.len(),
            trim_line_end(s@.take(n as int)) == trim_line_end(s@),
        decreases n,
    {
        assert(s@.take(n as int).drop_last() =~= s@.take(n - 1));
        n -= 1;
    }
    n
}

/// Whether a text holds a carriage return or a line feed.
pub open spec fn has_line_break(s: Seq<char>) -> bool {
    exists|i: int| 0 <= i < s.len() && (#[trigger] s[i] == '\r' || s[i] == '\n')
}

/// Whether a text holds a carriage return or a line feed.
pub fn breaks_line(s: &[char]) -> (r: bool)
    ensures
        r == has_line_break(s@),
{
    let mut i: usize = 0;
    while i < s.len()
        invariant
            i <= s.len(),
            forall|k: int| 0 <= k < i ==> #[trigger] s@[k] != '\r' && s@[k] != '\n',
        decreases s.len() - i,
    {
        if s[i] == '\r' || s[i] == '\n' {
            assert(s@[i as int] == '\r' || s@[i as int] == '\n');
            return true;
        }
        i += 1;
    }
    false
}

/// Where a character first stands in a text; the length where it does not.
pub open spec fn first_at(s: Seq<char>, c: char) -> nat
    decreases s.len(),
{
    if s.len() == 0 || s[0] == c {
        0
    } else {
        1 + first_at(s.skip(1), c)
    }
}

/// The first place is the first: nothing before it is the character.
pub proof fn first_at_is(s: Seq<char>, c: char, n: int)
    requires
        0 <= n <= s.len(),
        forall|i: int| 0 <= i < n ==> #[trigger] s[i] != c,
        n < s.len() ==> s[n] == c,
    ensures
        first_at(s, c) == n,
    decreases s.len(),
{
    if n > 0 {
        assert(s[0] != c);
        let t = s.skip(1);
        assert forall|i: int| 0 <= i < n - 1 implies #[trigger] t[i] != c by {
            assert(t[i] == s[i + 1]);
        }
        first_at_is(t, c, n - 1);
    }
}

/// Where a character first stands in a text, or its length.
pub fn find_char(s: &[char], c: char) -> (n: usize)
    ensures
        n == first_at(s@, c),
        n <= s.len(),
        forall|i: int| 0 <= i < n ==> #[trigger] s@[i] != c,
        n < s.len() ==> s@[n as int] == c,
{
    let mut n: usize = 0;
    while n < s.len() && s[n] != c
        invariant
            n <= s.len(),
            forall|i: int| 0 <= i < n ==> #[trigger] s@[i] != c,
        decreases s.len() - n,
    {
        n += 1;
    }
    proof {
        first_at_is(s@, c, n as int);
    }
    n
}

/// Where Unicode whitespace first stands in a text; the length where it does
/// not.
pub open spec fn first_space(s: Seq<char>) -> nat
    decreases s.len(),
{
    if s.len() == 0 || is_space(s[0]) {
        0
    } else {
        1 + first_space(s.skip(1))
    }
}

/// Where Unicode whitespace first stands in a text, or its length.
pub fn find_space(s: &[char]) -> (n: usize)
    ensures
        n == first_space(s@),
        n <= s.len(),
{
    let mut n: usize = 0;
    assert(s@.skip(0) =~= s@);
    while n < s.len() && !space(s[n])
        invariant
            n <= s.len(),
            first_space(s@) == n + first_space(s@.skip(n as int)),
        decreases s.len() - n,
    {
        assert(s@.skip(n as int).skip(1) =~= s@.skip(n + 1));
        n += 1;
    }
    n
}

/// Bytes a text takes in UTF-8.
pub open spec fn byte_len(s: Seq<char>) -> nat {
    encode_utf8(s).len()
}

/// A part of a text takes no more bytes than the whole.
proof fn tail_bytes_within(s: Seq<char>, i: int)
    requires
        0 <= i <= s.len(),
    ensures
        byte_len(s.skip(i)) <= byte_len(s),
    decreases i,
{
    if i == 0 {
        assert(s.skip(0) =~= s);
    } else {
        tail_bytes_within(s, i - 1);
        assert(s.skip(i - 1).drop_first() =~= s.skip(i));
    }
}

/// Whether a text takes at most `max` bytes in UTF-8.
pub fn fits_bytes(s: &[char], max: usize) -> (r: bool)
    ensures
        r == (byte_len(s@) <= max),
{
    let mut i: usize = s.len();
    let mut n: usize = 0;
    assert(s@.skip(i as int) =~= Seq::<char>::empty());
    while i > 0
        invariant
            i <= s.len(),
            n == byte_len(s@.skip(i as int)),
            n <= max,
        decreases i,
    {
        i -= 1;
        let c: char = s[i];
        let v: u32 = c as u32;
        let w: usize = if v < 0x80 {
            1
        } else if v < 0x800 {
            2
        } else if v < 0x10000 {
            3
        } else {
            4
        };
        assert(s@.skip(i as int).drop_first() =~= s@.skip(i + 1));
        assert(s@.skip(i as int)[0] == c);
        proof {
            char_is_scalar(c);
            tail_bytes_within(s@, i as int);
        }
        if w > max - n {
            return false;
        }
        n += w;
    }
    assert(s@.skip(0) =~= s@);
    true
}

/// The parts of a text between separators: one more than there are separators.
pub open spec fn split_on(s: Seq<char>, sep: char) -> Seq<Seq<char>>
    decreases s.len(),
{
    let k = first_at(s, sep) as int;
    if k >= s.len() {
        seq![s]
    } else {
        seq![s.take(k)] + split_on(s.skip(k + 1), sep)
    }
}

/// Texts with a separator between each two.
pub open spec fn joined(parts: Seq<Seq<char>>, sep: char) -> Seq<char>
    decreases parts.len(),
{
    if parts.len() == 0 {
        seq![]
    } else if parts.len() == 1 {
        parts[0]
    } else {
        parts[0] + seq![sep] + joined(parts.skip(1), sep)
    }
}

/// Whether a text does not hold a character.
pub open spec fn lacks(s: Seq<char>, c: char) -> bool {
    forall|i: int| 0 <= i < s.len() ==> #[trigger] s[i] != c
}

/// Splitting what was joined gives the parts back, where none of them holds the
/// separator.
pub proof fn split_undoes_join(parts: Seq<Seq<char>>, sep: char)
    requires
        parts.len() > 0,
        forall|i: int| 0 <= i < parts.len() ==> lacks(#[trigger] parts[i], sep),
    ensures
        split_on(joined(parts, sep), sep) == parts,
    decreases parts.len(),
{
    let s = joined(parts, sep);
    assert(lacks(parts[0], sep));
    let k = parts[0].len() as int;
    if parts.len() == 1 {
        first_at_is(s, sep, k);
        assert(split_on(s, sep) =~= parts);
    } else {
        assert forall|i: int| 0 <= i < k implies #[trigger] s[i] != sep by {
            assert(s[i] == parts[0][i]);
        }
        first_at_is(s, sep, k);
        let rest = parts.skip(1);
        assert forall|i: int| 0 <= i < rest.len() implies lacks(#[trigger] rest[i], sep) by {
            assert(rest[i] == parts[i + 1]);
        }
        split_undoes_join(rest, sep);
        assert(s.take(k) =~= parts[0]);
        assert(s.skip(k + 1) =~= joined(rest, sep));
        assert(split_on(s, sep) =~= parts);
    }
}

/// Joining what was split gives the text back.
pub proof fn join_undoes_split(s: Seq<char>, sep: char)
    ensures
        split_on(s, sep).len() > 0,
        joined(split_on(s, sep), sep) == s,
    decreases s.len(),
{
    first_at_bounds(s, sep);
    let k = first_at(s, sep) as int;
    if k < s.len() {
        let rest = split_on(s.skip(k + 1), sep);
        join_undoes_split(s.skip(k + 1), sep);
        assert(split_on(s, sep).skip(1) =~= rest);
        assert(s =~= s.take(k) + seq![sep] + s.skip(k + 1));
    }
}

/// What the search for a character finds.
proof fn first_at_bounds(s: Seq<char>, c: char)
    ensures
        first_at(s, c) <= s.len(),
        first_at(s, c) < s.len() ==> s[first_at(s, c) as int] == c,
    decreases s.len(),
{
    if s.len() > 0 && s[0] != c {
        first_at_bounds(s.skip(1), c);
    }
}

/// The parts of a text between separators.
pub fn split_text(s: &[char], sep: char) -> (r: Vec<Vec<char>>)
    ensures
        views(r@) == split_on(s@, sep),
{
    let mut out: Vec<Vec<char>> = Vec::new();
    let mut from: usize = 0;
    assert(s@.skip(0) =~= s@);
    loop
        invariant
            from <= s.len(),
            views(out@) + split_on(s@.skip(from as int), sep) =~= split_on(s@, sep),
        decreases s.len() - from,
    {
        let ghost rest = s@.skip(from as int);
        let mut to: usize = from;
        while to < s.len() && s[to] != sep
            invariant
                from <= to <= s.len(),
                forall|i: int| from <= i < to ==> #[trigger] s@[i] != sep,
            decreases s.len() - to,
        {
            to += 1;
        }
        proof {
            assert forall|i: int| 0 <= i < to - from implies #[trigger] rest[i] != sep by {
                assert(rest[i] == s@[from + i]);
            }
            if to < s.len() {
                assert(rest[to - from] == s@[to as int]);
            }
            first_at_is(rest, sep, to - from);
        }
        let ghost before = views(out@);
        let part = slice_of(s, from, to);
        assert(part@ =~= rest.take(to - from));
        out.push(part);
        assert(views(out@) =~= before.push(rest.take(to - from)));
        if to == s.len() {
            assert(rest.take(to - from) =~= rest);
            assert(views(out@) =~= split_on(s@, sep));
            return out;
        }
        assert(rest.skip(to - from + 1) =~= s@.skip(to + 1));
        from = to + 1;
    }
}

/// A text without the Unicode whitespace in front of it.
pub open spec fn trim_start(s: Seq<char>) -> Seq<char>
    decreases s.len(),
{
    if s.len() > 0 && is_space(s[0]) {
        trim_start(s.skip(1))
    } else {
        s
    }
}

/// A text without the Unicode whitespace behind it.
pub open spec fn trim_end(s: Seq<char>) -> Seq<char>
    decreases s.len(),
{
    if s.len() > 0 && is_space(s.last()) {
        trim_end(s.drop_last())
    } else {
        s
    }
}

/// A text without the Unicode whitespace around it.
pub fn trim_text(s: &[char]) -> (r: Vec<char>)
    ensures
        r@ == trim_end(trim_start(s@)),
{
    let mut a: usize = 0;
    assert(s@.subrange(0, s@.len() as int) =~= s@);
    while a < s.len() && space(s[a])
        invariant
            a <= s.len(),
            trim_start(s@) == trim_start(s@.subrange(a as int, s@.len() as int)),
        decreases s.len() - a,
    {
        assert(s@.subrange(a as int, s@.len() as int).skip(1) =~= s@.subrange(
            a + 1,
            s@.len() as int,
        ));
        a += 1;
    }
    let ghost front = s@.subrange(a as int, s@.len() as int);
    let mut b: usize = s.len();
    while b > a && space(s[b - 1])
        invariant
            a <= b <= s.len(),
            trim_end(front) == trim_end(s@.subrange(a as int, b as int)),
        decreases b,
    {
        assert(s@.subrange(a as int, b as int).drop_last() =~= s@.subrange(a as int, b - 1));
        b -= 1;
    }
    slice_of(s, a, b)
}

/// Whether a text begins with another.
pub open spec fn starts(s: Seq<char>, start: Seq<char>) -> bool {
    s.len() >= start.len() && s.take(start.len() as int) == start
}

/// Whether a text begins with another.
pub fn starts_text(s: &[char], start: &[char]) -> (r: bool)
    ensures
        r == starts(s@, start@),
{
    if s.len() < start.len() {
        return false;
    }
    let mut i: usize = 0;
    while i < start.len()
        invariant
            i <= start.len() <= s.len(),
            forall|k: int| 0 <= k < i ==> s@[k] == #[trigger] start@[k],
        decreases start.len() - i,
    {
        if s[i] != start[i] {
            assert(s@.take(start@.len() as int)[i as int] != start@[i as int]);
            return false;
        }
        i += 1;
    }
    assert(s@.take(start@.len() as int) =~= start@);
    true
}

/// Whether a text is one word: at least one character, and no space, tab, line
/// feed, form feed or carriage return.
pub open spec fn is_word(s: Seq<char>) -> bool {
    s.len() > 0 && forall|i: int|
        0 <= i < s.len() ==> #[trigger] s[i] != ' ' && s[i] != '\t' && s[i] != '\n' && s[i]
            != '\x0C' && s[i] != '\r'
}

/// Whether a character stands between words.
pub open spec fn parts_words(c: char) -> bool {
    c == ' ' || c == '\t' || c == '\n' || c == '\x0C' || c == '\r'
}

/// A text falls into its words: a word that ends the text or stands before
/// whitespace is the first of them, and whitespace in front is none.
pub proof fn a_text_falls_into_its_words(
    word: Seq<char>,
    c: char,
    whole: &[char],
    rest: &[char],
    r: Vec<Vec<char>>,
    t: Vec<Vec<char>>,
)
    requires
        is_word(word),
        parts_words(c),
        call_ensures(split_words, (whole,), r),
        call_ensures(split_words, (rest,), t),
    ensures
        whole@.len() == 0 ==> r@.len() == 0,
        whole@ == word ==> r@.len() == 1 && r@[0]@ == word,
        whole@ == seq![c] + rest@ ==> views(r@) == views(t@),
        whole@ == word + seq![c] + rest@ ==> views(r@) == seq![word] + views(t@),
{
    if whole@.len() == 0 {
        assert(views(r@).len() == 0);
    }
    if whole@ == word {
        first_word_is(whole@, word.len());
        assert(whole@.take(word.len() as int) =~= word);
        let none = whole@.skip(word.len() as int);
        assert(none.len() == 0);
        assert(words(none) =~= Seq::<Seq<char>>::empty());
        assert(!is_ascii_space(whole@[0]));
        assert(words(whole@) =~= seq![word]);
        assert(views(r@)[0] == word);
    }
    if whole@ == seq![c] + rest@ {
        assert(whole@.skip(1) =~= rest@);
    }
    if whole@ == word + seq![c] + rest@ {
        first_word_is(whole@, word.len());
        let tail = whole@.skip(word.len() as int);
        assert(whole@.take(word.len() as int) =~= word);
        assert(tail[0] == c);
        assert(tail.skip(1) =~= rest@);
        assert(words(tail) == words(rest@));
    }
}

/// The first word ends where whitespace begins.
proof fn first_word_is(s: Seq<char>, n: nat)
    requires
        n <= s.len(),
        forall|i: int| 0 <= i < n ==> !is_ascii_space(#[trigger] s[i]),
        n < s.len() ==> is_ascii_space(s[n as int]),
    ensures
        word_len(s) == n,
    decreases s.len(),
{
    if n > 0 {
        assert(!is_ascii_space(s[0]));
        let t = s.skip(1);
        assert forall|i: int| 0 <= i < n - 1 implies !is_ascii_space(#[trigger] t[i]) by {
            assert(t[i] == s[i + 1]);
        }
        first_word_is(t, (n - 1) as nat);
    }
}

/// Line ends are trimmed: what stays does not end in one, and everything behind
/// it is one. A text breaks a line where it holds one.
pub proof fn only_line_ends_are_trimmed(s: &[char], n: usize, r: bool)
    requires
        call_ensures(trimmed_len, (s,), n),
        call_ensures(breaks_line, (s,), r),
    ensures
        n <= s@.len(),
        n > 0 ==> s@[n - 1] != '\r' && s@[n - 1] != '\n',
        forall|i: int| n <= i < s@.len() ==> #[trigger] s@[i] == '\r' || s@[i] == '\n',
        r <==> exists|i: int| 0 <= i < s@.len() && (#[trigger] s@[i] == '\r' || s@[i] == '\n'),
{
    line_end_is(s@);
    assert(s@.take(n as int).len() == n);
    if n > 0 {
        assert(s@.take(n as int).last() == s@[n - 1]);
    }
}

/// What trimming line ends takes away.
proof fn line_end_is(s: Seq<char>)
    ensures
        ({
            let n = trim_line_end(s).len();
            &&& n <= s.len()
            &&& trim_line_end(s) == s.take(n as int)
            &&& n > 0 ==> s[n - 1] != '\r' && s[n - 1] != '\n'
            &&& forall|i: int| n <= i < s.len() ==> #[trigger] s[i] == '\r' || s[i] == '\n'
        }),
    decreases s.len(),
{
    if s.len() > 0 && (s.last() == '\r' || s.last() == '\n') {
        line_end_is(s.drop_last());
        let n = trim_line_end(s).len();
        assert(s.drop_last().take(n as int) =~= s.take(n as int));
        assert forall|i: int| n <= i < s.len() implies #[trigger] s[i] == '\r' || s[i] == '\n' by {
            if i < s.len() - 1 {
                assert(s.drop_last()[i] == s[i]);
            }
        }
    } else {
        assert(s.take(s.len() as int) =~= s);
    }
}

/// Trimming a text takes whitespace off both of its ends and nothing else.
pub proof fn trimming_takes_whitespace_off_the_ends(s: &[char], r: Vec<char>)
    requires
        call_ensures(trim_text, (s,), r),
    ensures
        exists|i: int, j: int|
            0 <= i <= j <= s@.len() && r@ == #[trigger] s@.subrange(i, j) && (forall|k: int|
                0 <= k < i || j <= k < s@.len() ==> is_space(#[trigger] s@[k])),
        r@.len() > 0 ==> !is_space(r@[0]) && !is_space(r@.last()),
{
    let front = trim_start(s@);
    start_is(s@);
    end_is(front);
    let i = s@.len() - front.len();
    let j = i + r@.len();
    assert(r@ =~= s@.subrange(i, j));
    assert forall|k: int| 0 <= k < i || j <= k < s@.len() implies is_space(#[trigger] s@[k]) by {
        if j <= k {
            assert(front[k - i] == s@[k]);
        }
    }
    if r@.len() > 0 {
        assert(r@[0] == front[0]);
    }
}

/// What trimming the front of a text takes away.
proof fn start_is(s: Seq<char>)
    ensures
        ({
            let t = trim_start(s);
            let n = s.len() - t.len();
            &&& 0 <= n <= s.len()
            &&& t == s.skip(n)
            &&& t.len() > 0 ==> !is_space(t[0])
            &&& forall|i: int| 0 <= i < n ==> is_space(#[trigger] s[i])
        }),
    decreases s.len(),
{
    if s.len() > 0 && is_space(s[0]) {
        let u = s.skip(1);
        start_is(u);
        let n = s.len() - trim_start(s).len();
        assert(u.skip(n - 1) =~= s.skip(n));
        assert forall|i: int| 0 <= i < n implies is_space(#[trigger] s[i]) by {
            if i > 0 {
                assert(u[i - 1] == s[i]);
            }
        }
    } else {
        assert(s.skip(0) =~= s);
    }
}

/// What trimming the end of a text takes away.
proof fn end_is(s: Seq<char>)
    ensures
        ({
            let t = trim_end(s);
            &&& t.len() <= s.len()
            &&& t == s.take(t.len() as int)
            &&& t.len() > 0 ==> !is_space(t.last())
            &&& forall|i: int| t.len() <= i < s.len() ==> is_space(#[trigger] s[i])
        }),
    decreases s.len(),
{
    if s.len() > 0 && is_space(s.last()) {
        let u = s.drop_last();
        end_is(u);
        let n = trim_end(s).len() as int;
        assert(u.take(n) =~= s.take(n));
        assert forall|i: int| n <= i < s.len() implies is_space(#[trigger] s[i]) by {
            if i < s.len() - 1 {
                assert(u[i] == s[i]);
            }
        }
    } else {
        assert(s.take(s.len() as int) =~= s);
    }
}

/// Whitespace is what Unicode counts as such.
pub proof fn whitespace_is_what_unicode_says(c: char, r: bool)
    requires
        call_ensures(space, (c,), r),
    ensures
        r <==> {
            let v = c as u32;
            9 <= v <= 13 || v == 32 || v == 133 || v == 160 || v == 5760 || 8192 <= v <= 8202 || v
                == 8232 || v == 8233 || v == 8239 || v == 8287 || v == 12288
        },
{
}

/// A text begins with another where something, or nothing, behind the other makes
/// it up.
pub proof fn a_text_begins_with_its_front(
    s: &[char],
    start: &[char],
    rest: Seq<char>,
    r: bool,
)
    requires
        call_ensures(starts_text, (s, start), r),
    ensures
        s@ == start@ + rest ==> r,
        r ==> s@ == start@ + s@.skip(start@.len() as int),
{
    if s@ == start@ + rest {
        assert(s@.take(start@.len() as int) =~= start@);
    }
    if r {
        assert(s@ =~= s@.take(start@.len() as int) + s@.skip(start@.len() as int));
    }
}

/// A character, and whitespace, is found where it first stands; where there is
/// none, the text's length is given. A text fits where its bytes do.
pub proof fn the_first_place_is_found(
    s: &[char],
    c: char,
    n: usize,
    m: usize,
    max: usize,
    fits: bool,
)
    requires
        call_ensures(find_char, (s, c), n),
        call_ensures(find_space, (s,), m),
        call_ensures(fits_bytes, (s, max), fits),
    ensures
        n <= s@.len() && m <= s@.len(),
        n < s@.len() ==> s@[n as int] == c,
        forall|i: int| 0 <= i < n ==> #[trigger] s@[i] != c,
        m < s@.len() ==> is_space(s@[m as int]),
        forall|i: int| 0 <= i < m ==> !is_space(#[trigger] s@[i]),
        fits <==> encode_utf8(s@).len() <= max,
{
    first_space_is(s@);
}

/// Where whitespace first stands.
proof fn first_space_is(s: Seq<char>)
    ensures
        first_space(s) <= s.len(),
        first_space(s) < s.len() ==> is_space(s[first_space(s) as int]),
        forall|i: int| 0 <= i < first_space(s) ==> !is_space(#[trigger] s[i]),
    decreases s.len(),
{
    if s.len() > 0 && !is_space(s[0]) {
        let t = s.skip(1);
        first_space_is(t);
        assert forall|i: int| 0 <= i < first_space(s) implies !is_space(#[trigger] s[i]) by {
            if i > 0 {
                assert(t[i - 1] == s[i]);
            }
        }
    }
}

/// A text is split at every separator and nowhere else: the parts hold none, and
/// a part, a separator and what follows give the part and the parts of the rest.
pub proof fn a_text_is_split_at_every_separator(
    part: Seq<char>,
    sep: char,
    whole: &[char],
    rest: &[char],
    r: Vec<Vec<char>>,
    t: Vec<Vec<char>>,
)
    requires
        call_ensures(split_text, (whole, sep), r),
        call_ensures(split_text, (rest, sep), t),
        forall|i: int| 0 <= i < part.len() ==> #[trigger] part[i] != sep,
    ensures
        whole@ == part ==> views(r@) == seq![part],
        whole@ == part + seq![sep] + rest@ ==> views(r@) == seq![part] + views(t@),
{
    if whole@ == part {
        first_at_is(whole@, sep, part.len() as int);
        assert(whole@.take(part.len() as int) =~= part);
        assert(views(r@) =~= seq![part]);
    }
    if whole@ == part + seq![sep] + rest@ {
        let n = part.len() as int;
        assert(whole@[n] == sep);
        assert forall|i: int| 0 <= i < n implies #[trigger] whole@[i] != sep by {
            assert(whole@[i] == part[i]);
        }
        first_at_is(whole@, sep, n);
        assert(whole@.take(n) =~= part);
        assert(whole@.skip(n + 1) =~= rest@);
        assert(views(r@) =~= seq![part] + views(t@));
    }
}

} // verus!
