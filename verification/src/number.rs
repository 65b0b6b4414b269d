//! Reading numbers, and saying what is wrong with a text that is none.
use crate::text::{all_digits, decimal_text, decimal_value, is_digit};
use vstd::prelude::*;

verus! {

/// What is wrong with a text that is no number.
#[derive(Debug, Clone, Copy, PartialEq, Eq, Structural)]
pub enum NumberFault {
    /// There is nothing to read.
    Empty,
    /// Something in it is no digit.
    InvalidDigit,
    /// The number is larger than may be read.
    TooLarge,
}

/// How a fault is put into words.
pub open spec fn fault_text(f: NumberFault) -> Seq<char> {
    match f {
        NumberFault::Empty => "cannot parse integer from empty string"@,
        NumberFault::InvalidDigit => "invalid digit found in string"@,
        NumberFault::TooLarge => "number too large to fit in target type"@,
    }
}

impl NumberFault {
    /// How the fault is put into words.
    pub fn as_str(&self) -> (r: &'static str)
        ensures
            r@ == fault_text(*self),
    {
        match self {
            NumberFault::Empty => "cannot parse integer from empty string",
            NumberFault::InvalidDigit => "invalid digit found in string",
            NumberFault::TooLarge => "number too large to fit in target type",
        }
    }
}

/// The value of a digit of either case, in a radix of up to sixteen.
pub open spec fn digit_in(c: char, radix: nat) -> Option<nat> {
    let v = if '0' <= c <= '9' {
        (c as u32 - 48) as nat
    } else if 'a' <= c <= 'f' {
        (c as u32 - 87) as nat
    } else if 'A' <= c <= 'F' {
        (c as u32 - 55) as nat
    } else {
        99
    };
    if v < radix {
        Some(v)
    } else {
        None
    }
}

/// What reading digits from the front gives: the value, or the first fault met
/// on the way.
pub open spec fn scanned(s: Seq<char>, radix: nat, max: nat) -> Result<nat, NumberFault>
    decreases s.len(),
{
    if s.len() == 0 {
        Ok(0)
    } else {
        match scanned(s.drop_last(), radix, max) {
            Err(f) => Err(f),
            Ok(v) => match digit_in(s.last(), radix) {
                None => Err(NumberFault::InvalidDigit),
                Some(d) => if v * radix + d > max {
                    Err(NumberFault::TooLarge)
                } else {
                    Ok(v * radix + d)
                },
            },
        }
    }
}

/// What a text says as an unsigned number of a radix: one leading `+` is
/// passed over, and at least one digit has to follow.
pub open spec fn number_of(s: Seq<char>, radix: nat, max: nat) -> Result<nat, NumberFault> {
    if s.len() == 0 {
        Err(NumberFault::Empty)
    } else if s[0] == '+' {
        if s.len() == 1 {
            Err(NumberFault::InvalidDigit)
        } else {
            scanned(s.skip(1), radix, max)
        }
    } else {
        scanned(s, radix, max)
    }
}

/// A fault met on the way stays.
proof fn fault_stays(s: Seq<char>, radix: nat, max: nat, i: int)
    requires
        0 <= i <= s.len(),
        scanned(s.take(i), radix, max) is Err,
    ensures
        scanned(s, radix, max) == scanned(s.take(i), radix, max),
    decreases s.len() - i,
{
    if i == s.len() {
        assert(s.take(i) =~= s);
    } else {
        assert(s.take(i + 1).drop_last() =~= s.take(i));
        fault_stays(s, radix, max, i + 1);
    }
}

/// The value of a digit, or `None` where it is none of the radix.
fn digit(c: char, radix: u64) -> (r: Option<u64>)
    requires
        radix <= 16,
    ensures
        r is Some <==> digit_in(c, radix as nat) is Some,
        r matches Some(d) ==> d == digit_in(c, radix as nat)->0 && d < 16,
{
    let v: u64 = if '0' <= c && c <= '9' {
        (c as u32 - 48) as u64
    } else if 'a' <= c && c <= 'f' {
        (c as u32 - 87) as u64
    } else if 'A' <= c && c <= 'F' {
        (c as u32 - 55) as u64
    } else {
        99
    };
    if v < radix {
        Some(v)
    } else {
        None
    }
}

/// Read an unsigned number of a radix, no larger than `max`.
pub fn read_number(s: &[char], radix: u64, max: u64) -> (r: Result<u64, NumberFault>)
    requires
        2 <= radix <= 16,
    ensures
        match number_of(s@, radix as nat, max as nat) {
            Ok(n) => r matches Ok(v) && v == n,
            Err(f) => r == Err::<u64, NumberFault>(f),
        },
{
    if s.len() == 0 {
        return Err(NumberFault::Empty);
    }
    let start: usize = if s[0] == '+' {
        1
    } else {
        0
    };
    if s.len() == start {
        return Err(NumberFault::InvalidDigit);
    }
    let ghost d = s@.skip(start as int);
    assert(start == 0 ==> d =~= s@);
    let mut v: u64 = 0;
    let mut i: usize = start;
    assert(d.take(0) =~= Seq::<char>::empty());
    while i < s.len()
        invariant
            start <= i <= s.len(),
            2 <= radix <= 16,
            d == s@.skip(start as int),
            number_of(s@, radix as nat, max as nat) == scanned(d, radix as nat, max as nat),
            scanned(d.take(i - start), radix as nat, max as nat) == Ok::<nat, NumberFault>(
                v as nat,
            ),
            v <= max,
        decreases s.len() - i,
    {
        assert(d.take(i - start + 1).drop_last() =~= d.take(i - start));
        assert(d.take(i - start + 1).last() == s@[i as int]);
        match digit(s[i], radix) {
            None => {
                proof {
                    fault_stays(d, radix as nat, max as nat, i - start + 1);
                }
                return Err(NumberFault::InvalidDigit);
            },
            Some(x) => {
                assert(v * radix <= u64::MAX * 16) by (nonlinear_arith)
                    requires
                        v <= u64::MAX,
                        radix <= 16,
                ;
                let wide: u128 = v as u128 * radix as u128 + x as u128;
                if wide > max as u128 {
                    proof {
                        fault_stays(d, radix as nat, max as nat, i - start + 1);
                    }
                    return Err(NumberFault::TooLarge);
                }
                v = wide as u64;
            },
        }
        i += 1;
    }
    assert(d.take(d.len() as int) =~= d);
    Ok(v)
}

/// A number that fits, written in decimal, reads back as itself.
pub proof fn decimal_reads_back(n: nat, max: nat)
    requires
        n <= max,
    ensures
        number_of(decimal_text(n), 10, max) == Ok::<nat, NumberFault>(n),
{
    crate::text::decimal_round_trip(n);
    let s = decimal_text(n);
    decimal_scans(s, max);
    assert(s[0] != '+');
}

/// Digits whose number fits scan to their number.
proof fn decimal_scans(s: Seq<char>, max: nat)
    requires
        all_digits(s),
        decimal_value(s) <= max,
    ensures
        scanned(s, 10, max) == Ok::<nat, NumberFault>(decimal_value(s)),
    decreases s.len(),
{
    if s.len() > 0 {
        assert(is_digit(s[s.len() - 1]));
        assert forall|i: int| 0 <= i < s.drop_last().len() implies is_digit(
            #[trigger] s.drop_last()[i],
        ) by {
            assert(s.drop_last()[i] == s[i]);
        }
        decimal_scans(s.drop_last(), max);
    }
}

/// The value that a character has as a digit, where it is one: a decimal digit
/// or a letter up to `f` of either case.
pub open spec fn is_worth(c: char, d: nat) -> bool {
    ||| '0' <= c <= '9' && d == c as u32 - '0' as u32
    ||| 'a' <= c <= 'f' && d == c as u32 - 'a' as u32 + 10
    ||| 'A' <= c <= 'F' && d == c as u32 - 'A' as u32 + 10
}

/// A number is read digit by digit: one more digit behind a number makes it as
/// many times larger as the radix says, plus the digit. It is too large where
/// that is over the limit, and anything that is no digit is a fault.
pub proof fn one_more_digit_is_one_more_place(
    s: &[char],
    longer: &[char],
    c: char,
    radix: u64,
    max: u64,
    r: Result<u64, NumberFault>,
    t: Result<u64, NumberFault>,
)
    requires
        2 <= radix <= 16,
        longer@ == s@.push(c),
        s@.len() > 0,
        s@ != seq!['+'],
        call_ensures(read_number, (s, radix, max), r),
        call_ensures(read_number, (longer, radix, max), t),
    ensures
        r is Err ==> t == r,
        r matches Ok(v) ==> forall|d: nat| #[trigger]
            is_worth(c, d) && d < radix ==> {
                &&& v * radix + d <= max ==> (t matches Ok(w) && w == v * radix + d)
                &&& v * radix + d > max ==> t == Err::<u64, NumberFault>(NumberFault::TooLarge)
            },
        r is Ok && (forall|d: nat| d < radix ==> !#[trigger] is_worth(c, d)) ==> t == Err::<
            u64,
            NumberFault,
        >(NumberFault::InvalidDigit),
{
    if s@[0] == '+' {
        assert(s@.len() > 1) by {
            if s@.len() == 1 {
                assert(s@ =~= seq!['+']);
            }
        }
        assert(longer@.skip(1).drop_last() =~= s@.skip(1));
        assert(longer@.skip(1).last() == c);
    } else {
        assert(longer@.drop_last() =~= s@);
    }
    a_digit_is_worth_its_value(c, radix as nat);
}

/// What a digit is worth.
proof fn a_digit_is_worth_its_value(c: char, radix: nat)
    requires
        radix <= 16,
    ensures
        digit_in(c, radix) matches Some(d) ==> is_worth(c, d) && d < radix,
        forall|d: nat| #[trigger] is_worth(c, d) && d < radix ==> digit_in(c, radix) == Some(d),
{
}

/// A number begins with one digit, behind a sign or without one. Nothing at all,
/// and a sign alone, are no numbers.
pub proof fn a_number_begins_with_a_digit(
    s: &[char],
    c: char,
    radix: u64,
    max: u64,
    r: Result<u64, NumberFault>,
)
    requires
        2 <= radix <= 16,
        call_ensures(read_number, (s, radix, max), r),
    ensures
        s@.len() == 0 ==> r == Err::<u64, NumberFault>(NumberFault::Empty),
        s@ == seq!['+'] ==> r == Err::<u64, NumberFault>(NumberFault::InvalidDigit),
        s@ == seq![c] || s@ == seq!['+', c] ==> forall|d: nat| #[trigger]
            is_worth(c, d) && d < radix ==> {
                &&& d <= max ==> (r matches Ok(w) && w == d)
                &&& d > max ==> r == Err::<u64, NumberFault>(NumberFault::TooLarge)
            },
{
    if s@ == seq![c] || s@ == seq!['+', c] {
        a_digit_is_worth_its_value(c, radix as nat);
        let digits = if s@ == seq![c] && c != '+' {
            s@
        } else {
            s@.skip(1)
        };
        if s@ == seq!['+', c] || c != '+' {
            assert(digits =~= seq![c]);
            assert(digits.drop_last() =~= seq![]);
            assert(scanned(digits.drop_last(), radix as nat, max as nat) == Ok::<nat, NumberFault>(
                0,
            ));
            assert(0 * radix == 0);
        }
    }
}

/// Each fault is put into its own words.
pub proof fn each_fault_has_its_words(f: NumberFault, words: &'static str)
    requires
        call_ensures(NumberFault::as_str, (&f,), words),
    ensures
        f is Empty ==> words@ == "cannot parse integer from empty string"@,
        f is InvalidDigit ==> words@ == "invalid digit found in string"@,
        f is TooLarge ==> words@ == "number too large to fit in target type"@,
{
}

} // verus!
