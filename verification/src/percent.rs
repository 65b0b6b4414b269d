//! Shares in percent, with the rounding that 53-bit binary fractions have.
//!
//! A share is worked out the way double-precision arithmetic does it: each
//! count, the count times one hundred, and the quotient are each rounded to 53
//! significant bits, ties to even, and the result is rounded to tenths.
use crate::text::{decimal_text, decimal_wide, digit_char};
use vstd::prelude::*;
use vstd::string::*;

verus! {

/// Two to the power of fifty-three.
pub const TWO_53: u128 = 9_007_199_254_740_992;

/// Two to the power of fifty-two.
pub const TWO_52: u128 = 4_503_599_627_370_496;

/// The integer nearest to `n / d`; of two equally near, the even one.
pub open spec fn half_even(n: nat, d: nat) -> nat {
    let q = n / d;
    let r = n % d;
    if 2 * r > d || (2 * r == d && q % 2 == 1) {
        q + 1
    } else {
        q
    }
}

/// The least power of two, from `unit` on, in which `n / d` takes no more than
/// 53 bits.
pub open spec fn unit_for(n: nat, d: nat, unit: nat) -> nat
    decreases 2 * n - unit,
{
    if d == 0 || unit == 0 || n < TWO_53 * d * unit {
        unit
    } else {
        proof {
            assert(TWO_53 * d * unit >= unit) by (nonlinear_arith)
                requires
                    d > 0,
            ;
        }
        unit_for(n, d, 2 * unit)
    }
}

/// The least power of two, from `scale` on, by which `n / d` has to be
/// multiplied to take 53 bits.
pub open spec fn scale_for(n: nat, d: nat, scale: nat) -> nat
    decreases 2 * TWO_52 * d - n * scale,
{
    if n == 0 || scale == 0 || n * scale >= TWO_52 * d {
        scale
    } else {
        proof {
            assert(n * scale > 0) by (nonlinear_arith)
                requires
                    n > 0,
                    scale > 0,
            ;
            assert(n * (2 * scale) == 2 * (n * scale)) by (nonlinear_arith);
            assert(2 * TWO_52 * d == 2 * (TWO_52 * d)) by (nonlinear_arith);
        }
        scale_for(n, d, 2 * scale)
    }
}

/// An integer rounded to 53 significant bits.
pub open spec fn round_53(n: nat) -> nat {
    let unit = unit_for(n, 1, 1);
    half_even(n, unit) * unit
}

/// The quotient `n / d` rounded to 53 significant bits, as a fraction.
pub open spec fn quotient_53(n: nat, d: nat) -> (nat, nat) {
    if n >= TWO_53 * d {
        let unit = unit_for(n, d, 1);
        (half_even(n, d * unit) * unit, 1)
    } else {
        let scale = scale_for(n, d, 1);
        (half_even(n * scale, d), scale)
    }
}

/// The share of `part` in `whole`, in percent, as a fraction.
pub open spec fn percent(part: nat, whole: nat) -> (nat, nat) {
    quotient_53(round_53(100 * round_53(part)), round_53(whole))
}

/// The integer nearest to `n / d`, ties to even.
fn nearest(n: u128, d: u128) -> (r: u128)
    requires
        0 < d <= u128::MAX / 2,
        n < u128::MAX,
    ensures
        r == half_even(n as nat, d as nat),
{
    let q: u128 = n / d;
    let rem: u128 = n % d;
    if 2 * rem > d || (2 * rem == d && q % 2 == 1) {
        q + 1
    } else {
        q
    }
}

/// The least power of two in which `n / d` takes no more than 53 bits.
fn find_unit(n: u128, d: u128) -> (r: u128)
    requires
        0 < d <= 0x4_0000_0000_0000_0000,
        n <= 0x400_0000_0000_0000_0000,
    ensures
        r == unit_for(n as nat, d as nat, 1),
        0 < r <= 0x800_0000_0000_0000_0000,
        n < TWO_53 * d * r,
        r == 1 || TWO_53 * d * r <= 2 * n,
{
    let mut unit: u128 = 1;
    let mut bound: u128 = TWO_53 * d;
    while n >= bound
        invariant
            0 < d <= 0x4_0000_0000_0000_0000,
            n <= 0x400_0000_0000_0000_0000,
            bound == TWO_53 * d * unit,
            0 < unit,
            unit_for(n as nat, d as nat, 1) == unit_for(n as nat, d as nat, unit as nat),
            unit == 1 || bound <= 2 * n,
        decreases 2 * n - unit,
    {
        assert(TWO_53 * d * unit >= unit) by (nonlinear_arith)
            requires
                d > 0,
        ;
        assert(TWO_53 * d * (2 * unit) == 2 * (TWO_53 * d * unit)) by (nonlinear_arith);
        bound = 2 * bound;
        unit = 2 * unit;
    }
    assert(TWO_53 * d * unit >= unit) by (nonlinear_arith)
        requires
            d > 0,
    ;
    unit
}

/// The least power of two by which `n / d` has to be multiplied to take 53
/// bits.
fn find_scale(n: u128, d: u128) -> (r: u128)
    requires
        0 < n,
        n < TWO_53 * d,
        0 < d <= 0x4_0000_0000_0000_0000,
    ensures
        r == scale_for(n as nat, d as nat, 1),
        0 < r,
        n * r < TWO_53 * d,
        n * r >= TWO_52 * d,
        r < TWO_53 * d,
{
    let floor: u128 = TWO_52 * d;
    let mut scale: u128 = 1;
    let mut scaled: u128 = n;
    while scaled < floor
        invariant
            0 < n,
            0 < d <= 0x4_0000_0000_0000_0000,
            floor == TWO_52 * d,
            0 < scale,
            scaled == n * scale,
            scaled < TWO_53 * d,
            scale <= scaled,
            scale_for(n as nat, d as nat, 1) == scale_for(n as nat, d as nat, scale as nat),
        decreases 2 * floor - scaled,
    {
        assert(n * (2 * scale) == 2 * (n * scale)) by (nonlinear_arith);
        scaled = 2 * scaled;
        scale = 2 * scale;
    }
    scale
}

/// An integer rounded to 53 significant bits.
fn rounded(n: u128) -> (r: u128)
    requires
        n <= 0x400_0000_0000_0000_0000,
    ensures
        r == round_53(n as nat),
        r <= 2 * n,
        n > 0 ==> r > 0,
{
    let unit: u128 = find_unit(n, 1);
    let m: u128 = nearest(n, unit);
    proof {
        let q = n as int / unit as int;
        assert(q * unit + n as int % unit as int == n) by (nonlinear_arith)
            requires
                unit > 0,
                q == n as int / unit as int,
        ;
        if unit == 1 {
            vstd::arithmetic::div_mod::lemma_div_basics(n as int);
            vstd::arithmetic::div_mod::lemma_fundamental_div_mod(n as int, 1);
            assert(half_even(n as nat, 1) == n);
        } else {
            assert(unit <= n) by (nonlinear_arith)
                requires
                    TWO_53 * 1 * unit <= 2 * n,
                    TWO_53 == 9_007_199_254_740_992,
            ;
            assert(q >= 1) by (nonlinear_arith)
                requires
                    q == n as int / unit as int,
                    0 < unit <= n,
            ;
            assert(m * unit <= (q + 1) * unit) by (nonlinear_arith)
                requires
                    m <= q + 1,
                    unit > 0,
            ;
            assert((q + 1) * unit == q * unit + unit) by (nonlinear_arith);
            assert(m * unit >= unit) by (nonlinear_arith)
                requires
                    m >= 1,
                    unit > 0,
            ;
        }
        assert(m * unit <= 2 * n);
    }
    m * unit
}

/// The quotient `n / d` rounded to 53 significant bits, as a fraction whose
/// denominator is a power of two.
fn rounded_quotient(n: u128, d: u128) -> (r: (u128, u128))
    requires
        0 < d <= 0x4_0000_0000_0000_0000,
        0 < n <= 0x400_0000_0000_0000_0000,
    ensures
        r.0 == quotient_53(n as nat, d as nat).0,
        r.1 == quotient_53(n as nat, d as nat).1,
        r.0 <= 0x1000_0000_0000_0000_0000,
        0 < r.1 <= 0x80_0000_0000_0000_0000_0000_0000_0000,
{
    if n >= TWO_53 * d {
        let unit: u128 = find_unit(n, d);
        proof {
            assert(d * unit <= n) by (nonlinear_arith)
                requires
                    unit == 1 || TWO_53 * d * unit <= 2 * n,
                    unit == 1 ==> d * unit <= n,
                    TWO_53 == 9_007_199_254_740_992,
            ;
            assert(d * unit > 0) by (nonlinear_arith)
                requires
                    d > 0,
                    unit > 0,
            ;
        }
        let step: u128 = d * unit;
        let m: u128 = nearest(n, step);
        proof {
            let q = n as int / step as int;
            assert(q * step <= n) by (nonlinear_arith)
                requires
                    q == n as int / step as int,
                    step > 0,
            ;
            assert((q + 1) * unit <= 2 * n) by (nonlinear_arith)
                requires
                    q * step <= n,
                    step == d * unit,
                    step <= n,
                    d >= 1,
                    q >= 0,
                    unit >= 0,
            ;
            assert(m * unit <= (q + 1) * unit) by (nonlinear_arith)
                requires
                    m <= q + 1,
                    unit > 0,
            ;
        }
        (m * unit, 1)
    } else {
        let scale: u128 = find_scale(n, d);
        let m: u128 = nearest(n * scale, d);
        proof {
            let a = (n * scale) as int;
            assert(a / d as int <= TWO_53) by (nonlinear_arith)
                requires
                    0 <= a < TWO_53 * d,
                    d > 0,
            ;
            assert(TWO_53 * d <= 0x80_0000_0000_0000_0000_0000_0000_0000) by (nonlinear_arith)
                requires
                    0 < d <= 0x4_0000_0000_0000_0000,
                    TWO_53 == 9_007_199_254_740_992,
            ;
        }
        (m, scale)
    }
}

/// The share of `part` in `whole` to a tenth of a percent: the nearest tenth
/// of a 53-bit percentage, ties to even.
pub open spec fn share_tenths(part: nat, whole: nat) -> nat {
    let (n, d) = percent(part, whole);
    half_even(10 * n, d)
}

/// Whether a share reaches half.
pub open spec fn reaches_half(part: nat, whole: nat) -> bool {
    let (n, d) = percent(part, whole);
    n >= 50 * d
}

/// A count of tenths as a decimal number with one place.
pub open spec fn tenths_text(tenths: nat) -> Seq<char> {
    decimal_text(tenths / 10).push('.').push(digit_char(tenths % 10))
}

/// The share of `part` in `whole` in percent, to one place, and whether it
/// reaches half.
pub fn share(part: u64, whole: u64) -> (r: (String, bool))
    requires
        part > 0,
        whole > 0,
    ensures
        r.0@ == tenths_text(share_tenths(part as nat, whole as nat)),
        r.1 == reaches_half(part as nat, whole as nat),
{
    let p: u128 = rounded(part as u128);
    let y: u128 = rounded(100 * p);
    let w: u128 = rounded(whole as u128);
    let (n, d) = rounded_quotient(y, w);
    let tenths: u128 = nearest(10 * n, d);
    let mut text = decimal_wide(tenths / 10);
    text.push('.');
    text.push((48 + (tenths % 10) as u8) as char);
    (text, n >= 50 * d)
}

/// Where scaling a quotient leads.
proof fn scale_bounds(n: nat, d: nat, scale: nat)
    requires
        n > 0,
        d > 0,
        scale > 0,
        n * scale < TWO_53 * d,
    ensures
        scale_for(n, d, scale) > 0,
        TWO_52 * d <= n * scale_for(n, d, scale),
    decreases 2 * TWO_52 * d - n * scale,
{
    if n * scale < TWO_52 * d {
        assert(n * scale > 0) by (nonlinear_arith)
            requires
                n > 0,
                scale > 0,
        ;
        assert(n * (2 * scale) == 2 * (n * scale)) by (nonlinear_arith);
        scale_bounds(n, d, 2 * scale);
    }
}

/// A count that takes no more than 53 bits is not rounded.
proof fn small_counts_stay(n: nat)
    requires
        n < TWO_53,
    ensures
        round_53(n) == n,
{
    assert(unit_for(n, 1, 1) == 1);
    assert(n / 1 == n && n % 1 == 0);
    assert(half_even(n, 1) == n);
    assert(half_even(n, 1) * 1 == n);
}

/// A share reaches half exactly where twice the part is the whole or more, for
/// all counts whose hundredfold takes no more than 53 bits: rounding never
/// moves a share across the line.
pub proof fn half_is_exactly_half(part: nat, whole: nat)
    requires
        0 < part,
        0 < whole < TWO_53,
        100 * part < TWO_53,
    ensures
        reaches_half(part, whole) <==> 2 * part >= whole,
{
    let n = 100 * part;
    small_counts_stay(part);
    small_counts_stay(n);
    small_counts_stay(whole);
    assert(n < TWO_53 * whole) by (nonlinear_arith)
        requires
            n < TWO_53,
            whole >= 1,
    ;
    scale_bounds(n, whole, 1);
    let s = scale_for(n, whole, 1);
    let a = n * s;
    let q = a / whole;
    let r = a % whole;
    assert(a == q * whole + r) by {
        vstd::arithmetic::div_mod::lemma_fundamental_div_mod(a as int, whole as int);
        assert(q * whole == whole * q) by (nonlinear_arith);
    }
    let m = half_even(a, whole);
    if 2 * part >= whole {
        assert(a >= 50 * s * whole) by (nonlinear_arith)
            requires
                a == 100 * part * s,
                2 * part >= whole,
        ;
        assert(q >= 50 * s) by (nonlinear_arith)
            requires
                a >= 50 * s * whole,
                a == q * whole + r,
                r < whole,
                whole > 0,
        ;
    } else {
        assert(a <= 50 * s * whole - 50 * s) by (nonlinear_arith)
            requires
                a == 100 * part * s,
                2 * part <= whole - 1,
                s > 0,
        ;
        assert(100 * s > whole) by (nonlinear_arith)
            requires
                TWO_52 * whole <= a,
                a <= 50 * s * whole - 50 * s,
                s > 0,
                0 < whole < TWO_53,
                TWO_53 == 9_007_199_254_740_992,
                TWO_52 == 4_503_599_627_370_496,
        ;
        assert(q < 50 * s) by (nonlinear_arith)
            requires
                a <= 50 * s * whole - 50 * s,
                a == q * whole + r,
                s > 0,
                whole > 0,
                r >= 0,
        ;
        if q == 50 * s - 1 {
            assert(r <= whole - 50 * s) by (nonlinear_arith)
                requires
                    a <= 50 * s * whole - 50 * s,
                    a == q * whole + r,
                    q == 50 * s - 1,
            ;
        }
    }
}

/// Rounding to the nearest integer moves a fraction by no more than a half.
proof fn nearest_is(n: nat, d: nat)
    requires
        d > 0,
    ensures
        2 * (half_even(n, d) * d) <= 2 * n + d,
        2 * n <= 2 * (half_even(n, d) * d) + d,
{
    let q = n / d;
    let r = n % d;
    vstd::arithmetic::div_mod::lemma_fundamental_div_mod(n as int, d as int);
    assert(d * q == q * d) by (nonlinear_arith);
    assert((q + 1) * d == q * d + d) by (nonlinear_arith);
}

/// A share is given as the nearest tenth of a percent, and reaches half where
/// twice the part is the whole or more: for parts up to two to the power of
/// forty, in wholes that take no more than 53 bits.
pub proof fn a_share_is_the_nearest_tenth(part: u64, whole: u64, r: (String, bool))
    requires
        0 < part <= 0x100_0000_0000,
        0 < whole < 0x20_0000_0000_0000,
        call_ensures(share, (part, whole), r),
    ensures
        exists|tenths: nat|
            {
                &&& r.0@ == #[trigger] decimal_text(tenths / 10) + seq!['.'] + decimal_text(
                    tenths % 10,
                )
                &&& 2 * (tenths * whole) <= 2000 * part + whole
                &&& 2000 * part <= 2 * (tenths * whole) + whole
            },
        r.1 <==> 2 * part >= whole,
{
    half_is_exactly_half(part as nat, whole as nat);
    let n = 100 * part as nat;
    let w = whole as nat;
    small_counts_stay(part as nat);
    small_counts_stay(n);
    small_counts_stay(w);
    assert(n < TWO_53 * w) by (nonlinear_arith)
        requires
            n < TWO_53,
            w >= 1,
    ;
    scale_bounds(n, w, 1);
    let s = scale_for(n, w, 1);
    let m = half_even(n * s, w);
    let tenths = share_tenths(part as nat, whole as nat);
    assert(tenths == half_even(10 * m, s));
    nearest_is(n * s, w);
    nearest_is(10 * m, s);
    assert(s > 10 * w) by (nonlinear_arith)
        requires
            4_503_599_627_370_496 * w <= n * s,
            n <= 109_951_162_777_600,
            w > 0,
            s > 0,
    ;
    let t = tenths * w;
    assert(2 * (t * s) <= 20 * (m * w) + s * w) by (nonlinear_arith)
        requires
            2 * (tenths * s) <= 2 * (10 * m) + s,
            t == tenths * w,
    ;
    assert(20 * (m * w) <= 2 * (t * s) + s * w) by (nonlinear_arith)
        requires
            2 * (10 * m) <= 2 * (tenths * s) + s,
            t == tenths * w,
    ;
    assert(2 * (t * s) < (20 * n + w + 1) * s) by (nonlinear_arith)
        requires
            2 * (t * s) <= 20 * (m * w) + s * w,
            2 * (m * w) <= 2 * (n * s) + w,
            s > 10 * w,
    ;
    assert(2 * t < 20 * n + w + 1) by (nonlinear_arith)
        requires
            2 * (t * s) < (20 * n + w + 1) * s,
            s > 0,
    ;
    assert(20 * n * s < (2 * t + w + 1) * s) by (nonlinear_arith)
        requires
            20 * (m * w) <= 2 * (t * s) + s * w,
            2 * (n * s) <= 2 * (m * w) + w,
            s > 10 * w,
    ;
    assert(20 * n < 2 * t + w + 1) by (nonlinear_arith)
        requires
            20 * n * s < (2 * t + w + 1) * s,
            s > 0,
    ;
    assert(decimal_text(tenths % 10) =~= seq![digit_char(tenths % 10)]);
    assert(r.0@ =~= decimal_text(tenths / 10) + seq!['.'] + decimal_text(tenths % 10));
}

} // verus!
