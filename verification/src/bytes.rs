//! Big-endian numbers as bytes.
use vstd::arithmetic::div_mod::lemma_div_denominator;
use vstd::arithmetic::power::{lemma_pow0, lemma_pow_positive, pow};
use vstd::prelude::*;

verus! {

/// The lowest `n` bytes of a number, most significant first.
pub open spec fn be_bytes(v: nat, n: nat) -> Seq<u8>
    decreases n,
{
    if n == 0 {
        seq![]
    } else {
        be_bytes(v / 256, (n - 1) as nat).push((v % 256) as u8)
    }
}

/// The number a run of bytes stands for, most significant first.
pub open spec fn be_value(s: Seq<u8>) -> nat
    decreases s.len(),
{
    if s.len() == 0 {
        0
    } else {
        be_value(s.drop_last()) * 256 + s.last() as nat
    }
}

/// 256 to the power `n`.
pub open spec fn byte_span(n: nat) -> nat
    decreases n,
{
    if n == 0 {
        1
    } else {
        256 * byte_span((n - 1) as nat)
    }
}

/// Writing a number in `n` bytes and reading it back gives the number, where
/// it fits.
pub proof fn be_round_trip(v: nat, n: nat)
    requires
        v < byte_span(n),
    ensures
        be_bytes(v, n).len() == n,
        be_value(be_bytes(v, n)) == v,
    decreases n,
{
    if n > 0 {
        let m = (n - 1) as nat;
        assert(v / 256 < byte_span(m));
        be_round_trip(v / 256, m);
        assert(be_bytes(v, n).drop_last() =~= be_bytes(v / 256, m));
    }
}

/// A number in `n` bytes takes `n` bytes.
pub proof fn be_bytes_len(v: nat, n: nat)
    ensures
        be_bytes(v, n).len() == n,
    decreases n,
{
    if n > 0 {
        be_bytes_len(v / 256, (n - 1) as nat);
    }
}

/// Reading bytes and writing the number back gives the bytes.
pub proof fn be_value_round_trip(s: Seq<u8>)
    ensures
        be_value(s) < byte_span(s.len()),
        be_bytes(be_value(s), s.len()) == s,
    decreases s.len(),
{
    if s.len() > 0 {
        let front = s.drop_last();
        be_value_round_trip(front);
        let v = be_value(s);
        assert(v / 256 == be_value(front));
        assert(v % 256 == s.last() as nat);
        assert(be_bytes(v, s.len()) =~= s);
    }
}

/// The lowest `n` bytes of a number, most significant first.
pub fn big_endian(v: u128, n: usize) -> (r: Vec<u8>)
    ensures
        r@ == be_bytes(v as nat, n as nat),
{
    let mut back: Vec<u8> = Vec::new();
    let mut rest: u128 = v;
    let mut left: usize = n;
    let ghost whole = be_bytes(v as nat, n as nat);
    assert(whole =~= whole + back@.reverse());
    while left > 0
        invariant
            whole =~= be_bytes(rest as nat, left as nat) + back@.reverse(),
        decreases left,
    {
        let ghost before = back@;
        let ghost r0 = rest as nat;
        let ghost l0 = left as nat;
        back.push((rest % 256) as u8);
        rest = rest / 256;
        left -= 1;
        assert(back@.reverse() =~= seq![(r0 % 256) as u8] + before.reverse());
        assert(be_bytes(rest as nat, left as nat) + back@.reverse() =~= be_bytes(r0, l0)
            + before.reverse());
    }
    let mut out: Vec<u8> = Vec::new();
    let mut i: usize = back.len();
    while i > 0
        invariant
            i <= back.len(),
            out@ == back@.reverse().take(back.len() - i),
        decreases i,
    {
        i -= 1;
        out.push(back[i]);
        assert(back@.reverse().take(back.len() - i) =~= back@.reverse().take(
            back.len() - i - 1,
        ).push(back@[i as int]));
    }
    assert(out@ =~= whole);
    out
}

/// The byte at a place is what is left of the number above the places behind it.
pub proof fn each_byte_has_its_place(v: u128, n: usize, r: Vec<u8>, i: int)
    requires
        call_ensures(big_endian, (v, n), r),
        0 <= i < n,
    ensures
        r@.len() == n,
        r@[i] as int == (v as int / pow(256, (n - 1 - i) as nat)) % 256,
{
    be_bytes_len(v as nat, n as nat);
    byte_at_place(v as nat, n as nat, i);
}

/// The byte at a place.
proof fn byte_at_place(v: nat, n: nat, i: int)
    requires
        0 <= i < n,
    ensures
        be_bytes(v, n)[i] as int == (v as int / pow(256, (n - 1 - i) as nat)) % 256,
    decreases n,
{
    let m = (n - 1) as nat;
    be_bytes_len(v / 256, m);
    if i == n - 1 {
        lemma_pow0(256);
        assert(be_bytes(v, n).last() == (v % 256) as u8);
    } else {
        byte_at_place(v / 256, m, i);
        let k = (m - 1 - i) as nat;
        lemma_pow_positive(256, k);
        assert(pow(256, k + 1) == 256 * pow(256, k)) by {
            reveal(pow);
        }
        lemma_div_denominator(v as int, 256, pow(256, k));
        assert(be_bytes(v, n)[i] == be_bytes(v / 256, m)[i]);
    }
}

} // verus!
