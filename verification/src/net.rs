//! IP addresses and endpoints, their order, and how they are written.
use crate::bytes::{be_bytes, big_endian};
use crate::text::{decimal, decimal_text, hex_text, hexadecimal};
use vstd::prelude::*;
use vstd::string::*;

verus! {

/// An IP address, held as the number its octets make up, most significant
/// octet first.
#[derive(Debug, Clone, Copy, PartialEq, Eq, Structural)]
pub enum IpAddr {
    /// An IPv4 address.
    V4(u32),
    /// An IPv6 address.
    V6(u128),
}

/// An address and a port.
#[derive(Debug, Clone, Copy, PartialEq, Eq, Structural)]
pub struct SocketAddr {
    /// The address.
    pub ip: IpAddr,
    /// The port.
    pub port: u16,
}

impl IpAddr {
    /// The address with these four octets.
    pub fn v4(a: u8, b: u8, c: u8, d: u8) -> (r: IpAddr)
        ensures
            r == IpAddr::V4(
                (a as nat * 0x100_0000 + b as nat * 0x1_0000 + c as nat * 0x100 + d as nat) as u32,
            ),
    {
        IpAddr::V4(a as u32 * 0x100_0000 + b as u32 * 0x1_0000 + c as u32 * 0x100 + d as u32)
    }

    /// The octets of the address, in order.
    pub open spec fn octets(self) -> Seq<u8> {
        match self {
            IpAddr::V4(v) => be_bytes(v as nat, 4),
            IpAddr::V6(v) => be_bytes(v as nat, 16),
        }
    }

    /// Whether this address sorts no later than `other`: every IPv4 address
    /// before every IPv6 one, and octet by octet within a family.
    pub open spec fn le_spec(self, other: IpAddr) -> bool {
        match (self, other) {
            (IpAddr::V4(a), IpAddr::V4(b)) => a <= b,
            (IpAddr::V4(_), IpAddr::V6(_)) => true,
            (IpAddr::V6(_), IpAddr::V4(_)) => false,
            (IpAddr::V6(a), IpAddr::V6(b)) => a <= b,
        }
    }

    /// Whether this address sorts no later than `other`.
    pub fn le(&self, other: &IpAddr) -> (r: bool)
        ensures
            r == self.le_spec(*other),
    {
        match (self, other) {
            (IpAddr::V4(a), IpAddr::V4(b)) => *a <= *b,
            (IpAddr::V4(_), IpAddr::V6(_)) => true,
            (IpAddr::V6(_), IpAddr::V4(_)) => false,
            (IpAddr::V6(a), IpAddr::V6(b)) => *a <= *b,
        }
    }

    /// The octets of the address, in order.
    pub fn octet_vec(&self) -> (r: Vec<u8>)
        ensures
            r@ == self.octets(),
    {
        match self {
            IpAddr::V4(v) => big_endian(*v as u128, 4),
            IpAddr::V6(v) => big_endian(*v, 16),
        }
    }

    /// Whether this is an IPv6 address.
    pub open spec fn is_v6_spec(self) -> bool {
        self is V6
    }

    /// Whether this is an IPv6 address.
    pub fn is_v6(&self) -> (r: bool)
        ensures
            r == self.is_v6_spec(),
    {
        match self {
            IpAddr::V4(_) => false,
            IpAddr::V6(_) => true,
        }
    }

    /// The address as it is written.
    pub fn to_text(&self) -> (r: String)
        ensures
            r@ == ip_text(*self),
    {
        match self {
            IpAddr::V4(v) => ipv4_string(*v),
            IpAddr::V6(v) => ipv6_string(*v),
        }
    }
}

impl SocketAddr {
    /// The endpoint as it is written: an IPv6 address stands in brackets.
    pub fn to_text(&self) -> (r: String)
        ensures
            r@ == endpoint_text(self.ip, self.port),
    {
        endpoint_string(&self.ip, self.port)
    }
}

/// Octet number `i` of four, the most significant being number 0.
pub open spec fn octet4(v: u32, i: int) -> nat {
    if i == 0 {
        (v / 0x100_0000) as nat
    } else if i == 1 {
        (v / 0x1_0000 % 0x100) as nat
    } else if i == 2 {
        (v / 0x100 % 0x100) as nat
    } else {
        (v % 0x100) as nat
    }
}

/// An IPv4 address as it is written: four decimal octets with dots between.
pub open spec fn ipv4_text(v: u32) -> Seq<char> {
    decimal_text(octet4(v, 0)) + seq!['.'] + decimal_text(octet4(v, 1)) + seq!['.'] + decimal_text(
        octet4(v, 2),
    ) + seq!['.'] + decimal_text(octet4(v, 3))
}

/// An IPv4 address as it is written.
fn ipv4_string(v: u32) -> (r: String)
    ensures
        r@ == ipv4_text(v),
{
    let mut out = decimal((v / 0x100_0000) as u64);
    out.push('.');
    out.append(decimal((v / 0x1_0000 % 0x100) as u64).as_str());
    out.push('.');
    out.append(decimal((v / 0x100 % 0x100) as u64).as_str());
    out.push('.');
    out.append(decimal((v % 0x100) as u64).as_str());
    assert(out@ =~= ipv4_text(v));
    out
}

/// The sixteen-bit groups of an IPv6 address, the most significant first, from
/// the last `n` of them.
pub open spec fn groups(v: nat, n: nat) -> Seq<u16>
    decreases n,
{
    if n == 0 {
        seq![]
    } else {
        groups(v / 0x1_0000, (n - 1) as nat).push((v % 0x1_0000) as u16)
    }
}

/// How many groups from `i` on are zero without a break.
pub open spec fn zeros_from(g: Seq<u16>, i: int) -> nat
    decreases g.len() - i,
{
    if i < 0 || i >= g.len() || g[i] != 0 {
        0
    } else {
        1 + zeros_from(g, i + 1)
    }
}

/// Of the places before `k`, the first with the longest run of zero groups.
pub open spec fn longest_zeros(g: Seq<u16>, k: nat) -> int
    decreases k,
{
    if k <= 1 {
        0
    } else {
        let best = longest_zeros(g, (k - 1) as nat);
        if zeros_from(g, k - 1) > zeros_from(g, best) {
            k - 1
        } else {
            best
        }
    }
}

/// Groups in hexadecimal with colons between.
pub open spec fn groups_text(g: Seq<u16>) -> Seq<char>
    decreases g.len(),
{
    if g.len() == 0 {
        seq![]
    } else if g.len() == 1 {
        hex_text(g[0] as nat)
    } else {
        groups_text(g.drop_last()) + seq![':'] + hex_text(g.last() as nat)
    }
}

/// An IPv6 address as it is written. One that maps an IPv4 address shows it in
/// dotted form; otherwise the first longest run of at least two zero groups is
/// written as two colons.
pub open spec fn ipv6_text(v: u128) -> Seq<char> {
    let g = groups(v as nat, 8);
    let at = longest_zeros(g, 8);
    let run = zeros_from(g, at) as int;
    if v / 0x1_0000_0000 == 0xFFFF {
        "::ffff:"@ + ipv4_text((v % 0x1_0000_0000) as u32)
    } else if run > 1 {
        groups_text(g.take(at)) + "::"@ + groups_text(g.skip(at + run))
    } else {
        groups_text(g)
    }
}

/// An address as it is written.
pub open spec fn ip_text(a: IpAddr) -> Seq<char> {
    match a {
        IpAddr::V4(v) => ipv4_text(v),
        IpAddr::V6(v) => ipv6_text(v),
    }
}

/// An endpoint as it is written.
pub open spec fn endpoint_text(a: IpAddr, port: u16) -> Seq<char> {
    match a {
        IpAddr::V4(v) => ipv4_text(v) + seq![':'] + decimal_text(port as nat),
        IpAddr::V6(v) => seq!['['] + ipv6_text(v) + seq![']', ':'] + decimal_text(port as nat),
    }
}

/// An endpoint as it is written.
pub fn endpoint_string(a: &IpAddr, port: u16) -> (r: String)
    ensures
        r@ == endpoint_text(*a, port),
{
    let mut out = String::new();
    if a.is_v6() {
        out.push('[');
    }
    out.append(a.to_text().as_str());
    if a.is_v6() {
        out.push(']');
    }
    out.push(':');
    out.append(decimal(port as u64).as_str());
    assert(out@ =~= endpoint_text(*a, port));
    out
}

/// The sixteen-bit groups of an IPv6 address.
fn group_vec(v: u128) -> (r: Vec<u16>)
    ensures
        r@ == groups(v as nat, 8),
        r@.len() == 8,
{
    reveal_with_fuel(groups, 9);
    let mut g: Vec<u16> = Vec::new();
    let a: u128 = v / 0x1_0000;
    let b: u128 = a / 0x1_0000;
    let c: u128 = b / 0x1_0000;
    let d: u128 = c / 0x1_0000;
    let e: u128 = d / 0x1_0000;
    let f: u128 = e / 0x1_0000;
    let h: u128 = f / 0x1_0000;
    g.push((h % 0x1_0000) as u16);
    g.push((f % 0x1_0000) as u16);
    g.push((e % 0x1_0000) as u16);
    g.push((d % 0x1_0000) as u16);
    g.push((c % 0x1_0000) as u16);
    g.push((b % 0x1_0000) as u16);
    g.push((a % 0x1_0000) as u16);
    g.push((v % 0x1_0000) as u16);
    assert(g@ =~= groups(v as nat, 8));
    g
}

/// Length of the run of zero groups from `i` on.
fn zero_run(g: &[u16], i: usize) -> (n: usize)
    requires
        i <= g.len(),
    ensures
        n == zeros_from(g@, i as int),
        i + n <= g.len(),
{
    let mut n: usize = 0;
    while i + n < g.len() && g[i + n] == 0
        invariant
            i + n <= g.len(),
            zeros_from(g@, i as int) == n + zeros_from(g@, i + n),
        decreases g.len() - i - n,
    {
        n += 1;
    }
    n
}

/// Groups in hexadecimal with colons between.
fn groups_string(g: &[u16], from: usize, to: usize) -> (r: String)
    requires
        from <= to <= g.len(),
    ensures
        r@ == groups_text(g@.subrange(from as int, to as int)),
{
    let mut out = String::new();
    let mut i: usize = from;
    assert(g@.subrange(from as int, from as int) =~= Seq::<u16>::empty());
    while i < to
        invariant
            from <= i <= to <= g.len(),
            out@ == groups_text(g@.subrange(from as int, i as int)),
        decreases to - i,
    {
        let ghost part = g@.subrange(from as int, i + 1);
        assert(part.drop_last() =~= g@.subrange(from as int, i as int));
        assert(part.last() == g@[i as int]);
        if i > from {
            out.push(':');
        }
        out.append(hexadecimal(g[i] as u64).as_str());
        assert(out@ =~= groups_text(part));
        i += 1;
    }
    out
}

/// An IPv6 address as it is written.
fn ipv6_string(v: u128) -> (r: String)
    ensures
        r@ == ipv6_text(v),
{
    if v / 0x1_0000_0000 == 0xFFFF {
        let mut out = String::from_str("::ffff:");
        out.append(ipv4_string((v % 0x1_0000_0000) as u32).as_str());
        return out;
    }
    let g = group_vec(v);
    let mut at: usize = 0;
    let mut run: usize = zero_run(&g, 0);
    let mut k: usize = 1;
    while k < 8
        invariant
            1 <= k <= 8,
            g@.len() == 8,
            at < k,
            at == longest_zeros(g@, k as nat),
            run == zeros_from(g@, at as int),
            at + run <= 8,
        decreases 8 - k,
    {
        let here: usize = zero_run(&g, k);
        if here > run {
            at = k;
            run = here;
        }
        k += 1;
    }
    if run > 1 {
        let mut out = groups_string(&g, 0, at);
        out.append("::");
        out.append(groups_string(&g, at + run, 8).as_str());
        assert(g@.subrange(0, at as int) =~= g@.take(at as int));
        assert(g@.subrange(at + run, 8) =~= g@.skip(at + run));
        out
    } else {
        assert(g@.subrange(0, 8) =~= g@);
        groups_string(&g, 0, 8)
    }
}

/// Whether an address is the IPv4 broadcast address or a multicast one:
/// 224.0.0.0/4, or ff00::/8.
pub open spec fn broadcast_or_multicast(a: IpAddr) -> bool {
    match a {
        IpAddr::V4(v) => v == 0xFFFF_FFFF || v / 0x1000_0000 == 0xE,
        IpAddr::V6(v) => v / 0x100_0000_0000_0000_0000_0000_0000_0000 == 0xFF,
    }
}

/// Whether an address is the IPv4 broadcast address or a multicast one.
pub fn is_broadcast_or_multicast(a: IpAddr) -> (r: bool)
    ensures
        r == broadcast_or_multicast(a),
{
    match a {
        IpAddr::V4(v) => v == 0xFFFF_FFFF || v / 0x1000_0000 == 0xE,
        IpAddr::V6(v) => v / 0x100_0000_0000_0000_0000_0000_0000_0000 == 0xFF,
    }
}

/// The octets of a number that is made of four of them.
proof fn octets_of_number(a: nat, b: nat, c: nat, d: nat)
    requires
        a < 256,
        b < 256,
        c < 256,
        d < 256,
    ensures
        ({
            let v = a * 0x100_0000 + b * 0x1_0000 + c * 0x100 + d;
            &&& v / 0x100_0000 == a && v / 0x1_0000 % 0x100 == b && v / 0x100 % 0x100 == c && v
                % 0x100 == d
            &&& be_bytes(v, 4) == seq![a as u8, b as u8, c as u8, d as u8]
        }),
{
    let v = a * 0x100_0000 + b * 0x1_0000 + c * 0x100 + d;
    let x = a * 0x1_0000 + b * 0x100 + c;
    let y = a * 0x100 + b;
    assert(v / 256 == x && v % 256 == d);
    assert(x / 256 == y && x % 256 == c);
    assert(y / 256 == a && y % 256 == b);
    assert(v / 0x1_0000 == y && v / 0x100_0000 == a);
    reveal_with_fuel(be_bytes, 5);
    assert(be_bytes(v, 4) =~= seq![a as u8, b as u8, c as u8, d as u8]);
}

/// The octets of an IPv4 address make it up, and it is written as them, in
/// decimal, with dots between.
pub proof fn an_address_is_written_octet_by_octet(
    a: u8,
    b: u8,
    c: u8,
    d: u8,
    r: IpAddr,
    octets: Vec<u8>,
    text: String,
)
    requires
        call_ensures(IpAddr::v4, (a, b, c, d), r),
        call_ensures(IpAddr::octet_vec, (&r,), octets),
        call_ensures(IpAddr::to_text, (&r,), text),
    ensures
        r is V4,
        octets@ == seq![a, b, c, d],
        text@ == decimal_text(a as nat) + seq!['.'] + decimal_text(b as nat) + seq!['.']
            + decimal_text(c as nat) + seq!['.'] + decimal_text(d as nat),
{
    let v = r->V4_0;
    octets_of_number(a as nat, b as nat, c as nat, d as nat);
    assert(v as nat == a as nat * 0x100_0000 + b as nat * 0x1_0000 + c as nat * 0x100 + d as nat);
    assert(octets@ =~= seq![a, b, c, d]);
}

/// An endpoint is written as its address, a colon and its port, and an IPv6
/// address stands in brackets there.
pub proof fn an_endpoint_is_its_address_and_its_port(
    a: SocketAddr,
    r: String,
    ip: String,
    six: bool,
)
    requires
        call_ensures(SocketAddr::to_text, (&a,), r),
        call_ensures(IpAddr::to_text, (&a.ip,), ip),
        call_ensures(IpAddr::is_v6, (&a.ip,), six),
    ensures
        six == (a.ip is V6),
        !six ==> r@ == ip@ + seq![':'] + decimal_text(a.port as nat),
        six ==> r@ == seq!['['] + ip@ + seq![']', ':'] + decimal_text(a.port as nat),
{
}

/// Addresses stand in one order: an IPv4 one before an IPv6 one, and within a
/// family the one whose first differing octet is the lower.
pub proof fn addresses_stand_in_one_order(a: IpAddr, b: IpAddr, r: bool, back: bool)
    requires
        call_ensures(IpAddr::le, (&a, &b), r),
        call_ensures(IpAddr::le, (&b, &a), back),
    ensures
        r || back,
        r && back ==> a == b,
        a is V4 && b is V6 ==> r && !back,
        a is V4 && b is V4 && a->V4_0 < b->V4_0 ==> r && !back,
        a is V6 && b is V6 && a->V6_0 < b->V6_0 ==> r && !back,
{
}

/// The groups of a number that is made of them.
proof fn groups_of_number(v: nat, g: Seq<u16>, n: nat)
    requires
        g.len() == n,
        v == groups_number(g),
    ensures
        groups(v, n) == g,
    decreases n,
{
    if n > 0 {
        let rest = groups_number(g.drop_last());
        assert(v == rest * 0x1_0000 + g.last());
        assert(v / 0x1_0000 == rest && v % 0x1_0000 == g.last());
        groups_of_number(rest, g.drop_last(), (n - 1) as nat);
        assert(g.drop_last().push(g.last()) =~= g);
    } else {
        assert(g =~= seq![]);
    }
}

/// The number that sixteen-bit groups make up, the most significant first.
pub open spec fn groups_number(g: Seq<u16>) -> nat
    decreases g.len(),
{
    if g.len() == 0 {
        0
    } else {
        groups_number(g.drop_last()) * 0x1_0000 + g.last() as nat
    }
}

/// Whether so many groups from a place on are all zero.
pub open spec fn all_zero(g: Seq<u16>, at: int, n: int) -> bool {
    &&& 0 <= at && 0 <= n && at + n <= g.len()
    &&& forall|i: int| at <= i < at + n ==> #[trigger] g[i] == 0
}

/// A run of zeros is as long as it can be.
proof fn zeros_are(g: Seq<u16>, at: int)
    requires
        0 <= at <= g.len(),
    ensures
        all_zero(g, at, zeros_from(g, at) as int),
        forall|n: int| #[trigger] all_zero(g, at, n) ==> n <= zeros_from(g, at),
    decreases g.len() - at,
{
    if at < g.len() && g[at] == 0 {
        zeros_are(g, at + 1);
        assert forall|n: int| #[trigger] all_zero(g, at, n) implies n <= zeros_from(g, at) by {
            if n > 0 {
                assert(all_zero(g, at + 1, n - 1));
            }
        }
        let m = zeros_from(g, at + 1) as int;
        assert forall|i: int| at <= i < at + 1 + m implies #[trigger] g[i] == 0 by {
            if i > at {
                assert(all_zero(g, at + 1, m));
            }
        }
    } else {
        assert forall|n: int| #[trigger] all_zero(g, at, n) implies n <= zeros_from(g, at) by {
            if n > 0 {
                assert(g[at] == 0);
            }
        }
    }
}

/// The place with the longest run of zeros is the first such place.
proof fn longest_is(g: Seq<u16>, k: nat)
    requires
        1 <= k <= g.len(),
    ensures
        0 <= longest_zeros(g, k) < k,
        forall|i: int|
            0 <= i < k ==> #[trigger] zeros_from(g, i) <= zeros_from(g, longest_zeros(g, k)),
        forall|i: int|
            0 <= i < longest_zeros(g, k) ==> #[trigger] zeros_from(g, i) < zeros_from(
                g,
                longest_zeros(g, k),
            ),
    decreases k,
{
    if k > 1 {
        longest_is(g, (k - 1) as nat);
    }
}

/// An IPv6 address is written group by group in hexadecimal, and the longest run
/// of two or more zero groups, the first of equally long ones, as two colons.
pub proof fn the_longest_zeros_are_left_out(a: IpAddr, g: Seq<u16>, at: int, n: int, text: String)
    requires
        call_ensures(IpAddr::to_text, (&a,), text),
        g.len() == 8,
        a matches IpAddr::V6(v) && v == groups_number(g) && v / 0x1_0000_0000 != 0xFFFF,
        n >= 2,
        all_zero(g, at, n),
        forall|i: int, m: int| #[trigger] all_zero(g, i, m) ==> m < n || (m == n && i >= at),
    ensures
        text@ == groups_text(g.take(at)) + "::"@ + groups_text(g.skip(at + n)),
{
    let v = a->V6_0;
    groups_of_number(v as nat, g, 8);
    longest_is(g, 8);
    let best = longest_zeros(g, 8);
    zeros_are(g, best);
    zeros_are(g, at);
    assert(all_zero(g, best, zeros_from(g, best) as int));
    assert(zeros_from(g, at) >= n);
    assert(zeros_from(g, best) >= zeros_from(g, at));
    assert(zeros_from(g, best) == n && best == at);
}

/// An address without two zero groups side by side is written in full.
pub proof fn an_address_without_a_run_is_written_in_full(a: IpAddr, g: Seq<u16>, text: String)
    requires
        call_ensures(IpAddr::to_text, (&a,), text),
        g.len() == 8,
        a matches IpAddr::V6(v) && v == groups_number(g) && v / 0x1_0000_0000 != 0xFFFF,
        forall|i: int| 0 <= i < 7 ==> #[trigger] g[i] != 0 || g[i + 1] != 0,
    ensures
        text@ == hex_text(g[0] as nat) + seq![':'] + hex_text(g[1] as nat) + seq![':'] + hex_text(
            g[2] as nat,
        ) + seq![':'] + hex_text(g[3] as nat) + seq![':'] + hex_text(g[4] as nat) + seq![':']
            + hex_text(g[5] as nat) + seq![':'] + hex_text(g[6] as nat) + seq![':'] + hex_text(
            g[7] as nat,
        ),
{
    let v = a->V6_0;
    groups_of_number(v as nat, g, 8);
    longest_is(g, 8);
    let best = longest_zeros(g, 8);
    zeros_are(g, best);
    let n = zeros_from(g, best) as int;
    if n > 1 {
        assert(g[best] == 0 && g[best + 1] == 0);
    }
    reveal_with_fuel(groups_text, 9);
    assert(g.drop_last() =~= g.take(7));
    assert(g.take(7).drop_last() =~= g.take(6));
    assert(g.take(6).drop_last() =~= g.take(5));
    assert(g.take(5).drop_last() =~= g.take(4));
    assert(g.take(4).drop_last() =~= g.take(3));
    assert(g.take(3).drop_last() =~= g.take(2));
    assert(g.take(2).drop_last() =~= g.take(1));
    assert(g.take(1)[0] == g[0]);
}

/// An address that maps an IPv4 one shows that one, dotted.
pub proof fn a_mapped_address_shows_the_other(a: IpAddr, v: u32, text: String, four: String)
    requires
        a matches IpAddr::V6(n) && n == 0xFFFF_0000_0000 + v,
        call_ensures(IpAddr::to_text, (&a,), text),
        call_ensures(IpAddr::to_text, (&IpAddr::V4(v),), four),
    ensures
        text@ == "::ffff:"@ + four@,
{
    let n = a->V6_0;
    assert(n / 0x1_0000_0000 == 0xFFFF && n % 0x1_0000_0000 == v);
}

} // verus!
