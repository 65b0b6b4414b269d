//! SIP that was seen and not analyzed because of the port it ran on.
//!
//! The totals a run prints count what it analyzed. What it recognized as SIP
//! and left out is counted here, per service port, so that a reader of the
//! totals learns what they leave out. The counting is exact: one counter per
//! port, and a warning on the first skip and again at each power of ten.
use crate::sort::{
    in_rank_order, rank_order_is_unique, ranking, sorted, Ranked, StrictlyRanked,
};
use crate::text::{decimal, decimal_text};
use vstd::arithmetic::power::{lemma_pow0, lemma_pow_positive, pow};
use vstd::prelude::*;
use vstd::seq_lib::*;
use vstd::string::*;

verus! {

/// Whether a source or destination port falls within a range.
pub fn port_in_range(src_port: u16, dst_port: u16, range: (u16, u16)) -> (r: bool)
    ensures
        r == (range.0 <= src_port <= range.1 || range.0 <= dst_port <= range.1),
{
    let (lo, hi) = range;
    (src_port >= lo && src_port <= hi) || (dst_port >= lo && dst_port <= hi)
}

/// One port's share of the SIP that was left out.
#[derive(Debug, Clone, Copy, PartialEq, Eq, Structural)]
pub struct SkippedPort {
    /// The service port: the destination of a request, the source of a
    /// response.
    pub port: u16,
    /// SIP messages skipped on that port.
    pub messages: u64,
}

impl Ranked for SkippedPort {
    /// Busiest first; ties by port number.
    open spec fn ranks_before(self, other: Self) -> bool {
        self.messages > other.messages || (self.messages == other.messages && self.port
            <= other.port)
    }

    proof fn rank_is_total(a: Self, b: Self) {
    }

    proof fn rank_is_transitive(a: Self, b: Self, c: Self) {
    }

    fn goes_before(&self, other: &Self) -> (r: bool) {
        self.messages > other.messages || (self.messages == other.messages && self.port
            <= other.port)
    }
}

impl StrictlyRanked for SkippedPort {
    proof fn rank_is_antisymmetric(a: Self, b: Self) {
    }
}

/// How many ports there are.
pub const PORTS: usize = 65_536;

/// What a tally of skips holds.
pub ghost struct SkipState {
    /// Messages skipped altogether.
    pub messages: nat,
    /// Messages skipped per port.
    pub counts: Seq<u64>,
    /// The count at which the next warning fires.
    pub next_warn: nat,
}

/// Sum of the counts of all ports.
pub open spec fn sum(counts: Seq<u64>) -> nat
    decreases counts.len(),
{
    if counts.len() == 0 {
        0
    } else {
        sum(counts.drop_last()) + counts.last() as nat
    }
}

/// Whether a number is a power of ten.
pub open spec fn power_of_ten(n: nat) -> bool
    decreases n,
{
    n == 1 || (n >= 10 && n % 10 == 0 && power_of_ten(n / 10))
}

/// The service port of a message: a request goes to it, a response comes from
/// it.
pub open spec fn service_port(src_port: u16, dst_port: u16, payload: Seq<u8>) -> u16 {
    if is_response(payload) {
        src_port
    } else {
        dst_port
    }
}

/// Whether a message is a response: it begins with the version and a space.
pub open spec fn is_response(payload: Seq<u8>) -> bool {
    payload.len() >= 8 && payload.take(8) == response_start()
}

/// The bytes of `SIP/2.0` and a space.
pub open spec fn response_start() -> Seq<u8> {
    seq![0x53u8, 0x49, 0x50, 0x2F, 0x32, 0x2E, 0x30, 0x20]
}

/// Whether a message is a response.
pub fn starts_like_response(payload: &[u8]) -> (r: bool)
    ensures
        r == is_response(payload@),
{
    if payload.len() < 8 {
        return false;
    }
    let start: [u8; 8] = [0x53, 0x49, 0x50, 0x2F, 0x32, 0x2E, 0x30, 0x20];
    let mut i: usize = 0;
    while i < 8
        invariant
            i <= 8,
            payload.len() >= 8,
            start@ == response_start(),
            forall|k: int| 0 <= k < i ==> payload@[k] == response_start()[k],
        decreases 8 - i,
    {
        if payload[i] != start[i] {
            assert(payload@.take(8)[i as int] != response_start()[i as int]);
            return false;
        }
        i += 1;
    }
    assert(payload@.take(8) =~= response_start());
    true
}

impl SkipState {
    /// Nothing skipped, and the first warning armed.
    pub open spec fn none() -> SkipState {
        SkipState { messages: 0, counts: Seq::new(PORTS as nat, |i: int| 0u64), next_warn: 1 }
    }

    /// Whether the per-port counts add up to the total, and the next warning
    /// stands at the next power of ten, or at the largest count there is.
    pub open spec fn valid(self) -> bool {
        &&& self.counts.len() == PORTS
        &&& self.messages == sum(self.counts)
        &&& self.messages <= u64::MAX
        &&& self.next_warn <= u64::MAX
        &&& self.messages < self.next_warn || self.next_warn == u64::MAX
        &&& power_of_ten(self.next_warn) || self.next_warn == u64::MAX
        &&& self.next_warn == 1 || self.next_warn == u64::MAX || self.messages >= self.next_warn
            / 10
    }

    /// The tally after one more message on a service port.
    pub open spec fn skips(self, port: u16) -> SkipState {
        let messages = self.messages + 1;
        SkipState {
            messages,
            counts: self.counts.update(port as int, (self.counts[port as int] + 1) as u64),
            next_warn: if messages < self.next_warn {
                self.next_warn
            } else if 10 * messages > u64::MAX {
                u64::MAX as nat
            } else {
                10 * messages
            },
        }
    }

    /// The ports with skipped messages, in port order.
    pub open spec fn listed(self) -> Seq<SkippedPort> {
        listed(self.counts)
    }
}

/// The ports with a count, in port order.
pub open spec fn listed(counts: Seq<u64>) -> Seq<SkippedPort>
    decreases counts.len(),
{
    if counts.len() == 0 {
        seq![]
    } else {
        let rest = listed(counts.drop_last());
        if counts.last() > 0 {
            rest.push(SkippedPort { port: (counts.len() - 1) as u16, messages: counts.last() })
        } else {
            rest
        }
    }
}

/// The first `n` elements, or all where there are fewer.
pub open spec fn at_most<T>(s: Seq<T>, n: nat) -> Seq<T> {
    if n < s.len() {
        s.take(n as int)
    } else {
        s
    }
}

/// One count is within the sum, and raising it raises the sum.
pub(crate) proof fn sum_raised(counts: Seq<u64>, i: int)
    requires
        0 <= i < counts.len(),
    ensures
        counts[i] <= sum(counts),
        counts[i] < u64::MAX ==> sum(counts.update(i, (counts[i] + 1) as u64)) == sum(counts) + 1,
    decreases counts.len(),
{
    let up = counts.update(i, (counts[i] + 1) as u64);
    if i == counts.len() - 1 {
        assert(up.drop_last() =~= counts.drop_last());
    } else {
        sum_raised(counts.drop_last(), i);
        assert(up.drop_last() =~= counts.drop_last().update(i, (counts[i] + 1) as u64));
    }
}

/// One more skip leaves a tally that adds up, and the next warning where it
/// belongs.
proof fn a_skip_keeps_the_tally(s: SkipState, port: u16)
    requires
        s.valid(),
        s.messages < u64::MAX,
    ensures
        s.skips(port).valid(),
{
    sum_raised(s.counts, port as int);
    assert((10 * s.next_warn) / 10 == s.next_warn);
}

/// Zeros sum to zero, and name no port.
proof fn nothing_listed(counts: Seq<u64>)
    requires
        forall|i: int| 0 <= i < counts.len() ==> counts[i] == 0,
    ensures
        sum(counts) == 0,
        listed(counts) == Seq::<SkippedPort>::empty(),
    decreases counts.len(),
{
    if counts.len() > 0 {
        nothing_listed(counts.drop_last());
    }
}

/// A tally of skipped messages. The table is not there until the first skip.
#[derive(Debug)]
pub struct SkipTally {
    messages: u64,
    per_port: Vec<u64>,
    next_warn: u64,
}

impl View for SkipTally {
    type V = SkipState;

    closed spec fn view(&self) -> SkipState {
        SkipState {
            messages: self.messages as nat,
            counts: if self.per_port@.len() == 0 {
                Seq::new(PORTS as nat, |i: int| 0u64)
            } else {
                self.per_port@
            },
            next_warn: self.next_warn as nat,
        }
    }
}

impl SkipTally {
    /// An empty tally with the first warning armed.
    pub fn new() -> (r: Self)
        ensures
            r@ == SkipState::none(),
            r@.valid(),
    {
        let r = SkipTally { messages: 0, per_port: Vec::new(), next_warn: 1 };
        proof {
            nothing_listed(r@.counts);
        }
        r
    }

    /// Count one message on a service port. Where a warning is due, it is
    /// given the count and the three busiest ports.
    fn record(&mut self, port: u16) -> (r: Option<(u64, Vec<SkippedPort>)>)
        requires
            old(self)@.valid(),
            old(self)@.messages < u64::MAX,
        ensures
            final(self)@ == old(self)@.skips(port),
            final(self)@.valid(),
            r is Some <==> old(self)@.messages + 1 >= old(self)@.next_warn,
            r matches Some((messages, ports)) ==> messages == final(self)@.messages && ports@
                == at_most(ranking(final(self)@.listed()), 3),
    {
        let ghost before = self@;
        if self.per_port.len() == 0 {
            self.per_port = vec![0; PORTS];
        }
        assert(self.per_port@ =~= before.counts);
        proof {
            sum_raised(before.counts, port as int);
            a_skip_keeps_the_tally(before, port);
        }
        self.messages += 1;
        let seen: u64 = self.per_port[port as usize];
        self.per_port[port as usize] = seen + 1;
        if self.messages < self.next_warn {
            assert(self@ == before.skips(port));
            return None;
        }
        self.next_warn = if self.messages > u64::MAX / 10 {
            u64::MAX
        } else {
            10 * self.messages
        };
        assert(self@ == before.skips(port));
        Some((self.messages, self.busiest(3)))
    }

    /// The `n` busiest ports, busiest first.
    fn busiest(&self, n: usize) -> (r: Vec<SkippedPort>)
        requires
            self@.valid(),
        ensures
            r@ == at_most(ranking(self@.listed()), n as nat),
    {
        let mut ports: Vec<SkippedPort> = Vec::new();
        let ghost counts = self@.counts;
        if self.per_port.len() > 0 {
            let mut i: usize = 0;
            assert(counts.take(0) =~= Seq::<u64>::empty());
            while i < PORTS
                invariant
                    i <= PORTS,
                    self.per_port@ == counts,
                    counts.len() == PORTS,
                    ports@ == listed(counts.take(i as int)),
                decreases PORTS - i,
            {
                let messages: u64 = self.per_port[i];
                assert(counts.take(i + 1).drop_last() =~= counts.take(i as int));
                if messages > 0 {
                    ports.push(SkippedPort { port: i as u16, messages });
                }
                i += 1;
            }
            assert(counts.take(PORTS as int) =~= counts);
        } else {
            proof {
                nothing_listed(counts);
            }
        }
        let ghost all = ports@;
        let mut ports = sorted(ports);
        proof {
            rank_order_is_unique(all, ports@);
        }
        if n < ports.len() {
            ports.truncate(n);
        }
        assert(ports@ =~= at_most(ranking(all), n as nat));
        ports
    }

    /// Messages skipped altogether.
    pub fn messages(&self) -> (r: u64)
        ensures
            r == self@.messages,
    {
        self.messages
    }
}

/// What the port range left out during a run.
#[derive(Debug, Clone, PartialEq, Eq)]
pub struct PortrangeSkipReport {
    /// SIP messages seen and skipped because both ports were outside the
    /// range.
    pub messages: u64,
    /// Per-port breakdown, busiest first.
    pub ports: Vec<SkippedPort>,
}

/// What the WebSocket port set left out during a run.
#[derive(Debug, Clone, PartialEq, Eq)]
pub struct WsPortSkipReport {
    /// SIP-over-WebSocket messages recognized and skipped because neither port
    /// was in the set.
    pub messages: u64,
    /// Per-port breakdown, busiest first.
    pub ports: Vec<SkippedPort>,
}

/// Tally of SIP outside the port range.
#[derive(Debug)]
pub struct PortrangeSkips {
    /// The counts.
    pub tally: SkipTally,
}

/// Tally of SIP-over-WebSocket outside the port set.
#[derive(Debug)]
pub struct WsPortSkips {
    /// The counts.
    pub tally: SkipTally,
}

impl PortrangeSkips {
    /// Nothing skipped.
    pub fn new() -> (r: Self)
        ensures
            r.tally@ == SkipState::none(),
            r.tally@.valid(),
    {
        PortrangeSkips { tally: SkipTally::new() }
    }
}

impl WsPortSkips {
    /// Nothing skipped.
    pub fn new() -> (r: Self)
        ensures
            r.tally@ == SkipState::none(),
            r.tally@.valid(),
    {
        WsPortSkips { tally: SkipTally::new() }
    }
}

/// Ports and their counts, as a warning names them.
pub open spec fn ports_text(ports: Seq<SkippedPort>) -> Seq<char>
    decreases ports.len(),
{
    if ports.len() == 0 {
        seq![]
    } else {
        let one = decimal_text(ports.last().port as nat) + " ("@ + decimal_text(
            ports.last().messages as nat,
        ) + ")"@;
        if ports.len() == 1 {
            one
        } else {
            ports_text(ports.drop_last()) + ", "@ + one
        }
    }
}

/// Ports and their counts, as a warning names them.
fn ports_string(ports: &[SkippedPort]) -> (r: String)
    ensures
        r@ == ports_text(ports@),
{
    let mut out = String::new();
    let mut i: usize = 0;
    while i < ports.len()
        invariant
            i <= ports.len(),
            out@ == ports_text(ports@.take(i as int)),
        decreases ports.len() - i,
    {
        let ghost part = ports@.take(i + 1);
        assert(part.drop_last() =~= ports@.take(i as int));
        if i > 0 {
            out.append(", ");
        }
        out.append(decimal(ports[i].port as u64).as_str());
        out.append(" (");
        out.append(decimal(ports[i].messages).as_str());
        out.append(")");
        assert(out@ =~= ports_text(part));
        i += 1;
    }
    assert(ports@.take(i as int) =~= ports@);
    out
}

/// The warning for SIP outside the port range.
pub open spec fn portrange_warning(range: (u16, u16), s: SkipState) -> Seq<char> {
    "SIP outside --portrange "@ + decimal_text(range.0 as nat) + "-"@ + decimal_text(range.1 as nat)
        + " is being skipped: "@ + decimal_text(s.messages)
        + " message(s) so far, in no count, no dialog, and no output. Busiest port(s): "@
        + ports_text(at_most(ranking(s.listed()), 3))
        + ". Re-run with a range that covers them (e.g. --portrange 1-65535) to analyze them."@
}

/// The warning for SIP-over-WebSocket outside the port set.
pub open spec fn ws_warning(configured: Seq<char>, s: SkipState) -> Seq<char> {
    "SIP-over-WebSocket outside the WebSocket port set ("@ + configured
        + ") is being skipped: "@ + decimal_text(s.messages)
        + " message(s) so far, in no count, no dialog, and no output. Busiest port(s): "@
        + ports_text(at_most(ranking(s.listed()), 3))
        + ". Re-run with --ws-portrange covering them (e.g. --ws-portrange 1-65535) to analyze them."@
}

/// Record one SIP message that the port range left out, and give the warning
/// where one is due.
pub fn record_portrange_skip(
    skips: &mut PortrangeSkips,
    src_port: u16,
    dst_port: u16,
    payload: &[u8],
    range: (u16, u16),
) -> (r: Option<String>)
    requires
        old(skips).tally@.valid(),
        old(skips).tally@.messages < u64::MAX,
    ensures
        final(skips).tally@ == old(skips).tally@.skips(service_port(src_port, dst_port, payload@)),
        final(skips).tally@.valid(),
        r is Some <==> old(skips).tally@.messages + 1 >= old(skips).tally@.next_warn,
        r matches Some(text) ==> text@ == portrange_warning(range, final(skips).tally@),
{
    let port: u16 = if starts_like_response(payload) {
        src_port
    } else {
        dst_port
    };
    match skips.tally.record(port) {
        None => None,
        Some((messages, busiest)) => {
            let mut text = String::from_str("SIP outside --portrange ");
            text.append(decimal(range.0 as u64).as_str());
            text.append("-");
            text.append(decimal(range.1 as u64).as_str());
            text.append(" is being skipped: ");
            text.append(decimal(messages).as_str());
            text.append(
                " message(s) so far, in no count, no dialog, and no output. Busiest port(s): ",
            );
            text.append(ports_string(&busiest).as_str());
            text.append(
                ". Re-run with a range that covers them (e.g. --portrange 1-65535) to analyze them.",
            );
            assert(text@ =~= portrange_warning(range, skips.tally@));
            Some(text)
        },
    }
}

/// Record one SIP-over-WebSocket message that the port set left out, and give
/// the warning where one is due. `payload` is the unwrapped message, and
/// `configured` describes the set.
pub fn record_ws_port_skip(
    skips: &mut WsPortSkips,
    src_port: u16,
    dst_port: u16,
    payload: &[u8],
    configured: &str,
) -> (r: Option<String>)
    requires
        old(skips).tally@.valid(),
        old(skips).tally@.messages < u64::MAX,
    ensures
        final(skips).tally@ == old(skips).tally@.skips(service_port(src_port, dst_port, payload@)),
        final(skips).tally@.valid(),
        r is Some <==> old(skips).tally@.messages + 1 >= old(skips).tally@.next_warn,
        r matches Some(text) ==> text@ == ws_warning(configured@, final(skips).tally@),
{
    let port: u16 = if starts_like_response(payload) {
        src_port
    } else {
        dst_port
    };
    match skips.tally.record(port) {
        None => None,
        Some((messages, busiest)) => {
            let mut text = String::from_str("SIP-over-WebSocket outside the WebSocket port set (");
            text.append(configured);
            text.append(") is being skipped: ");
            text.append(decimal(messages).as_str());
            text.append(
                " message(s) so far, in no count, no dialog, and no output. Busiest port(s): ",
            );
            text.append(ports_string(&busiest).as_str());
            text.append(
                ". Re-run with --ws-portrange covering them (e.g. --ws-portrange 1-65535) to analyze them.",
            );
            assert(text@ =~= ws_warning(configured@, skips.tally@));
            Some(text)
        },
    }
}

/// The SIP that a run discarded because both ports fell outside the range.
pub fn portrange_skip_report(skips: &PortrangeSkips) -> (r: PortrangeSkipReport)
    requires
        skips.tally@.valid(),
    ensures
        r.messages == skips.tally@.messages,
        r.ports@ == ranking(skips.tally@.listed()),
{
    let ports = skips.tally.busiest(PORTS);
    proof {
        ranked_len(skips.tally@);
    }
    PortrangeSkipReport { messages: skips.tally.messages(), ports }
}

/// The SIP-over-WebSocket that a run recognized and did not analyze.
#[must_use]
pub fn ws_port_skip_report(skips: &WsPortSkips) -> (r: WsPortSkipReport)
    requires
        skips.tally@.valid(),
    ensures
        r.messages == skips.tally@.messages,
        r.ports@ == ranking(skips.tally@.listed()),
{
    let ports = skips.tally.busiest(PORTS);
    proof {
        ranked_len(skips.tally@);
    }
    WsPortSkipReport { messages: skips.tally.messages(), ports }
}

/// Clear the tally and arm the first warning again.
pub fn reset_portrange_skips(skips: &mut PortrangeSkips)
    ensures
        final(skips).tally@ == SkipState::none(),
        final(skips).tally@.valid(),
{
    skips.tally = SkipTally::new();
}

/// Clear the tally and arm the first warning again.
pub fn reset_ws_port_skips(skips: &mut WsPortSkips)
    ensures
        final(skips).tally@ == SkipState::none(),
        final(skips).tally@.valid(),
{
    skips.tally = SkipTally::new();
}

/// No more ports are listed than there are counts.
proof fn listed_len(counts: Seq<u64>)
    ensures
        listed(counts).len() <= counts.len(),
    decreases counts.len(),
{
    if counts.len() > 0 {
        listed_len(counts.drop_last());
    }
}

/// What ranking keeps: the elements, and so how many they are.
proof fn ranking_keeps(s: Seq<SkippedPort>)
    ensures
        ranking(s).to_multiset() == s.to_multiset(),
        ranking(s).len() == s.len(),
        in_rank_order(ranking(s)),
{
    broadcast use group_to_multiset_ensures;

    let leq = |a: SkippedPort, b: SkippedPort| a.ranks_before(b);
    s.lemma_sort_by_ensures(leq);
    assert(s.to_multiset().len() == s.len());
    assert(ranking(s).to_multiset().len() == ranking(s).len());
    assert forall|i: int, j: int| 0 <= i < j < ranking(s).len() implies #[trigger] ranking(
        s,
    )[i].ranks_before(#[trigger] ranking(s)[j]) by {
        assert(leq(ranking(s)[i], ranking(s)[j]));
    }
}

/// The whole ranking has no more entries than there are ports.
proof fn ranked_len(s: SkipState)
    requires
        s.valid(),
    ensures
        at_most(ranking(s.listed()), PORTS as nat) == ranking(s.listed()),
{
    listed_len(s.counts);
    ranking_keeps(s.listed());
}

/// The messages of a list of ports, added up.
pub open spec fn total(ports: Seq<SkippedPort>) -> nat {
    ports.fold_left(0nat, |sum: nat, p: SkippedPort| sum + p.messages as nat)
}

/// The listed ports add up to the counts.
proof fn listed_total(counts: Seq<u64>)
    ensures
        total(listed(counts)) == sum(counts),
    decreases counts.len(),
{
    let f = |sum: nat, p: SkippedPort| sum + p.messages as nat;
    if counts.len() > 0 {
        let rest = listed(counts.drop_last());
        listed_total(counts.drop_last());
        if counts.last() > 0 {
            let p = SkippedPort { port: (counts.len() - 1) as u16, messages: counts.last() };
            assert(rest.push(p).drop_last() =~= rest);
            assert(rest.push(p).fold_left(0nat, f) == f(rest.fold_left(0nat, f), p));
        }
    }
}

/// The per-port breakdown of a report adds up to its total: no skipped message
/// is missing from it and none is counted twice.
pub proof fn the_breakdown_adds_up(s: SkipState)
    requires
        s.valid(),
    ensures
        total(ranking(s.listed())) == s.messages,
{
    let f = |sum: nat, p: SkippedPort| sum + p.messages as nat;
    listed_total(s.counts);
    ranking_keeps(s.listed());
    lemma_fold_left_permutation(s.listed(), ranking(s.listed()), f, 0nat);
}

/// A tally after messages on these service ports, in order, since it was reset.
pub open spec fn after_skips(ports: Seq<u16>) -> SkipState
    decreases ports.len(),
{
    if ports.len() == 0 {
        SkipState::none()
    } else {
        after_skips(ports.drop_last()).skips(ports.last())
    }
}

/// A tally counts each port as often as it was skipped.
proof fn each_skip_is_counted(ports: Seq<u16>)
    requires
        ports.len() <= u64::MAX,
    ensures
        after_skips(ports).valid(),
        after_skips(ports).messages == ports.len(),
        forall|p: u16| #[trigger]
            after_skips(ports).counts[p as int] == ports.to_multiset().count(p),
    decreases ports.len(),
{
    broadcast use group_to_multiset_ensures;

    if ports.len() == 0 {
        nothing_listed(after_skips(ports).counts);
        assert forall|p: u16| #[trigger]
            after_skips(ports).counts[p as int] == ports.to_multiset().count(p) by {
            assert(!ports.contains(p));
        }
    } else {
        let front = ports.drop_last();
        each_skip_is_counted(front);
        a_skip_keeps_the_tally(after_skips(front), ports.last());
        assert(front.push(ports.last()) =~= ports);
        sum_raised(after_skips(front).counts, ports.last() as int);
        assert forall|p: u16| #[trigger]
            after_skips(ports).counts[p as int] == ports.to_multiset().count(p) by {
            assert(after_skips(front).counts[p as int] == front.to_multiset().count(p));
        }
    }
}

/// The listed ports are those with a count, each once.
proof fn listed_are(counts: Seq<u64>)
    requires
        counts.len() <= PORTS,
    ensures
        forall|e: SkippedPort| #[trigger]
            listed(counts).contains(e) <==> e.port < counts.len() && e.messages
                == counts[e.port as int] && e.messages > 0,
        listed(counts).no_duplicates(),
    decreases counts.len(),
{
    let all = listed(counts);
    if counts.len() > 0 {
        let front = counts.drop_last();
        let rest = listed(front);
        let last = SkippedPort { port: (counts.len() - 1) as u16, messages: counts.last() };
        listed_are(front);
        assert forall|e: SkippedPort| #[trigger] all.contains(e) <==> e.port < counts.len()
            && e.messages == counts[e.port as int] && e.messages > 0 by {
            if all.contains(e) {
                let i = choose|i: int| 0 <= i < all.len() && all[i] == e;
                if i < rest.len() {
                    assert(rest[i] == e);
                    assert(rest.contains(e));
                }
            }
            if e.port < counts.len() && e.messages == counts[e.port as int] && e.messages > 0 {
                if e.port < front.len() {
                    assert(rest.contains(e));
                    let i = choose|i: int| 0 <= i < rest.len() && rest[i] == e;
                    assert(all[i] == e);
                } else {
                    assert(e == last);
                    assert(all.last() == e);
                }
            }
        }
        assert forall|i: int, j: int| 0 <= i < all.len() && 0 <= j < all.len() && i != j implies
            all[i] != all[j] by {
            if i < rest.len() {
                assert(rest.contains(rest[i]));
            }
            if j < rest.len() {
                assert(rest.contains(rest[j]));
            }
        }
    }
}

/// A report is the multiset of the service ports that were skipped since the
/// reset: as many messages as skips, one entry for each port that was skipped
/// with as many messages as it was skipped, and no other; the busiest first,
/// ties by port. Where nothing was skipped, it is empty.
pub proof fn the_report_is_what_was_skipped(ports: Seq<u16>)
    requires
        ports.len() <= u64::MAX,
    ensures
        ({
            let s = after_skips(ports);
            let report = ranking(s.listed());
            &&& s.valid()
            &&& s.messages == ports.len()
            &&& forall|e: SkippedPort| #[trigger]
                report.contains(e) <==> ports.contains(e.port) && e.messages
                    == ports.to_multiset().count(e.port)
            &&& report.no_duplicates()
            &&& in_rank_order(report)
            &&& total(report) == s.messages
            &&& ports.len() == 0 ==> report.len() == 0
        }),
{
    broadcast use group_to_multiset_ensures;

    let s = after_skips(ports);
    let report = ranking(s.listed());
    each_skip_is_counted(ports);
    listed_are(s.counts);
    ranking_keeps(s.listed());
    the_breakdown_adds_up(s);
    s.listed().lemma_multiset_has_no_duplicates();
    report.lemma_multiset_has_no_duplicates_conv();
    assert forall|e: SkippedPort| #[trigger] report.contains(e) <==> ports.contains(e.port)
        && e.messages == ports.to_multiset().count(e.port) by {
        assert(report.contains(e) <==> report.to_multiset().count(e) > 0);
        assert(s.listed().contains(e) <==> s.listed().to_multiset().count(e) > 0);
        assert(s.counts[e.port as int] == ports.to_multiset().count(e.port));
        assert(ports.contains(e.port) <==> ports.to_multiset().count(e.port) > 0);
    }
    if ports.len() == 0 {
        nothing_listed(s.counts);
    }
}

/// A warning is due on the first skip and at every power of ten, and at no
/// other count, until no larger power of ten can be counted to.
pub proof fn warnings_fall_on_powers_of_ten(s: SkipState)
    requires
        s.valid(),
        s.next_warn < u64::MAX,
    ensures
        s.messages + 1 >= s.next_warn <==> power_of_ten(s.messages + 1),
{
    if s.messages + 1 < s.next_warn {
        no_power_between(s.next_warn, s.messages + 1);
    }
}

/// Between one power of ten and the next there is none.
proof fn no_power_between(p: nat, n: nat)
    requires
        power_of_ten(p),
        n < p,
        n > p / 10 || p == 1,
    ensures
        !power_of_ten(n) || n == 0,
    decreases p,
{
    if p >= 10 && n > 1 && power_of_ten(n) {
        no_power_between(p / 10, n / 10);
    }
}

/// Whether a breakdown names each port with a count once, with that count, the
/// busiest first and ties by port.
pub open spec fn breaks_down(ports: Seq<SkippedPort>, counts: Seq<u64>) -> bool {
    &&& forall|p: u16, n: u64|
        (n > 0 && counts[p as int] == n) <==> #[trigger] ports.contains(
            SkippedPort { port: p, messages: n },
        )
    &&& forall|i: int, j: int|
        0 <= i < j < ports.len() ==> (#[trigger] ports[i]).messages > (#[trigger] ports[j]).messages
            || (ports[i].messages == ports[j].messages && ports[i].port < ports[j].port)
}

/// A ranking of the listed ports breaks the counts down.
proof fn a_ranking_breaks_down(s: SkipState)
    requires
        s.valid(),
    ensures
        breaks_down(ranking(s.listed()), s.counts),
{
    broadcast use group_to_multiset_ensures;

    let ports = ranking(s.listed());
    listed_are(s.counts);
    ranking_keeps(s.listed());
    s.listed().lemma_multiset_has_no_duplicates();
    ports.lemma_multiset_has_no_duplicates_conv();
    assert forall|p: u16, n: u64|
        (n > 0 && s.counts[p as int] == n) <==> #[trigger] ports.contains(
            SkippedPort { port: p, messages: n },
        ) by {
        let e = SkippedPort { port: p, messages: n };
        assert(ports.contains(e) <==> ports.to_multiset().count(e) > 0);
        assert(s.listed().contains(e) <==> s.listed().to_multiset().count(e) > 0);
    }
    assert forall|i: int, j: int| 0 <= i < j < ports.len() implies (#[trigger] ports[i]).messages
        > (#[trigger] ports[j]).messages || (ports[i].messages == ports[j].messages && ports[i].port
        < ports[j].port) by {
        assert(ports[i].ranks_before(ports[j]));
        assert(ports[i] != ports[j]);
        assert(ports.contains(ports[i]) && ports.contains(ports[j]));
        assert(ports.contains(SkippedPort { port: ports[i].port, messages: ports[i].messages }));
    }
}

/// The report on the port range gives the total, and names every port that was
/// skipped with how often, the busiest first.
pub proof fn the_range_report_names_every_skipped_port(
    skips: &PortrangeSkips,
    r: PortrangeSkipReport,
)
    requires
        call_ensures(portrange_skip_report, (skips,), r),
        skips.tally@.valid(),
    ensures
        r.messages == skips.tally@.messages,
        breaks_down(r.ports@, skips.tally@.counts),
        total(r.ports@) == r.messages,
{
    a_ranking_breaks_down(skips.tally@);
    the_breakdown_adds_up(skips.tally@);
}

/// The report on the WebSocket ports gives the total, and names every port
/// that was skipped with how often, the busiest first.
pub proof fn the_websocket_report_names_every_skipped_port(skips: &WsPortSkips, r: WsPortSkipReport)
    requires
        call_ensures(ws_port_skip_report, (skips,), r),
        skips.tally@.valid(),
    ensures
        r.messages == skips.tally@.messages,
        breaks_down(r.ports@, skips.tally@.counts),
        total(r.ports@) == r.messages,
{
    a_ranking_breaks_down(skips.tally@);
    the_breakdown_adds_up(skips.tally@);
}

/// After a reset nothing is counted, and the next skip is warned of.
pub proof fn a_reset_forgets_every_skip(skips: &mut PortrangeSkips, ws: &mut WsPortSkips)
    requires
        call_ensures(reset_portrange_skips, (skips,), ()),
        call_ensures(reset_ws_port_skips, (ws,), ()),
    ensures
        final(skips).tally@.messages == 0,
        final(skips).tally@.next_warn == 1,
        forall|p: u16| #[trigger] final(skips).tally@.counts[p as int] == 0,
        final(ws).tally@.messages == 0,
        final(ws).tally@.next_warn == 1,
        forall|p: u16| #[trigger] final(ws).tally@.counts[p as int] == 0,
{
}

/// Ten times itself so many times.
proof fn powers_of_ten_are(n: nat)
    ensures
        power_of_ten(n) <==> exists|k: nat| n == #[trigger] pow(10, k),
    decreases n,
{
    if power_of_ten(n) {
        if n == 1 {
            lemma_pow0(10);
            assert(n == pow(10, 0));
        } else {
            powers_of_ten_are(n / 10);
            let k = choose|k: nat| n / 10 == #[trigger] pow(10, k);
            assert(pow(10, k + 1) == 10 * pow(10, k)) by {
                reveal(pow);
            }
            assert(n == pow(10, k + 1));
        }
    }
    if exists|k: nat| n == #[trigger] pow(10, k) {
        let k = choose|k: nat| n == #[trigger] pow(10, k);
        if k == 0 {
            lemma_pow0(10);
        } else {
            let below = (k - 1) as nat;
            assert(pow(10, k) == 10 * pow(10, below)) by {
                reveal(pow);
            }
            lemma_pow_positive(10, below);
            assert(n / 10 == pow(10, below));
            powers_of_ten_are(n / 10);
        }
    }
}

/// A skip is warned of where it is the first, the tenth, the hundredth and so
/// on, and at no other; and the next warning is due ten times later.
pub proof fn a_warning_comes_at_each_power_of_ten(
    skips: &mut PortrangeSkips,
    src: u16,
    dst: u16,
    payload: &[u8],
    range: (u16, u16),
    r: Option<String>,
)
    requires
        call_ensures(record_portrange_skip, (skips, src, dst, payload, range), r),
        old(skips).tally@.valid(),
        old(skips).tally@.next_warn < u64::MAX,
    ensures
        r is Some <==> exists|k: nat| final(skips).tally@.messages == #[trigger] pow(10, k),
        final(skips).tally@.messages == old(skips).tally@.messages + 1,
        r is Some && 10 * final(skips).tally@.messages <= u64::MAX ==> 10
            * final(skips).tally@.messages == final(skips).tally@.next_warn,
{
    warnings_fall_on_powers_of_ten(old(skips).tally@);
    powers_of_ten_are(old(skips).tally@.messages + 1);
}

/// The same of messages in frames outside the WebSocket ports.
pub proof fn a_frame_is_warned_of_at_each_power_of_ten(
    skips: &mut WsPortSkips,
    src: u16,
    dst: u16,
    payload: &[u8],
    configured: &str,
    r: Option<String>,
)
    requires
        call_ensures(record_ws_port_skip, (skips, src, dst, payload, configured), r),
        old(skips).tally@.valid(),
        old(skips).tally@.next_warn < u64::MAX,
    ensures
        r is Some <==> exists|k: nat| final(skips).tally@.messages == #[trigger] pow(10, k),
        final(skips).tally@.messages == old(skips).tally@.messages + 1,
{
    warnings_fall_on_powers_of_ten(old(skips).tally@);
    powers_of_ten_are(old(skips).tally@.messages + 1);
}

/// A warning names what was skipped: where it was to be looked for, how much was
/// skipped so far, and the three busiest ports of the report, or as many as there
/// are.
pub proof fn a_warning_names_the_busiest_ports(
    skips: &mut PortrangeSkips,
    src: u16,
    dst: u16,
    payload: &[u8],
    range: (u16, u16),
    r: Option<String>,
    after: &PortrangeSkips,
    report: PortrangeSkipReport,
)
    requires
        call_ensures(record_portrange_skip, (skips, src, dst, payload, range), r),
        old(skips).tally@.valid(),
        old(skips).tally@.messages < u64::MAX,
        *after == *final(skips),
        call_ensures(portrange_skip_report, (after,), report),
    ensures
        r matches Some(text) ==> text@ == "SIP outside --portrange "@ + decimal_text(
            range.0 as nat,
        ) + "-"@ + decimal_text(range.1 as nat) + " is being skipped: "@ + decimal_text(
            report.messages as nat,
        ) + " message(s) so far, in no count, no dialog, and no output. Busiest port(s): "@
            + ports_text(
            if report.ports@.len() <= 3 {
                report.ports@
            } else {
                report.ports@.take(3)
            },
        ) + ". Re-run with a range that covers them (e.g. --portrange 1-65535) to analyze them."@,
{
}

/// A warning of frames on other ports names what was skipped in the same way.
pub proof fn a_frame_warning_names_the_busiest_ports(
    skips: &mut WsPortSkips,
    src: u16,
    dst: u16,
    payload: &[u8],
    configured: &str,
    r: Option<String>,
    after: &WsPortSkips,
    report: WsPortSkipReport,
)
    requires
        call_ensures(record_ws_port_skip, (skips, src, dst, payload, configured), r),
        old(skips).tally@.valid(),
        old(skips).tally@.messages < u64::MAX,
        *after == *final(skips),
        call_ensures(ws_port_skip_report, (after,), report),
    ensures
        r matches Some(text) ==> text@ == "SIP-over-WebSocket outside the WebSocket port set ("@
            + configured@ + ") is being skipped: "@ + decimal_text(report.messages as nat)
            + " message(s) so far, in no count, no dialog, and no output. Busiest port(s): "@
            + ports_text(
            if report.ports@.len() <= 3 {
                report.ports@
            } else {
                report.ports@.take(3)
            },
        ) + ". Re-run with --ws-portrange covering them (e.g. --ws-portrange 1-65535) to analyze them."@,
{
}

/// Ports are named one after the other, each with its count in brackets behind
/// it and a comma between two.
pub proof fn ports_are_named_with_their_counts(ports: Seq<SkippedPort>, next: SkippedPort)
    ensures
        ports_text(seq![next]) == decimal_text(next.port as nat) + " ("@ + decimal_text(
            next.messages as nat,
        ) + ")"@,
        ports.len() > 0 ==> ports_text(ports.push(next)) == ports_text(ports) + ", "@ + ports_text(
            seq![next],
        ),
{
    assert(ports.push(next).drop_last() =~= ports);
}

/// A tally tells how many messages were skipped.
pub proof fn a_tally_tells_its_total(t: &SkipTally, n: u64, new: SkipTally)
    requires
        call_ensures(SkipTally::messages, (t,), n),
        call_ensures(SkipTally::new, (), new),
    ensures
        n == t@.messages,
        new@.messages == 0,
        new@.next_warn == 1,
        forall|p: u16| #[trigger] new@.counts[p as int] == 0,
{
}

/// A message is a response exactly where it begins with the protocol's name, its
/// version and a space.
pub proof fn a_response_begins_with_its_version(payload: &[u8], r: bool)
    requires
        call_ensures(starts_like_response, (payload,), r),
    ensures
        r <==> payload@.len() >= 8 && payload@.take(8) == seq![
            0x53u8,
            0x49,
            0x50,
            0x2F,
            0x32,
            0x2E,
            0x30,
            0x20,
        ],
{
    if payload@.len() >= 8 {
        let start = payload@.take(8);
        if r {
            assert(start =~= seq![0x53u8, 0x49, 0x50, 0x2F, 0x32, 0x2E, 0x30, 0x20]);
        } else if start == seq![0x53u8, 0x49, 0x50, 0x2F, 0x32, 0x2E, 0x30, 0x20] {
            assert(payload@[0] == start[0] && payload@[1] == start[1] && payload@[2] == start[2]
                && payload@[3] == start[3] && payload@[4] == start[4] && payload@[5] == start[5]
                && payload@[6] == start[6] && payload@[7] == start[7]);
        }
    }
}

/// Nothing was skipped when a run begins.
pub proof fn nothing_was_skipped_at_first(
    range: PortrangeSkips,
    ws: WsPortSkips,
    a: PortrangeSkipReport,
    b: WsPortSkipReport,
)
    requires
        call_ensures(PortrangeSkips::new, (), range),
        call_ensures(WsPortSkips::new, (), ws),
        call_ensures(portrange_skip_report, (&range,), a),
        call_ensures(ws_port_skip_report, (&ws,), b),
    ensures
        a.messages == 0 && b.messages == 0,
        range.tally@.next_warn == 1 && ws.tally@.next_warn == 1,
        forall|p: u16| #[trigger] range.tally@.counts[p as int] == 0,
        forall|p: u16| #[trigger] ws.tally@.counts[p as int] == 0,
{
}

} // verus!
