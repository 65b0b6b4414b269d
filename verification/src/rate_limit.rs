//! Fixed-window rate limiting: a global ceiling plus a per-peer cap.
//!
//! The window is fixed, neither sliding nor a token bucket: the counters reset
//! once a whole window has elapsed since they last did. A peer may spend its
//! allowance at the end of one window and the next at the start of the next,
//! so a short burst across a boundary can reach twice the nominal rate. The
//! sustained rate cannot exceed the cap.
//!
//! Every decision takes the clock reading rather than making it.
use crate::clock::Moment;
use std::collections::HashMap;
use std::hash::Hash;
use vstd::prelude::*;
use vstd::std_specs::hash::*;

verus! {

/// Shipped upper bound on the number of distinct peers tracked within one
/// window.
pub const DEFAULT_MAX_TRACKED_PEERS: usize = 10_000;

/// Smallest tracking map that may be configured: with room for one peer the
/// first sender of a window would shut every other one out.
pub const MIN_TRACKED_PEERS: usize = 2;

/// Length of one counting window, in nanoseconds. Both caps are per second.
pub const WINDOW: u64 = 1_000_000_000;

/// Why a limiter refused.
#[derive(Debug, Clone, Copy, PartialEq, Eq, Structural)]
pub enum Refusal {
    /// This peer has used its whole per-peer allowance for the window.
    PerPeer,
    /// Every peer together has used the global ceiling for the window.
    Global,
    /// The per-peer tracking map is full and this peer is not in it.
    TrackingFull,
}

/// What a limiter has counted in its current window, and what it enforces.
#[verifier::reject_recursive_types(K)]
pub ghost struct LimiterState<K> {
    /// Events per window across all peers; zero is no ceiling.
    pub global_max: nat,
    /// Events per window from one peer; zero is no cap.
    pub per_peer_max: nat,
    /// Distinct peers that may be tracked in one window.
    pub max_tracked_peers: nat,
    /// When the current window began.
    pub window_start: Moment,
    /// Events counted against the global ceiling in this window.
    pub counted: nat,
    /// Events of each tracked peer in this window.
    pub peers: Map<K, nat>,
    /// Events refused since the limiter was built.
    pub refused: nat,
}

impl<K> LimiterState<K> {
    /// Whether a whole window has passed at `now`.
    pub open spec fn expired(self, now: Moment) -> bool {
        now.since_spec(self.window_start) >= WINDOW
    }

    /// The state in whose window an event at `now` is counted: this one, or
    /// an empty window beginning at `now`.
    pub open spec fn at(self, now: Moment) -> LimiterState<K> {
        if self.expired(now) {
            LimiterState { window_start: now, counted: 0, peers: Map::empty(), ..self }
        } else {
            self
        }
    }

    /// Events this peer has been counted for in the current window.
    pub open spec fn peer_count(self, key: K) -> nat {
        if self.peers.dom().contains(key) {
            self.peers[key]
        } else {
            0
        }
    }

    /// Whether the tracking map has no room for this peer.
    pub open spec fn untrackable(self, key: K) -> bool {
        self.per_peer_max > 0 && self.peers.dom().len() >= self.max_tracked_peers
            && !self.peers.dom().contains(key)
    }

    /// What the next event of `key` in this window is answered.
    pub open spec fn verdict(self, key: K) -> Result<(), Refusal> {
        if self.untrackable(key) {
            Err(Refusal::TrackingFull)
        } else if self.per_peer_max > 0 && self.peer_count(key) >= self.per_peer_max {
            Err(Refusal::PerPeer)
        } else if self.global_max > 0 && self.counted >= self.global_max {
            Err(Refusal::Global)
        } else {
            Ok(())
        }
    }

    /// The state after the next event of `key` in this window: the peer is
    /// counted unless it cannot be tracked, the global count moves unless a
    /// per-peer bound refused, and every refusal is added to the total.
    pub open spec fn after(self, key: K) -> LimiterState<K> {
        let verdict = self.verdict(key);
        LimiterState {
            peers: if self.per_peer_max > 0 && !self.untrackable(key) {
                self.peers.insert(key, self.peer_count(key) + 1)
            } else {
                self.peers
            },
            counted: if verdict == Ok::<(), Refusal>(()) || verdict == Err::<(), Refusal>(
                Refusal::Global,
            ) {
                self.counted + 1
            } else {
                self.counted
            },
            refused: if verdict is Err {
                self.refused + 1
            } else {
                self.refused
            },
            ..self
        }
    }

    /// Whether the state is one a limiter can be in: the map is within its
    /// bound, and no smaller than the floor.
    pub open spec fn valid(self) -> bool {
        &&& self.max_tracked_peers >= MIN_TRACKED_PEERS
        &&& self.peers.dom().finite()
        &&& self.peers.dom().len() <= self.max_tracked_peers
    }

    /// Whether every counter can move once more without passing the largest
    /// number it can hold.
    pub open spec fn has_room(self) -> bool {
        &&& self.counted < u64::MAX
        &&& self.refused < u64::MAX
        &&& forall|k: K| #[trigger] self.peers.dom().contains(k) ==> self.peers[k] < u64::MAX
    }
}

/// Fixed-window counter with a global ceiling and a per-peer cap. Either may
/// be zero, which disables that half; zero never means "refuse everything".
#[derive(Debug)]
#[verifier::reject_recursive_types(K)]
pub struct FixedWindowLimiter<K> {
    global_max: u64,
    per_peer_max: u64,
    count_this_window: u64,
    per_peer: HashMap<K, u64>,
    max_tracked_peers: usize,
    window_start: Moment,
    refused_total: u64,
}

impl<K> View for FixedWindowLimiter<K> {
    type V = LimiterState<K>;

    closed spec fn view(&self) -> LimiterState<K> {
        LimiterState {
            global_max: self.global_max as nat,
            per_peer_max: self.per_peer_max as nat,
            max_tracked_peers: self.max_tracked_peers as nat,
            window_start: self.window_start,
            counted: self.count_this_window as nat,
            peers: self.per_peer@.map_values(|n: u64| n as nat),
            refused: self.refused_total as nat,
        }
    }
}

impl<K: Eq + Hash> FixedWindowLimiter<K> {
    /// Build a limiter whose first window starts at `now`, and which has
    /// refused nothing yet.
    pub fn new(global_max: u64, per_peer_max: u64, max_tracked_peers: usize, now: Moment) -> (r:
        Self)
        ensures
            r@ == (LimiterState::<K> {
                global_max: global_max as nat,
                per_peer_max: per_peer_max as nat,
                max_tracked_peers: if max_tracked_peers >= MIN_TRACKED_PEERS {
                    max_tracked_peers as nat
                } else {
                    MIN_TRACKED_PEERS as nat
                },
                window_start: now,
                counted: 0,
                peers: Map::empty(),
                refused: 0,
            }),
            r@.valid(),
            r@.has_room(),
    {
        let r = FixedWindowLimiter {
            global_max,
            per_peer_max,
            count_this_window: 0,
            per_peer: HashMap::new(),
            max_tracked_peers: if max_tracked_peers >= MIN_TRACKED_PEERS {
                max_tracked_peers
            } else {
                MIN_TRACKED_PEERS
            },
            window_start: now,
            refused_total: 0,
        };
        assert(r@.peers =~= Map::<K, nat>::empty());
        r
    }

    /// Count one event from `key` and decide whether it may proceed.
    ///
    /// The per-peer cap is consulted first, so a noisy peer's refusals do not
    /// eat the global budget the quiet peers are counted against. A peer that
    /// the full tracking map does not hold is refused rather than let through
    /// uncounted.
    pub fn check(&mut self, key: K, now: Moment) -> (r: Result<(), Refusal>)
        requires
            obeys_key_model::<K>(),
            old(self)@.valid(),
            old(self)@.has_room(),
        ensures
            r == old(self)@.at(now).verdict(key),
            final(self)@ == old(self)@.at(now).after(key),
            final(self)@.valid(),
    {
        broadcast use group_hash_axioms;

        let ghost start = self@.at(now);
        if now.since(self.window_start) >= WINDOW {
            self.window_start = now;
            self.count_this_window = 0;
            self.per_peer.clear();
        }
        assert(self@.peers =~= start.peers);
        assert(self@.peers.dom() =~= self.per_peer@.dom());
        if self.per_peer_max > 0 {
            let known: bool = self.per_peer.contains_key(&key);
            if self.per_peer.len() >= self.max_tracked_peers && !known {
                self.refused_total += 1;
                return Err(Refusal::TrackingFull);
            }
            let seen: u64 = match self.per_peer.get(&key) {
                Some(n) => *n,
                None => 0,
            };
            assert(seen == start.peer_count(key));
            self.per_peer.insert(key, seen + 1);
            assert(self@.peers =~= start.after(key).peers);
            if seen + 1 > self.per_peer_max {
                self.refused_total += 1;
                return Err(Refusal::PerPeer);
            }
        }
        self.count_this_window += 1;
        if self.global_max > 0 && self.count_this_window > self.global_max {
            self.refused_total += 1;
            return Err(Refusal::Global);
        }
        Ok(())
    }

    /// Events either cap has refused over this limiter's lifetime.
    pub fn refused_total(&self) -> (r: u64)
        ensures
            r == self@.refused,
    {
        self.refused_total
    }

    /// The per-peer cap in force.
    pub fn per_peer_max(&self) -> (r: u64)
        ensures
            r == self@.per_peer_max,
    {
        self.per_peer_max
    }

    /// The global ceiling in force.
    pub fn global_max(&self) -> (r: u64)
        ensures
            r == self@.global_max,
    {
        self.global_max
    }

    /// The tracking-map bound in force, after the floor was applied.
    pub fn max_tracked_peers(&self) -> (r: usize)
        ensures
            r == self@.max_tracked_peers,
    {
        self.max_tracked_peers
    }
}

/// The state after a run of events, each a peer and its clock reading.
pub open spec fn after_all<K>(s: LimiterState<K>, events: Seq<(K, Moment)>) -> LimiterState<K>
    decreases events.len(),
{
    if events.len() == 0 {
        s
    } else {
        after_all(s, events.drop_last()).at(events.last().1).after(events.last().0)
    }
}

/// What the last event of a run is answered.
pub open spec fn last_verdict<K>(s: LimiterState<K>, events: Seq<(K, Moment)>) -> Result<
    (),
    Refusal,
>
    recommends
        events.len() > 0,
{
    after_all(s, events.drop_last()).at(events.last().1).verdict(events.last().0)
}

/// How many events of a run are admitted.
pub open spec fn admitted<K>(s: LimiterState<K>, events: Seq<(K, Moment)>) -> nat
    decreases events.len(),
{
    if events.len() == 0 {
        0
    } else {
        admitted(s, events.drop_last()) + if last_verdict(s, events) is Ok {
            1nat
        } else {
            0nat
        }
    }
}

/// How many events of one peer are admitted in a run.
pub open spec fn admitted_from<K>(s: LimiterState<K>, events: Seq<(K, Moment)>, key: K) -> nat
    decreases events.len(),
{
    if events.len() == 0 {
        0
    } else {
        admitted_from(s, events.drop_last(), key) + if events.last().0 == key && last_verdict(
            s,
            events,
        ) is Ok {
            1nat
        } else {
            0nat
        }
    }
}

/// Whether every event of a run falls into the window that `s` has open.
pub open spec fn within_window<K>(s: LimiterState<K>, events: Seq<(K, Moment)>) -> bool {
    forall|i: int| 0 <= i < events.len() ==> !s.expired((#[trigger] events[i]).1)
}

/// Inside one window a peer's count covers every event of it that is admitted.
proof fn peer_count_covers_admitted<K>(s: LimiterState<K>, events: Seq<(K, Moment)>, key: K)
    requires
        within_window(s, events),
        s.per_peer_max > 0,
    ensures
        after_all(s, events).peer_count(key) >= s.peer_count(key) + admitted_from(s, events, key),
        after_all(s, events).window_start == s.window_start,
        after_all(s, events).per_peer_max == s.per_peer_max,
    decreases events.len(),
{
    if events.len() > 0 {
        let front = events.drop_last();
        assert(within_window(s, front));
        peer_count_covers_admitted(s, front, key);
        assert(!s.expired(events[events.len() - 1].1));
    }
}

/// Inside one window no more events are admitted than the global ceiling
/// allows, whoever sends them.
pub proof fn global_ceiling_holds<K>(s: LimiterState<K>, events: Seq<(K, Moment)>)
    requires
        within_window(s, events),
        s.global_max > 0,
        s.counted <= s.global_max,
    ensures
        s.counted + admitted(s, events) <= s.global_max,
    decreases events.len(),
{
    if events.len() > 0 {
        let front = events.drop_last();
        assert(within_window(s, front));
        global_ceiling_holds(s, front);
        counted_covers_admitted(s, front);
        assert(!s.expired(events[events.len() - 1].1));
    }
}

/// Inside one window the global count covers every admitted event.
proof fn counted_covers_admitted<K>(s: LimiterState<K>, events: Seq<(K, Moment)>)
    requires
        within_window(s, events),
    ensures
        after_all(s, events).counted >= s.counted + admitted(s, events),
        after_all(s, events).window_start == s.window_start,
        after_all(s, events).global_max == s.global_max,
    decreases events.len(),
{
    if events.len() > 0 {
        let front = events.drop_last();
        assert(within_window(s, front));
        counted_covers_admitted(s, front);
        assert(!s.expired(events[events.len() - 1].1));
    }
}

/// Inside one window a peer has no more events admitted than its cap allows.
pub proof fn per_peer_cap_holds<K>(s: LimiterState<K>, events: Seq<(K, Moment)>, key: K)
    requires
        within_window(s, events),
        s.per_peer_max > 0,
        s.peer_count(key) <= s.per_peer_max,
    ensures
        s.peer_count(key) + admitted_from(s, events, key) <= s.per_peer_max,
    decreases events.len(),
{
    if events.len() > 0 {
        let front = events.drop_last();
        assert(within_window(s, front));
        per_peer_cap_holds(s, front, key);
        peer_count_covers_admitted(s, front, key);
        assert(!s.expired(events[events.len() - 1].1));
    }
}

/// Zero disables a cap rather than refusing everything: a ceiling of zero
/// never refuses, nor does a per-peer cap of zero, and with both nothing is
/// refused.
pub proof fn zero_disables_a_cap<K>(s: LimiterState<K>, key: K, now: Moment)
    ensures
        s.global_max == 0 ==> s.at(now).verdict(key) != Err::<(), Refusal>(Refusal::Global),
        s.per_peer_max == 0 ==> s.at(now).verdict(key) != Err::<(), Refusal>(Refusal::PerPeer)
            && s.at(now).verdict(key) != Err::<(), Refusal>(Refusal::TrackingFull),
        s.global_max == 0 && s.per_peer_max == 0 ==> s.at(now).verdict(key) == Ok::<(), Refusal>(
            (),
        ) && s.at(now).after(key).refused == s.refused,
{
}

/// An event that a per-peer bound refuses spends nothing of the global
/// allowance, and nothing of any other peer's.
pub proof fn a_noisy_peer_spends_only_its_own<K>(s: LimiterState<K>, key: K, other: K)
    requires
        s.verdict(key) == Err::<(), Refusal>(Refusal::PerPeer) || s.verdict(key) == Err::<
            (),
            Refusal,
        >(Refusal::TrackingFull),
        other != key,
    ensures
        s.after(key).counted == s.counted,
        s.after(key).peer_count(other) == s.peer_count(other),
{
}

/// A whole window after the current one began, a peer whose cap is not zero is
/// answered as by a limiter that has counted nothing.
pub proof fn a_new_window_restores_the_allowance<K>(s: LimiterState<K>, key: K, now: Moment)
    requires
        s.valid(),
        now.since_spec(s.window_start) >= WINDOW,
    ensures
        s.at(now).verdict(key) == Ok::<(), Refusal>(()),
        s.at(now).after(key).window_start == now,
{
    assert(s.at(now).peers.dom() =~= Set::<K>::empty());
}

/// Every refusal is counted and no admission is: over any run the total moves
/// by the events that were not admitted.
pub proof fn refusals_are_counted_exactly<K>(s: LimiterState<K>, events: Seq<(K, Moment)>)
    ensures
        after_all(s, events).refused + admitted(s, events) == s.refused + events.len(),
    decreases events.len(),
{
    if events.len() > 0 {
        refusals_are_counted_exactly(s, events.drop_last());
    }
}

/// How many new windows a run of events begins.
pub open spec fn windows_begun<K>(s: LimiterState<K>, events: Seq<(K, Moment)>) -> nat
    decreases events.len(),
{
    if events.len() == 0 {
        0
    } else {
        windows_begun(s, events.drop_last()) + if after_all(s, events.drop_last()).expired(
            events.last().1,
        ) {
            1nat
        } else {
            0nat
        }
    }
}

/// The smaller of two numbers.
spec fn least(a: nat, b: nat) -> nat {
    if a <= b {
        a
    } else {
        b
    }
}

/// The caps stay what they are, and windows do not overlap.
proof fn windows_lie_apart<K>(s: LimiterState<K>, events: Seq<(K, Moment)>)
    ensures
        after_all(s, events).global_max == s.global_max,
        after_all(s, events).per_peer_max == s.per_peer_max,
        s.window_start.nanos + windows_begun(s, events) * WINDOW <= after_all(
            s,
            events,
        ).window_start.nanos,
    decreases events.len(),
{
    if events.len() > 0 {
        let front = events.drop_last();
        windows_lie_apart(s, front);
        let n = windows_begun(s, front);
        assert((n + 1) * WINDOW == n * WINDOW + WINDOW) by (nonlinear_arith);
    }
}

/// What is admitted is covered by the windows begun and the one that runs.
proof fn windows_cover_admitted<K>(s: LimiterState<K>, events: Seq<(K, Moment)>)
    requires
        s.global_max > 0,
    ensures
        admitted(s, events) <= s.global_max * windows_begun(s, events) + least(
            after_all(s, events).counted,
            s.global_max,
        ),
    decreases events.len(),
{
    if events.len() > 0 {
        let front = events.drop_last();
        windows_cover_admitted(s, front);
        windows_lie_apart(s, front);
        let n = windows_begun(s, front);
        assert(s.global_max * (n + 1) == s.global_max * n + s.global_max) by (nonlinear_arith);
    }
}

/// What is admitted from one peer is covered by the windows begun and the one
/// that runs.
proof fn windows_cover_admitted_from<K>(s: LimiterState<K>, events: Seq<(K, Moment)>, key: K)
    requires
        s.per_peer_max > 0,
    ensures
        admitted_from(s, events, key) <= s.per_peer_max * windows_begun(s, events) + least(
            after_all(s, events).peer_count(key),
            s.per_peer_max,
        ),
    decreases events.len(),
{
    if events.len() > 0 {
        let front = events.drop_last();
        windows_cover_admitted_from(s, front, key);
        windows_lie_apart(s, front);
        let n = windows_begun(s, front);
        assert(s.per_peer_max * (n + 1) == s.per_peer_max * n + s.per_peer_max) by (
            nonlinear_arith);
    }
}

/// Over any run of events, however its clock readings fall, no more are
/// admitted than the ceiling for each whole window that has passed, and once
/// more for the window that runs: the sustained rate cannot exceed the
/// ceiling.
pub proof fn the_sustained_rate_is_bounded<K>(s: LimiterState<K>, events: Seq<(K, Moment)>)
    requires
        s.global_max > 0,
    ensures
        ({
            let passed = after_all(s, events).window_start.nanos - s.window_start.nanos;
            &&& passed >= 0
            &&& admitted(s, events) <= s.global_max * (passed / (WINDOW as int) + 1)
        }),
{
    windows_lie_apart(s, events);
    windows_cover_admitted(s, events);
    let n = windows_begun(s, events);
    let passed = after_all(s, events).window_start.nanos - s.window_start.nanos;
    assert(n * WINDOW >= 0) by (nonlinear_arith);
    assert(n <= passed / (WINDOW as int)) by (nonlinear_arith)
        requires
            n * WINDOW <= passed,
            WINDOW == 1_000_000_000,
    ;
    assert(s.global_max * n + s.global_max <= s.global_max * (passed / (WINDOW as int) + 1))
        by (nonlinear_arith)
        requires
            n <= passed / (WINDOW as int),
            s.global_max >= 0,
    ;
}

/// Over any run of events, no more are admitted from one peer than its cap for
/// each whole window that has passed, and once more for the window that runs.
pub proof fn a_peers_sustained_rate_is_bounded<K>(
    s: LimiterState<K>,
    events: Seq<(K, Moment)>,
    key: K,
)
    requires
        s.per_peer_max > 0,
    ensures
        ({
            let passed = after_all(s, events).window_start.nanos - s.window_start.nanos;
            &&& passed >= 0
            &&& admitted_from(s, events, key) <= s.per_peer_max * (passed / (WINDOW as int) + 1)
        }),
{
    windows_lie_apart(s, events);
    windows_cover_admitted_from(s, events, key);
    let n = windows_begun(s, events);
    let passed = after_all(s, events).window_start.nanos - s.window_start.nanos;
    assert(n * WINDOW >= 0) by (nonlinear_arith);
    assert(n <= passed / (WINDOW as int)) by (nonlinear_arith)
        requires
            n * WINDOW <= passed,
            WINDOW == 1_000_000_000,
    ;
    assert(s.per_peer_max * n + s.per_peer_max <= s.per_peer_max * (passed / (WINDOW as int) + 1))
        by (nonlinear_arith)
        requires
            n <= passed / (WINDOW as int),
            s.per_peer_max >= 0,
    ;
}

/// An event is let through where its peer is tracked or can be, has had fewer
/// than its cap, and all peers together fewer than the ceiling; a cap of zero
/// is none. A peer's own cap decides before the ceiling, and a full map before
/// both. All of this is counted within one second, and anew in the next.
pub proof fn an_event_is_let_through_within_its_caps<K: Eq + Hash>(
    l: &mut FixedWindowLimiter<K>,
    key: K,
    now: Moment,
    r: Result<(), Refusal>,
)
    requires
        call_ensures(FixedWindowLimiter::<K>::check, (l, key, now), r),
    ensures
        ({
            let s = old(l)@;
            let fresh = now.nanos >= s.window_start.nanos + 1_000_000_000;
            let peers = if fresh {
                Map::<K, nat>::empty()
            } else {
                s.peers
            };
            let counted = if fresh {
                0
            } else {
                s.counted
            };
            let known = peers.dom().contains(key);
            let had = if known {
                peers[key]
            } else {
                0
            };
            let full = s.per_peer_max > 0 && !known && peers.dom().len() >= s.max_tracked_peers;
            let spent = s.per_peer_max > 0 && had >= s.per_peer_max;
            let over = s.global_max > 0 && counted >= s.global_max;
            &&& full ==> r == Err::<(), Refusal>(Refusal::TrackingFull)
            &&& !full && spent ==> r == Err::<(), Refusal>(Refusal::PerPeer)
            &&& !full && !spent && over ==> r == Err::<(), Refusal>(Refusal::Global)
            &&& !full && !spent && !over ==> r is Ok
        }),
{
}

/// A refused event is counted as refused and nothing else of the limiter's
/// rules changes; a peer whose own cap stopped it uses up none of the ceiling;
/// no event is counted for another peer; and a new second begins with the event
/// that comes a second or more after the last began.
pub proof fn an_event_is_counted_for_its_peer_alone<K: Eq + Hash>(
    l: &mut FixedWindowLimiter<K>,
    key: K,
    other: K,
    now: Moment,
    r: Result<(), Refusal>,
)
    requires
        call_ensures(FixedWindowLimiter::<K>::check, (l, key, now), r),
        other != key,
    ensures
        ({
            let was = old(l)@;
            let ends = final(l)@;
            let fresh = now.nanos >= was.window_start.nanos + 1_000_000_000;
            let counted = if fresh {
                0
            } else {
                was.counted
            };
            &&& ends.global_max == was.global_max && ends.per_peer_max == was.per_peer_max
                && ends.max_tracked_peers == was.max_tracked_peers
            &&& ends.refused == was.refused + if r is Err {
                1int
            } else {
                0int
            }
            &&& ends.window_start == if fresh {
                now
            } else {
                was.window_start
            }
            &&& ends.counted == counted + if r is Ok || r == Err::<(), Refusal>(Refusal::Global) {
                1int
            } else {
                0int
            }
            &&& fresh ==> !ends.peers.dom().contains(other)
            &&& !fresh ==> (ends.peers.dom().contains(other) <==> was.peers.dom().contains(other))
            &&& !fresh && was.peers.dom().contains(other) ==> ends.peers[other] == was.peers[other]
            &&& was.per_peer_max > 0 && r != Err::<(), Refusal>(Refusal::TrackingFull) ==> {
                &&& ends.peers.dom().contains(key)
                &&& fresh || !was.peers.dom().contains(key) ==> ends.peers[key] == 1
                &&& !fresh && was.peers.dom().contains(key) ==> ends.peers[key] == was.peers[key] + 1
            }
        }),
{
}

/// A new limiter enforces what it was given, tracks at least two peers, and has
/// counted and refused nothing.
pub proof fn a_new_limiter_enforces_what_it_was_given<K: Eq + Hash>(
    all: u64,
    per_peer: u64,
    room: usize,
    now: Moment,
    l: &FixedWindowLimiter<K>,
    a: u64,
    b: u64,
    c: usize,
    d: u64,
)
    requires
        call_ensures(FixedWindowLimiter::<K>::new, (all, per_peer, room, now), *l),
        call_ensures(FixedWindowLimiter::<K>::global_max, (l,), a),
        call_ensures(FixedWindowLimiter::<K>::per_peer_max, (l,), b),
        call_ensures(FixedWindowLimiter::<K>::max_tracked_peers, (l,), c),
        call_ensures(FixedWindowLimiter::<K>::refused_total, (l,), d),
    ensures
        a == all,
        b == per_peer,
        room >= 2 ==> c == room,
        room < 2 ==> c == 2,
        room == DEFAULT_MAX_TRACKED_PEERS ==> c == 10_000,
        d == 0,
        l@.counted == 0,
        l@.window_start == now,
        forall|k: K| !#[trigger] l@.peers.dom().contains(k),
{
}

} // verus!
