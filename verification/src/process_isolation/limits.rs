//! Rate limits on the responses that are sent.
//!
//! Both limits are fixed windows. The one across all destinations bounds the
//! load; the one per destination bounds what an address that somebody else
//! chose can be made to receive.
use crate::clock::{Moment, NANOS_PER_SEC};
use crate::net::IpAddr;
use vstd::prelude::*;

verus! {

/// Limits the responses sent per second across all destinations.
#[derive(Debug)]
pub struct RateLimiter {
    max_per_second: u32,
    count_this_window: u32,
    window_start: Moment,
}

/// What a limiter has let through in its current window.
pub ghost struct WindowState {
    /// Responses permitted per one-second window.
    pub max: nat,
    /// Responses let through in the current window.
    pub count: nat,
    /// When the current window began.
    pub start: Moment,
}

impl WindowState {
    /// The window that a request at `now` falls into: this one, or an empty
    /// one beginning at `now` once a second has passed.
    pub open spec fn at(self, now: Moment) -> WindowState {
        if now.since_spec(self.start) >= NANOS_PER_SEC {
            WindowState { count: 0, start: now, ..self }
        } else {
            self
        }
    }

    /// Whether one more response may go.
    pub open spec fn has_room(self) -> bool {
        self.count < self.max
    }

    /// The window after one request.
    pub open spec fn after(self) -> WindowState {
        if self.has_room() {
            WindowState { count: self.count + 1, ..self }
        } else {
            self
        }
    }
}

impl View for RateLimiter {
    type V = WindowState;

    closed spec fn view(&self) -> WindowState {
        WindowState {
            max: self.max_per_second as nat,
            count: self.count_this_window as nat,
            start: self.window_start,
        }
    }
}

impl RateLimiter {
    /// A limiter whose first window begins at `now`.
    pub fn new(max_per_second: u32, now: Moment) -> (r: Self)
        ensures
            r@ == (WindowState { max: max_per_second as nat, count: 0, start: now }),
    {
        RateLimiter { max_per_second, count_this_window: 0, window_start: now }
    }

    /// Whether a response may go at `now`.
    pub fn allow(&mut self, now: Moment) -> (r: bool)
        ensures
            r == old(self)@.at(now).has_room(),
            final(self)@ == old(self)@.at(now).after(),
    {
        if now.since(self.window_start) >= NANOS_PER_SEC {
            self.count_this_window = 0;
            self.window_start = now;
        }
        if self.count_this_window < self.max_per_second {
            self.count_this_window += 1;
            true
        } else {
            false
        }
    }
}

/// Responses that may go to any single destination address per minute. It is
/// fixed on purpose: the destination is chosen by whoever sent the packet that
/// is answered.
pub const MAX_PER_DST_PER_MINUTE: u32 = 3;

/// Length of a destination's window, in nanoseconds.
pub const DST_WINDOW: u64 = 60_000_000_000;

/// Age from which a destination's window is forgotten, in nanoseconds.
pub const DST_STALE: u64 = 120_000_000_000;

/// One destination's window.
#[derive(Debug, Clone, Copy, PartialEq, Eq, Structural)]
pub struct DstBucket {
    /// The destination.
    pub dst: IpAddr,
    /// When its window began.
    pub start: Moment,
    /// Responses let through in that window.
    pub count: u32,
}

/// A destination's window in a list of them.
pub open spec fn bucket_in(list: Seq<DstBucket>, dst: IpAddr) -> Option<DstBucket>
    decreases list.len(),
{
    if list.len() == 0 {
        None
    } else if list.last().dst == dst {
        Some(list.last())
    } else {
        bucket_in(list.drop_last(), dst)
    }
}

/// Whether no destination is listed twice, and none over its limit.
pub open spec fn buckets_valid(list: Seq<DstBucket>) -> bool {
    &&& forall|i: int, j: int|
        0 <= i < j < list.len() ==> (#[trigger] list[i]).dst != (#[trigger] list[j]).dst
    &&& forall|i: int| 0 <= i < list.len() ==> (#[trigger] list[i]).count <= MAX_PER_DST_PER_MINUTE
}

/// The window that a response to a destination falls into: its own while that
/// is younger than a minute, else an empty one beginning at `now`.
pub open spec fn window_at(b: Option<DstBucket>, dst: IpAddr, now: Moment) -> DstBucket {
    match b {
        Some(x) => if now.since_spec(x.start) >= DST_WINDOW {
            DstBucket { dst, start: now, count: 0 }
        } else {
            x
        },
        None => DstBucket { dst, start: now, count: 0 },
    }
}

/// The window after one request.
pub open spec fn window_after(w: DstBucket) -> DstBucket {
    if w.count < MAX_PER_DST_PER_MINUTE {
        DstBucket { count: (w.count + 1) as u32, ..w }
    } else {
        w
    }
}

/// A window after the sweep: it stays while it is younger than two minutes.
pub open spec fn swept(b: Option<DstBucket>, now: Moment) -> Option<DstBucket> {
    match b {
        Some(x) => if now.since_spec(x.start) < DST_STALE {
            Some(x)
        } else {
            None
        },
        None => None,
    }
}

/// Whether the sweep runs again: the first time, and once a second has passed.
pub open spec fn sweep_due(last: Option<Moment>, now: Moment) -> bool {
    match last {
        Some(prev) => now.since_spec(prev) >= NANOS_PER_SEC,
        None => true,
    }
}

/// A destination that stands at a place of a valid list has the window there.
proof fn bucket_at(list: Seq<DstBucket>, i: int)
    requires
        0 <= i < list.len(),
        forall|a: int, b: int|
            0 <= a < b < list.len() ==> (#[trigger] list[a]).dst != (#[trigger] list[b]).dst,
    ensures
        bucket_in(list, list[i].dst) == Some(list[i]),
    decreases list.len(),
{
    if i < list.len() - 1 {
        assert(list[i].dst != list[list.len() - 1].dst);
        assert(list.drop_last()[i] == list[i]);
        bucket_at(list.drop_last(), i);
    }
}

/// A destination that stands nowhere in a list has no window.
proof fn bucket_nowhere(list: Seq<DstBucket>, dst: IpAddr)
    requires
        forall|i: int| 0 <= i < list.len() ==> (#[trigger] list[i]).dst != dst,
    ensures
        bucket_in(list, dst) is None,
    decreases list.len(),
{
    if list.len() > 0 {
        assert(list[list.len() - 1].dst != dst);
        assert forall|i: int| 0 <= i < list.drop_last().len() implies (
        #[trigger] list.drop_last()[i]).dst != dst by {
            assert(list.drop_last()[i] == list[i]);
        }
        bucket_nowhere(list.drop_last(), dst);
    }
}

/// Replacing one destination's window leaves the others' as they are.
proof fn bucket_update(list: Seq<DstBucket>, i: int, b: DstBucket, other: IpAddr)
    requires
        0 <= i < list.len(),
        list[i].dst == b.dst,
        other != b.dst,
    ensures
        bucket_in(list.update(i, b), other) == bucket_in(list, other),
    decreases list.len(),
{
    if i == list.len() - 1 {
        assert(list.update(i, b).drop_last() =~= list.drop_last());
    } else {
        assert(list.update(i, b).drop_last() =~= list.drop_last().update(i, b));
        bucket_update(list.drop_last(), i, b, other);
    }
}

/// Limits the responses sent to any single destination address.
#[derive(Debug)]
pub struct PerDstRateLimiter {
    buckets: Vec<DstBucket>,
    last_cleanup: Option<Moment>,
}

impl PerDstRateLimiter {
    /// A destination's window.
    pub closed spec fn bucket(self, dst: IpAddr) -> Option<DstBucket> {
        bucket_in(self.buckets@, dst)
    }

    /// When the sweep last ran.
    pub closed spec fn last_cleanup(self) -> Option<Moment> {
        self.last_cleanup
    }

    /// Whether no destination is listed twice, and none over its limit.
    pub closed spec fn valid(self) -> bool {
        buckets_valid(self.buckets@)
    }

    /// A limiter that has let nothing through.
    pub fn new() -> (r: Self)
        ensures
            r.valid(),
            forall|d: IpAddr| #[trigger] r.bucket(d) is None,
            r.last_cleanup() is None,
    {
        PerDstRateLimiter { buckets: Vec::new(), last_cleanup: None }
    }

    /// Whether a response to `dst` may go at `now`.
    pub fn allow(&mut self, dst: IpAddr, now: Moment) -> (r: bool)
        requires
            old(self).valid(),
        ensures
            final(self).valid(),
            r == (window_at(old(self).bucket(dst), dst, now).count < MAX_PER_DST_PER_MINUTE),
            final(self).bucket(dst) == Some(
                window_after(window_at(old(self).bucket(dst), dst, now)),
            ),
            forall|other: IpAddr|
                other != dst ==> #[trigger] final(self).bucket(other) == old(self).bucket(other),
            final(self).last_cleanup() == old(self).last_cleanup(),
    {
        let ghost before = self.buckets@;
        let mut i: usize = 0;
        while i < self.buckets.len() && self.buckets[i].dst != dst
            invariant
                i <= self.buckets.len(),
                forall|k: int| 0 <= k < i ==> (#[trigger] self.buckets@[k]).dst != dst,
            decreases self.buckets.len() - i,
        {
            i += 1;
        }
        let mut window: DstBucket = DstBucket { dst, start: now, count: 0 };
        let known: bool = i < self.buckets.len();
        proof {
            if known {
                bucket_at(before, i as int);
            } else {
                bucket_nowhere(before, dst);
            }
        }
        if known && now.since(self.buckets[i].start) < DST_WINDOW {
            window = self.buckets[i];
        }
        assert(window == window_at(bucket_in(before, dst), dst, now));
        let room: bool = window.count < MAX_PER_DST_PER_MINUTE;
        if room {
            window.count += 1;
        }
        if known {
            self.buckets.set(i, window);
        } else {
            self.buckets.push(window);
            i = self.buckets.len() - 1;
            assert(self.buckets@.drop_last() =~= before);
        }
        proof {
            bucket_at(self.buckets@, i as int);
            assert forall|other: IpAddr| other != dst implies #[trigger] bucket_in(
                self.buckets@,
                other,
            ) == bucket_in(before, other) by {
                if known {
                    bucket_update(before, i as int, window, other);
                }
            }
        }
        room
    }

    /// Forget windows that began two minutes ago or earlier.
    fn cleanup(&mut self, now: Moment)
        requires
            old(self).valid(),
        ensures
            final(self).valid(),
            forall|d: IpAddr| #[trigger]
                final(self).bucket(d) == swept(old(self).bucket(d), now),
            final(self).last_cleanup() == old(self).last_cleanup(),
    {
        let ghost all = self.buckets@;
        let mut kept: Vec<DstBucket> = Vec::new();
        let mut i: usize = 0;
        assert(all.take(0) =~= Seq::<DstBucket>::empty());
        while i < self.buckets.len()
            invariant
                i <= self.buckets.len(),
                self.buckets@ == all,
                buckets_valid(all),
                buckets_valid(kept@),
                forall|k: int|
                    0 <= k < kept@.len() ==> exists|m: int|
                        0 <= m < i && (#[trigger] all[m]) == #[trigger] kept@[k],
                forall|d: IpAddr| #[trigger]
                    bucket_in(kept@, d) == swept(bucket_in(all.take(i as int), d), now),
            decreases self.buckets.len() - i,
        {
            let ghost k0 = kept@;
            let b: DstBucket = self.buckets[i];
            let keep: bool = now.since(b.start) < DST_STALE;
            assert(all.take(i + 1).drop_last() =~= all.take(i as int));
            assert(all.take(i + 1).last() == b);
            if keep {
                kept.push(b);
                assert(kept@.drop_last() =~= k0);
                assert forall|x: int, y: int| 0 <= x < y < kept@.len() implies (
                #[trigger] kept@[x]).dst != (#[trigger] kept@[y]).dst by {
                    if y == kept@.len() - 1 {
                        let m = choose|m: int| 0 <= m < i && (#[trigger] all[m]) == k0[x];
                        assert(all[m].dst != all[i as int].dst);
                    }
                }
            }
            assert forall|d: IpAddr| #[trigger] bucket_in(kept@, d) == swept(
                bucket_in(all.take(i + 1), d),
                now,
            ) by {
                assert(bucket_in(k0, d) == swept(bucket_in(all.take(i as int), d), now));
                if d == b.dst && !keep {
                    assert(bucket_in(all.take(i + 1), d) == Some(b));
                    assert forall|k: int| 0 <= k < k0.len() implies (#[trigger] k0[k]).dst != d by {
                        let m = choose|m: int| 0 <= m < i && (#[trigger] all[m]) == k0[k];
                        assert(all[m].dst != all[i as int].dst);
                    }
                    bucket_nowhere(k0, d);
                }
            }
            assert forall|k: int| 0 <= k < kept@.len() implies exists|m: int|
                0 <= m < i + 1 && (#[trigger] all[m]) == #[trigger] kept@[k] by {
                if k < k0.len() {
                    let m = choose|m: int| 0 <= m < i && (#[trigger] all[m]) == k0[k];
                    assert(all[m] == kept@[k]);
                } else {
                    assert(all[i as int] == kept@[k]);
                }
            }
            i += 1;
        }
        assert(all.take(i as int) =~= all);
        self.buckets = kept;
    }

    /// Run the sweep at most once per second; the first call always sweeps.
    pub fn cleanup_if_due(&mut self, now: Moment)
        requires
            old(self).valid(),
        ensures
            final(self).valid(),
            if sweep_due(old(self).last_cleanup(), now) {
                &&& final(self).last_cleanup() == Some(now)
                &&& forall|d: IpAddr| #[trigger]
                    final(self).bucket(d) == swept(old(self).bucket(d), now)
            } else {
                *final(self) == *old(self)
            },
    {
        let due: bool = match self.last_cleanup {
            Some(prev) => now.since(prev) >= NANOS_PER_SEC,
            None => true,
        };
        if due {
            self.last_cleanup = Some(now);
            self.cleanup(now);
        }
    }

    /// How many destinations are remembered.
    pub fn remembered(&self) -> (r: usize)
        ensures
            r == self.count(),
    {
        self.buckets.len()
    }

    /// How many destinations are remembered.
    pub closed spec fn count(self) -> nat {
        self.buckets@.len()
    }
}

/// The sweep never changes an answer: whether a window is forgotten or not,
/// the next request to its destination at that time or later falls into the
/// same window.
pub proof fn the_sweep_changes_no_answer(
    b: Option<DstBucket>,
    dst: IpAddr,
    swept_at: Moment,
    now: Moment,
)
    requires
        swept_at.nanos <= now.nanos,
    ensures
        window_at(swept(b, swept_at), dst, now) == window_at(b, dst, now),
{
}

/// A destination's window after requests at these times.
pub open spec fn window_after_all(b: Option<DstBucket>, dst: IpAddr, times: Seq<Moment>) -> Option<
    DstBucket,
>
    decreases times.len(),
{
    if times.len() == 0 {
        b
    } else {
        Some(
            window_after(
                window_at(window_after_all(b, dst, times.drop_last()), dst, times.last()),
            ),
        )
    }
}

/// How many requests at these times are let through.
pub open spec fn let_through(b: Option<DstBucket>, dst: IpAddr, times: Seq<Moment>) -> nat
    decreases times.len(),
{
    if times.len() == 0 {
        0
    } else {
        let w = window_at(window_after_all(b, dst, times.drop_last()), dst, times.last());
        let_through(b, dst, times.drop_last()) + if w.count < MAX_PER_DST_PER_MINUTE {
            1nat
        } else {
            0nat
        }
    }
}

/// However many requests name one destination within a minute of its first,
/// no more than three are answered.
pub proof fn a_destination_is_answered_three_times_a_minute(
    dst: IpAddr,
    start: Moment,
    times: Seq<Moment>,
)
    requires
        times.len() > 0,
        times[0] == start,
        forall|i: int|
            0 <= i < times.len() ==> (#[trigger] times[i]).since_spec(start) < DST_WINDOW,
    ensures
        let_through(None, dst, times) <= MAX_PER_DST_PER_MINUTE,
        window_after_all(None, dst, times) matches Some(w) && w.start == start && w.count
            == let_through(None, dst, times),
    decreases times.len(),
{
    let front = times.drop_last();
    if front.len() > 0 {
        assert forall|i: int| 0 <= i < front.len() implies (#[trigger] front[i]).since_spec(start)
            < DST_WINDOW by {
            assert(front[i] == times[i]);
        }
        a_destination_is_answered_three_times_a_minute(dst, start, front);
        assert(times[times.len() - 1].since_spec(start) < DST_WINDOW);
    } else {
        assert(times.last() == start);
        assert(window_after_all(None, dst, front) is None);
        assert(let_through(None, dst, front) == 0);
    }
}

/// A minute after its window began, a destination's allowance is back.
pub proof fn an_allowance_returns_after_its_minute(b: DstBucket, dst: IpAddr, now: Moment)
    requires
        now.since_spec(b.start) >= DST_WINDOW,
    ensures
        window_at(Some(b), dst, now).count == 0,
{
}

} // verus!
