use vstd::prelude::*;
use crate::bounds::{compute_child_bounds, window_bounds, Bounds, HostWindow};
use crate::registry::{move_every, SessionRegistry};

verus! {

/// Least time between two applied layout updates, in milliseconds (about 60 per second).
pub const RESIZE_INTERVAL_MS: u64 = 16;

/// Drops resize events that come sooner than the interval after the last applied one.
#[derive(Clone, Copy, Debug, PartialEq, Eq, Structural)]
pub struct ResizeThrottle {
    /// When the last update was applied, in milliseconds on a monotonic clock.
    pub last_applied_ms: u64,
}

/// An event at `now` is applied when the interval has passed since `last`.
pub open spec fn accepts(last: int, now: int) -> bool {
    now >= last + RESIZE_INTERVAL_MS
}

/// The time of the last applied update and the number of applied updates, after the
/// events at `times` reach a throttle whose last update was at `last`.
pub open spec fn throttle_run(last: int, times: Seq<u64>) -> (int, nat)
    decreases times.len(),
{
    if times.len() == 0 {
        (last, 0)
    } else {
        let (l, c) = throttle_run(last, times.drop_last());
        if accepts(l, times.last() as int) {
            (times.last() as int, c + 1)
        } else {
            (l, c)
        }
    }
}

impl ResizeThrottle {
    /// A throttle that counts the moment `now_ms` as the last update.
    pub fn new(now_ms: u64) -> (r: ResizeThrottle)
        ensures
            r.last_applied_ms == now_ms,
    {
        ResizeThrottle { last_applied_ms: now_ms }
    }

    /// Tells whether an event at `now_ms` is applied, and if so records it.
    pub fn accept(&mut self, now_ms: u64) -> (r: bool)
        ensures
            r == accepts(old(self).last_applied_ms as int, now_ms as int),
            final(self).last_applied_ms == if r { now_ms } else { old(self).last_applied_ms },
    {
        if now_ms.saturating_sub(self.last_applied_ms) >= RESIZE_INTERVAL_MS {
            self.last_applied_ms = now_ms;
            true
        } else {
            false
        }
    }
}

/// Handles a resize of the host window at `now_ms`: unless the throttle drops the
/// event, moves every session to the layout of `window` and returns that layout.
pub fn on_window_resized(
    registry: &mut SessionRegistry,
    throttle: &mut ResizeThrottle,
    window: &HostWindow,
    now_ms: u64,
) -> (r: Option<Bounds>)
    requires
        old(registry).wf(),
    ensures
        final(registry).wf(),
        accepts(old(throttle).last_applied_ms as int, now_ms as int) ==> r == Some(
            window_bounds(*window),
        ) && final(registry)@ == move_every(old(registry)@, window_bounds(*window))
            && final(throttle).last_applied_ms == now_ms,
        !accepts(old(throttle).last_applied_ms as int, now_ms as int) ==> r is None
            && final(registry)@ == old(registry)@ && *final(throttle) == *old(throttle),
{
    if throttle.accept(now_ms) {
        let bounds = compute_child_bounds(window);
        registry.apply_bounds(bounds);
        Some(bounds)
    } else {
        None
    }
}

proof fn lemma_burst_prefix(last: int, times: Seq<u64>)
    requires
        times.len() > 0,
        last <= times[0],
        forall|a: int, b: int| 0 <= a <= b < times.len() ==> times[a] <= times[b],
        forall|k: int| 0 <= k < times.len() ==> #[trigger] times[k] < times[0] + RESIZE_INTERVAL_MS,
    ensures
        throttle_run(last, times).1 <= 1,
        throttle_run(last, times).1 == 0 ==> throttle_run(last, times).0 == last,
        throttle_run(last, times).1 == 1 ==> throttle_run(last, times).0 >= times[0],
        throttle_run(last, times).1 == 1 <==> accepts(last, times.last() as int),
    decreases times.len(),
{
    let p = times.drop_last();
    if times.len() > 1 {
        assert(p[0] == times[0]);
        lemma_burst_prefix(last, p);
        assert(p.last() <= times.last());
    } else {
        assert(throttle_run(last, p) == (last, 0nat));
    }
}

/// A burst of resize events, all less than the interval after the first, applies at
/// most one update; it applies one exactly when the last event of the burst comes at
/// least the interval after the update applied before the burst.
pub proof fn lemma_burst_applies_at_most_once(last: u64, times: Seq<u64>)
    requires
        times.len() > 0,
        last <= times[0],
        forall|a: int, b: int| 0 <= a <= b < times.len() ==> times[a] <= times[b],
        forall|k: int| 0 <= k < times.len() ==> #[trigger] times[k] < times[0] + RESIZE_INTERVAL_MS,
    ensures
        throttle_run(last as int, times).1 <= 1,
        throttle_run(last as int, times).1 == 1 <==> accepts(last as int, times.last() as int),
{
    lemma_burst_prefix(last as int, times);
}

} // verus!
