//! Sliding-window FPS meter. Records a tick on each frame; reports the
//! rate over the most recent `capacity` ticks.
//!
//! Timestamps are nanoseconds on a monotonic clock; the frontend turns the
//! returned [`FpsSample`] into frames per second.

use vstd::prelude::*;

verus! {

/// The rate over the current window: `intervals` frame intervals spanning
/// `span_nanos` nanoseconds. Both are zero when no rate can be given
/// (fewer than two ticks, or no time elapsed); the rate is then 0.
#[derive(Clone, Copy, Debug, PartialEq, Eq, Structural)]
pub struct FpsSample {
    pub intervals: usize,
    pub span_nanos: u64,
}

/// The window after recording `now`: the oldest tick leaves a full window.
pub open spec fn slide(window: Seq<u64>, capacity: nat, now: u64) -> Seq<u64> {
    if window.len() == capacity {
        window.drop_first().push(now)
    } else {
        window.push(now)
    }
}

/// The sample a window gives: its intervals and its span from first to
/// last tick (zero if the clock went backwards).
pub open spec fn sample_of(window: Seq<u64>) -> FpsSample {
    let span = if window.last() >= window[0] {
        (window.last() - window[0]) as u64
    } else {
        0u64
    };
    if window.len() < 2 || span == 0 {
        FpsSample { intervals: 0, span_nanos: 0 }
    } else {
        FpsSample { intervals: (window.len() - 1) as usize, span_nanos: span }
    }
}

pub struct FpsMeter {
    window: Vec<u64>,
    capacity: usize,
}

impl FpsMeter {
    #[verifier::type_invariant]
    spec fn window_fits(self) -> bool {
        self.window.len() <= self.capacity
    }

    /// The timestamps in the window, oldest first.
    pub closed spec fn ticks(&self) -> Seq<u64> {
        self.window@
    }

    /// How many ticks the window holds at most.
    pub closed spec fn capacity(&self) -> nat {
        self.capacity as nat
    }

    pub fn new(capacity: usize) -> (m: Self)
        ensures
            m.ticks() == Seq::<u64>::empty(),
            m.capacity() == capacity,
    {
        FpsMeter { window: Vec::new(), capacity }
    }

    /// Record a tick at `now_nanos` and return the rate over the window,
    /// which keeps the last `capacity` ticks.
    pub fn record_tick(&mut self, now_nanos: u64) -> (s: FpsSample)
        requires
            old(self).capacity() > 0,
        ensures
            final(self).capacity() == old(self).capacity(),
            final(self).ticks() == slide(old(self).ticks(), old(self).capacity(), now_nanos),
            final(self).ticks().len() <= final(self).capacity(),
            s == sample_of(final(self).ticks()),
    {
        proof {
            use_type_invariant(&*self);
        }
        let mut window: Vec<u64> = Vec::new();
        std::mem::swap(&mut window, &mut self.window);
        if window.len() == self.capacity {
            window.remove(0);
        }
        window.push(now_nanos);
        let len = window.len();
        let first = window[0];
        let last = window[len - 1];
        self.window = window;
        let span = if last >= first {
            last - first
        } else {
            0
        };
        if len < 2 || span == 0 {
            FpsSample { intervals: 0, span_nanos: 0 }
        } else {
            FpsSample { intervals: len - 1, span_nanos: span }
        }
    }
}

/// The window never holds more than `capacity` ticks, and holds the most
/// recent ones: after a tick it ends with that tick, and a full window
/// drops exactly its oldest tick.
pub proof fn lemma_window_keeps_latest(window: Seq<u64>, capacity: nat, now: u64)
    requires
        0 < capacity,
        window.len() <= capacity,
    ensures
        slide(window, capacity, now).len() <= capacity,
        slide(window, capacity, now).last() == now,
        window.len() == capacity ==> slide(window, capacity, now).drop_last() == window.drop_first(),
        window.len() < capacity ==> slide(window, capacity, now).drop_last() == window,
{
    assert(window.drop_first().push(now).drop_last() =~= window.drop_first());
    assert(window.push(now).drop_last() =~= window);
}


/// The window of a meter that started empty and recorded `ticks` in order.
pub open spec fn replay(ticks: Seq<u64>, capacity: nat) -> Seq<u64>
    decreases ticks.len(),
{
    if ticks.len() == 0 {
        Seq::empty()
    } else {
        slide(replay(ticks.drop_last(), capacity), capacity, ticks.last())
    }
}

/// Recording one more tick slides the replayed window by that tick, so a
/// meter built by `new` and fed with `record_tick` holds `replay` of the
/// ticks recorded so far.
pub proof fn lemma_replay_step(ticks: Seq<u64>, capacity: nat, now: u64)
    ensures
        replay(ticks.push(now), capacity) == slide(replay(ticks, capacity), capacity, now),
        replay(Seq::empty(), capacity) == Seq::<u64>::empty(),
{
    assert(ticks.push(now).drop_last() =~= ticks);
}

/// How many ticks a window of `capacity` holds after `k` ticks.
pub open spec fn window_len(k: nat, capacity: nat) -> nat {
    if k < capacity {
        k
    } else {
        capacity
    }
}

/// After any sequence of ticks, the window holds exactly the most recent
/// `min(k, capacity)` of them, oldest first.
pub proof fn lemma_window_is_latest_ticks(ticks: Seq<u64>, capacity: nat)
    requires
        capacity > 0,
    ensures
        replay(ticks, capacity) == ticks.subrange(
            ticks.len() - window_len(ticks.len(), capacity),
            ticks.len() as int,
        ),
    decreases ticks.len(),
{
    let k = ticks.len();
    if k > 0 {
        let prefix = ticks.drop_last();
        lemma_window_is_latest_ticks(prefix, capacity);
        let w = replay(prefix, capacity);
        if (k - 1) as nat >= capacity {
            assert(w.len() == capacity);
            assert(w.drop_first().push(ticks.last()) =~= ticks.subrange(k - capacity, k as int));
        } else {
            assert(w.len() == k - 1);
            assert(w.push(ticks.last()) =~= ticks.subrange(0, k as int));
        }
    }
}

/// The rate a meter reports after ticks at non-decreasing times: with `n`
/// ticks in the window, none if `n < 2` or the window spans no time, and
/// otherwise `n - 1` intervals over the time from the window's oldest tick
/// to the newest.
pub proof fn lemma_rate_over_latest_ticks(ticks: Seq<u64>, capacity: nat)
    requires
        capacity > 0,
        ticks.len() > 0,
        forall|i: int, j: int| 0 <= i <= j < ticks.len() ==> ticks[i] <= ticks[j],
    ensures
        ({
            let k = ticks.len();
            let n = window_len(k, capacity);
            let oldest = ticks[k - n];
            sample_of(replay(ticks, capacity)) == if n < 2 || ticks.last() == oldest {
                FpsSample { intervals: 0, span_nanos: 0 }
            } else {
                FpsSample { intervals: (n - 1) as usize, span_nanos: (ticks.last() - oldest) as u64 }
            }
        }),
{
    lemma_window_is_latest_ticks(ticks, capacity);
    let k = ticks.len();
    let n = window_len(k, capacity);
    let w = replay(ticks, capacity);
    assert(w[0] == ticks[k - n]);
    assert(w.last() == ticks.last());
    assert(ticks[k - n] <= ticks[k - 1]);
}

} // verus!
