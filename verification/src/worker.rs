//! The background worker that nudges the cursor while the simulation is on.
//!
//! Once a second the worker reads the switch and decides, from what it holds,
//! what to do; the caller carries the decision out.
use vstd::prelude::*;

verus! {

/// What the worker does on one tick.
#[derive(Clone, Copy, Debug, PartialEq, Eq, Structural)]
pub struct Tick {
    /// Take the assertion that keeps the display awake.
    pub acquire_guard: bool,
    /// Drop that assertion and forget when the last nudge was.
    pub reset: bool,
    /// Nudge the cursor now, and remember this moment as the last nudge.
    pub nudge: bool,
}

/// Whether a nudge is due: none has been made since the simulation was last
/// switched on, or the last one is at least an interval old. The age is in
/// whole elapsed seconds; as the interval is whole seconds too, this is the
/// same as comparing the exact elapsed time with the interval.
pub open spec fn nudge_due(since_last_nudge: Option<u64>, interval_secs: u64) -> bool {
    match since_last_nudge {
        None => true,
        Some(age) => age >= interval_secs,
    }
}

/// The tick that the worker makes: while on, it takes the display assertion
/// if it does not hold it and nudges when a nudge is due; while off, it
/// drops the assertion, forgets the last nudge and does nothing else.
pub open spec fn tick_of(
    holds_guard: bool,
    enabled: bool,
    since_last_nudge: Option<u64>,
    interval_secs: u64,
) -> Tick {
    Tick {
        acquire_guard: enabled && !holds_guard,
        reset: !enabled,
        nudge: enabled && nudge_due(since_last_nudge, interval_secs),
    }
}

/// Decides one tick of the worker.
pub fn worker_tick(
    holds_guard: bool,
    enabled: bool,
    since_last_nudge: Option<u64>,
    interval_secs: u64,
) -> (r: Tick)
    ensures
        r == tick_of(holds_guard, enabled, since_last_nudge, interval_secs),
{
    let mut tick = Tick { acquire_guard: false, reset: false, nudge: false };
    if enabled && !holds_guard {
        tick.acquire_guard = true;
    } else if !enabled {
        tick.reset = true;
    }
    let due = match since_last_nudge {
        None => true,
        Some(age) => age >= interval_secs,
    };
    tick.nudge = enabled && due;
    tick
}

/// While the simulation is off the worker never nudges, and it lets go of
/// the display assertion and of the time of the last nudge.
pub proof fn off_means_idle(holds_guard: bool, since_last_nudge: Option<u64>, interval_secs: u64)
    ensures
        !tick_of(holds_guard, false, since_last_nudge, interval_secs).nudge,
        !tick_of(holds_guard, false, since_last_nudge, interval_secs).acquire_guard,
        tick_of(holds_guard, false, since_last_nudge, interval_secs).reset,
{
}

/// Switching the simulation on nudges at once: after an off tick the last
/// nudge is forgotten, so the first tick that finds it on nudges.
pub proof fn switching_on_nudges_at_once(
    holds_guard: bool,
    since_last_nudge: Option<u64>,
    interval_secs: u64,
)
    ensures
        tick_of(holds_guard, false, since_last_nudge, interval_secs).reset,
        tick_of(false, true, None, interval_secs).nudge,
        tick_of(false, true, None, interval_secs).acquire_guard,
{
}

/// While on, two nudges are at least an interval apart: a tick that comes
/// less than an interval after the last nudge does not nudge, and one that
/// comes an interval or more after it does.
pub proof fn nudges_are_an_interval_apart(holds_guard: bool, age: u64, interval_secs: u64)
    ensures
        age < interval_secs ==> !tick_of(holds_guard, true, Some(age), interval_secs).nudge,
        age >= interval_secs ==> tick_of(holds_guard, true, Some(age), interval_secs).nudge,
{
}

/// The display assertion is taken once: a worker that holds it does not take
/// it again.
pub proof fn guard_taken_once(since_last_nudge: Option<u64>, interval_secs: u64, enabled: bool)
    ensures
        !tick_of(true, enabled, since_last_nudge, interval_secs).acquire_guard,
{
}

/// The moments at which a worker nudges over a run of ticks, each tick
/// given as the moment it happens (in whole seconds) and whether the
/// simulation is on; `last` is the moment of the last nudge before the run.
pub open spec fn nudge_times(last: Option<u64>, ticks: Seq<(u64, bool)>, interval_secs: u64) -> Seq<
    u64,
>
    decreases ticks.len(),
{
    if ticks.len() == 0 {
        Seq::empty()
    } else {
        let now = ticks[0].0;
        let age = match last {
            Some(t) => Some((now - t) as u64),
            None => None,
        };
        let t = tick_of(true, ticks[0].1, age, interval_secs);
        let next = if t.reset {
            None
        } else if t.nudge {
            Some(now)
        } else {
            last
        };
        (if t.nudge {
            seq![now]
        } else {
            Seq::empty()
        }) + nudge_times(next, ticks.drop_first(), interval_secs)
    }
}

/// The ticks come in time order, none before `last`.
pub open spec fn ordered_after(last: Option<u64>, ticks: Seq<(u64, bool)>) -> bool {
    &&& forall|i: int, j: int| 0 <= i <= j < ticks.len() ==> ticks[i].0 <= ticks[j].0
    &&& (last matches Some(t) ==> forall|i: int| 0 <= i < ticks.len() ==> t <= ticks[i].0)
}

/// The simulation stays on through the ticks.
pub open spec fn always_on(ticks: Seq<(u64, bool)>) -> bool {
    forall|i: int| 0 <= i < ticks.len() ==> ticks[i].1
}

/// Nudge moments at least an interval apart, the first an interval after
/// `last`.
pub open spec fn spaced(last: Option<u64>, s: Seq<u64>, interval_secs: u64) -> bool {
    &&& forall|i: int| 0 <= i < s.len() - 1 ==> s[i] + interval_secs <= #[trigger] s[i + 1]
    &&& (last matches Some(t) ==> (s.len() > 0 ==> t + interval_secs <= s[0]))
}

/// While the simulation stays on, the worker nudges at most once per
/// interval: over any run of ticks in time order, the moments it nudges are
/// at least an interval apart, and the first comes at least an interval
/// after the nudge before the run.
pub proof fn nudges_spaced_over_a_run(last: Option<u64>, ticks: Seq<(u64, bool)>, interval_secs: u64)
    requires
        ordered_after(last, ticks),
        always_on(ticks),
    ensures
        spaced(last, nudge_times(last, ticks, interval_secs), interval_secs),
    decreases ticks.len(),
{
    if ticks.len() > 0 {
        let now = ticks[0].0;
        let age = match last {
            Some(t) => Some((now - t) as u64),
            None => None,
        };
        let t = tick_of(true, ticks[0].1, age, interval_secs);
        let next = if t.nudge {
            Some(now)
        } else {
            last
        };
        let rest = ticks.drop_first();
        assert(ticks[0].1);
        assert forall|i: int, j: int| 0 <= i <= j < rest.len() implies rest[i].0 <= rest[j].0 by {
            assert(rest[i] == ticks[i + 1] && rest[j] == ticks[j + 1]);
        }
        assert forall|i: int| 0 <= i < rest.len() implies now <= rest[i].0 by {
            assert(rest[i] == ticks[i + 1]);
        }
        if let Some(l) = last {
            assert forall|i: int| 0 <= i < rest.len() implies l <= rest[i].0 by {
                assert(rest[i] == ticks[i + 1]);
            }
        }
        assert(always_on(rest)) by {
            assert forall|i: int| 0 <= i < rest.len() implies rest[i].1 by {
                assert(rest[i] == ticks[i + 1]);
            }
        }
        nudges_spaced_over_a_run(next, rest, interval_secs);
        let tail = nudge_times(next, rest, interval_secs);
        let result = nudge_times(last, ticks, interval_secs);
        if t.nudge {
            assert(result == seq![now] + tail);
            assert forall|i: int| 0 <= i < result.len() - 1 implies result[i] + interval_secs
                <= #[trigger] result[i + 1] by {
                assert(spaced(Some(now), tail, interval_secs));
                if i == 0 {
                    assert(tail.len() > 0);
                    assert(result[1] == tail[0]);
                    assert(now + interval_secs <= tail[0]);
                } else {
                    assert(result[i] == tail[i - 1] && result[i + 1] == tail[i]);
                    assert(tail[(i - 1) + 1] >= tail[i - 1] + interval_secs);
                }
            }
        } else {
            assert(result =~= tail);
        }
    }
}

/// The ticks come one second apart, as the worker sleeps a second between
/// them.
pub open spec fn one_second_apart(ticks: Seq<(u64, bool)>) -> bool {
    forall|j: int| 0 <= j < ticks.len() - 1 ==> #[trigger] ticks[j + 1].0 == ticks[j].0 + 1
}

/// The last nudge before the run is no more than an interval before its
/// first tick (or there was none).
pub open spec fn recent_before(last: Option<u64>, ticks: Seq<(u64, bool)>, interval_secs: u64) -> bool {
    last matches Some(l) ==> l <= ticks[0].0 && ticks[0].0 - l <= interval_secs
}

/// While the simulation stays on and the worker ticks once a second, it
/// keeps nudging: with no nudge before, the first tick nudges; consecutive
/// nudges are at most an interval apart, the first at most an interval
/// after the nudge before the run; and at the last tick the latest nudge is
/// less than an interval old.
pub proof fn nudges_keep_coming(last: Option<u64>, ticks: Seq<(u64, bool)>, interval_secs: u64)
    requires
        interval_secs >= 1,
        ticks.len() > 0,
        always_on(ticks),
        one_second_apart(ticks),
        recent_before(last, ticks, interval_secs),
    ensures
        ({
            let s = nudge_times(last, ticks, interval_secs);
            &&& forall|i: int| 0 <= i < s.len() - 1 ==> #[trigger] s[i + 1] <= s[i] + interval_secs
            &&& (last matches Some(l) ==> (s.len() > 0 ==> s[0] <= l + interval_secs))
            &&& (last is None ==> s.len() > 0 && s[0] == ticks[0].0)
            &&& (s.len() > 0 ==> ticks.last().0 - s.last() < interval_secs)
            &&& (s.len() == 0 ==> (last matches Some(l) && ticks.last().0 - l < interval_secs))
        }),
    decreases ticks.len(),
{
    let now = ticks[0].0;
    assert(ticks[0].1);
    let age = match last {
        Some(t) => Some((now - t) as u64),
        None => None,
    };
    let t = tick_of(true, ticks[0].1, age, interval_secs);
    let next = if t.nudge {
        Some(now)
    } else {
        last
    };
    let rest = ticks.drop_first();
    let s = nudge_times(last, ticks, interval_secs);
    let tail = nudge_times(next, rest, interval_secs);
    assert(s == (if t.nudge {
        seq![now]
    } else {
        Seq::<u64>::empty()
    }) + tail);
    if rest.len() == 0 {
        assert(tail =~= Seq::<u64>::empty());
        assert(ticks.last() == ticks[0]);
        if t.nudge {
            assert(s =~= seq![now]);
        } else {
            assert(s =~= Seq::<u64>::empty());
        }
    } else {
        assert(rest[0] == ticks[1]);
        assert(ticks[1].0 == ticks[0].0 + 1);
        assert(always_on(rest)) by {
            assert forall|i: int| 0 <= i < rest.len() implies rest[i].1 by {
                assert(rest[i] == ticks[i + 1]);
            }
        }
        assert(one_second_apart(rest)) by {
            assert forall|j: int| 0 <= j < rest.len() - 1 implies #[trigger] rest[j + 1].0
                == rest[j].0 + 1 by {
                assert(rest[j + 1] == ticks[j + 2] && rest[j] == ticks[j + 1]);
                assert(ticks[(j + 1) + 1].0 == ticks[j + 1].0 + 1);
            }
        }
        assert(rest.last() == ticks.last());
        nudges_keep_coming(next, rest, interval_secs);
        if t.nudge {
            assert forall|i: int| 0 <= i < s.len() - 1 implies #[trigger] s[i + 1] <= s[i]
                + interval_secs by {
                if i == 0 {
                    assert(s[1] == tail[0]);
                } else {
                    assert(s[i] == tail[i - 1] && s[i + 1] == tail[i]);
                    assert(tail[(i - 1) + 1] <= tail[i - 1] + interval_secs);
                }
            }
            if tail.len() > 0 {
                assert(s.last() == tail.last());
            } else {
                assert(s =~= seq![now]);
            }
        } else {
            assert(s =~= tail);
        }
    }
}

} // verus!
