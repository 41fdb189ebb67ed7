//! What holds of countdowns over a whole run of frames, and of the HUD clock.

use vstd::prelude::*;
use vstd::arithmetic::div_mod::{
    lemma_fundamental_div_mod,
    lemma_fundamental_div_mod_converse,
    lemma_div_is_ordered,
};
use crate::timer::{CountdownMode, TimerModel};
use crate::hud::seconds_rounded_up;

verus! {

/// The total of a run of frame lengths.
pub open spec fn total(ds: Seq<nat>) -> nat
    decreases ds.len(),
{
    if ds.len() == 0 {
        0
    } else {
        total(ds.drop_last()) + ds.last()
    }
}

/// A countdown after a run of ticks of the given lengths.
pub open spec fn run(m: TimerModel, ds: Seq<nat>) -> TimerModel
    decreases ds.len(),
{
    if ds.len() == 0 {
        m
    } else {
        run(m, ds.drop_last()).ticked(ds.last())
    }
}

/// How many times a countdown finished over a run of ticks.
pub open spec fn finishes(m: TimerModel, ds: Seq<nat>) -> nat
    decreases ds.len(),
{
    if ds.len() == 0 {
        0
    } else {
        finishes(m, ds.drop_last()) + run(m, ds).times_finished
    }
}

/// A one-shot countdown of `duration` (a round, a mole's lifetime) has
/// counted `min(total, duration)` after ticks that add up to `total`, and it
/// is finished exactly when the total reached the duration.
pub proof fn lemma_once_run(duration: nat, ds: Seq<nat>)
    requires
        duration > 0,
    ensures
        run(TimerModel::fresh(duration, CountdownMode::Once), ds).elapsed == if total(ds) < duration {
            total(ds)
        } else {
            duration
        },
        run(TimerModel::fresh(duration, CountdownMode::Once), ds).finished == (total(ds) >= duration),
        run(TimerModel::fresh(duration, CountdownMode::Once), ds).mode == CountdownMode::Once,
        run(TimerModel::fresh(duration, CountdownMode::Once), ds).duration == duration,
    decreases ds.len(),
{
    if ds.len() > 0 {
        lemma_once_run(duration, ds.drop_last());
    }
}

/// A one-shot countdown finishes on exactly one tick: the one on which the
/// running total first reaches its duration. So a round ends (and goes back
/// to the menu) once, and a mole goes away once.
pub proof fn lemma_once_finishes_once(duration: nat, ds: Seq<nat>)
    requires
        duration > 0,
        ds.len() > 0,
    ensures
        run(TimerModel::fresh(duration, CountdownMode::Once), ds).just_finished() <==> (total(
            ds.drop_last(),
        ) < duration && duration <= total(ds)),
        run(TimerModel::fresh(duration, CountdownMode::Once), ds).times_finished <= 1,
{
    lemma_once_run(duration, ds.drop_last());
}

/// A repeating countdown of `duration` (the mole spawner) keeps the
/// remainder of the total modulo the duration, and over a run it finishes
/// as many times as whole durations fit in the total, provided no single
/// tick spans `2^32` durations or more.
pub proof fn lemma_repeating_run(duration: nat, ds: Seq<nat>)
    requires
        duration > 0,
        forall|i: int| 0 <= i < ds.len() ==> #[trigger] ds[i] + duration <= 0x1_0000_0000 * duration,
    ensures
        run(TimerModel::fresh(duration, CountdownMode::Repeating), ds).elapsed == total(ds) % duration,
        finishes(TimerModel::fresh(duration, CountdownMode::Repeating), ds) == total(ds) / duration,
        run(TimerModel::fresh(duration, CountdownMode::Repeating), ds).mode == CountdownMode::Repeating,
        run(TimerModel::fresh(duration, CountdownMode::Repeating), ds).duration == duration,
    decreases ds.len(),
{
    let m = TimerModel::fresh(duration, CountdownMode::Repeating);
    if ds.len() == 0 {
        assert(0nat % duration == 0) by (nonlinear_arith)
            requires
                duration > 0,
        ;
        assert(0nat / duration == 0) by (nonlinear_arith)
            requires
                duration > 0,
        ;
    } else {
        let prev = ds.drop_last();
        assert forall|i: int| 0 <= i < prev.len() implies #[trigger] prev[i] + duration <= 0x1_0000_0000
            * duration by {
            assert(prev[i] == ds[i]);
        }
        lemma_repeating_run(duration, prev);
        let d = ds.last();
        assert(d == ds[ds.len() - 1]);
        let s = total(prev);
        let r = s % duration;
        let q = s / duration;
        lemma_fundamental_div_mod(s as int, duration as int);
        let t = r + d;
        let q2 = t / duration;
        let r2 = t % duration;
        lemma_fundamental_div_mod(t as int, duration as int);
        assert(s + d == (q + q2) * duration + r2) by (nonlinear_arith)
            requires
                s == duration * q + r,
                t == duration * q2 + r2,
                t == r + d,
        ;
        lemma_fundamental_div_mod_converse((s + d) as int, duration as int, (q + q2) as int, r2 as int);
        assert(t < 0x1_0000_0000 * duration);
        assert(q2 < 0x1_0000_0000) by (nonlinear_arith)
            requires
                t < 0x1_0000_0000 * duration,
                t == duration * q2 + r2,
                0 <= r2,
                duration > 0,
        ;
        if t < duration {
            assert(q2 == 0 && r2 == t) by {
                lemma_fundamental_div_mod_converse(t as int, duration as int, 0, t as int);
            }
        }
    }
}

/// The mole spawner fires (and a mole pops up) on exactly the ticks that
/// cross a whole multiple of its interval, provided no single tick spans
/// `2^32` intervals or more.
pub proof fn lemma_spawner_fires_on_whole_intervals(duration: nat, ds: Seq<nat>)
    requires
        duration > 0,
        ds.len() > 0,
        forall|i: int| 0 <= i < ds.len() ==> #[trigger] ds[i] + duration <= 0x1_0000_0000 * duration,
    ensures
        run(TimerModel::fresh(duration, CountdownMode::Repeating), ds).just_finished() <==> total(
            ds.drop_last(),
        ) / duration < total(ds) / duration,
{
    lemma_repeating_run(duration, ds);
    let prev = ds.drop_last();
    assert forall|i: int| 0 <= i < prev.len() implies #[trigger] prev[i] + duration <= 0x1_0000_0000
        * duration by {
        assert(prev[i] == ds[i]);
    }
    lemma_repeating_run(duration, prev);
}

/// On a one-shot countdown the time left never grows, and neither do the
/// whole seconds shown on the HUD clock.
pub proof fn lemma_once_time_left_never_grows(m: TimerModel, delta: nat)
    requires
        m.wf(),
        m.mode == CountdownMode::Once,
    ensures
        m.ticked(delta).remaining() <= m.remaining(),
        seconds_rounded_up(m.ticked(delta).remaining()) <= seconds_rounded_up(m.remaining()),
{
    let a = m.ticked(delta).remaining();
    let b = m.remaining();
    lemma_div_is_ordered(a + 1_000_000_000 - 1, b + 1_000_000_000 - 1, 1_000_000_000);
}

} // verus!
