//! Countdowns backed by `bevy::time::Timer`, with a mathematical model of
//! their state.

use vstd::prelude::*;
use bevy::time::Timer;
use bevy::time::TimerMode;
use std::time::Duration;

verus! {

#[verifier::external_type_specification]
#[verifier::external_body]
pub struct ExTimer(bevy::time::Timer);

/// Whether a countdown stops once it reaches its duration or wraps around.
#[derive(Clone, Copy, Debug, PartialEq, Eq, Structural)]
pub enum CountdownMode {
    Once,
    Repeating,
}

/// The state of a countdown, in nanoseconds.
pub struct TimerModel {
    pub duration: nat,
    pub elapsed: nat,
    pub mode: CountdownMode,
    pub finished: bool,
    pub times_finished: nat,
}

impl TimerModel {
    /// A countdown that has just been started.
    pub open spec fn fresh(duration: nat, mode: CountdownMode) -> TimerModel {
        TimerModel { duration, elapsed: 0, mode, finished: false, times_finished: 0 }
    }

    pub open spec fn wf(self) -> bool {
        &&& self.elapsed <= self.duration
        &&& self.duration <= u64::MAX
        &&& self.times_finished <= u32::MAX
    }

    /// The state after `delta` nanoseconds have passed.
    pub open spec fn ticked(self, delta: nat) -> TimerModel {
        if self.mode == CountdownMode::Once && self.finished {
            TimerModel { times_finished: 0, ..self }
        } else {
            let total = self.elapsed + delta;
            if total < self.duration {
                TimerModel { elapsed: total, finished: false, times_finished: 0, ..self }
            } else if self.mode == CountdownMode::Once {
                TimerModel { elapsed: self.duration, finished: true, times_finished: 1, ..self }
            } else if self.duration == 0 {
                TimerModel { elapsed: 0, finished: true, times_finished: u32::MAX as nat, ..self }
            } else {
                TimerModel {
                    elapsed: total % self.duration,
                    finished: true,
                    times_finished: (total / self.duration) % 0x1_0000_0000,
                    ..self
                }
            }
        }
    }

    /// The countdown reached its duration during the last tick.
    pub open spec fn just_finished(self) -> bool {
        self.times_finished > 0
    }

    pub open spec fn remaining(self) -> nat {
        (self.duration - self.elapsed) as nat
    }
}

/// Ticking keeps a countdown's state well formed.
pub proof fn lemma_ticked_wf(m: TimerModel, delta: nat)
    requires
        m.wf(),
    ensures
        m.ticked(delta).wf(),
{
    let total = m.elapsed + delta;
    if !(m.mode == CountdownMode::Once && m.finished) && total >= m.duration
        && m.mode == CountdownMode::Repeating && m.duration > 0 {
        assert(total % m.duration < m.duration);
        assert((total / m.duration) % 0x1_0000_0000 < 0x1_0000_0000);
    }
}

/// A countdown: a `bevy::time::Timer` together with the model of its state.
pub struct Countdown {
    timer: Timer,
    model: Ghost<TimerModel>,
}

impl View for Countdown {
    type V = TimerModel;

    closed spec fn view(&self) -> TimerModel {
        self.model@
    }
}

impl Countdown {
    #[verifier::type_invariant]
    spec fn inv(self) -> bool {
        self.model@.wf()
    }

    /// Starts a countdown of `duration_nanos` nanoseconds.
    pub fn new(duration_nanos: u64, mode: CountdownMode) -> (c: Countdown)
        ensures
            c@ == TimerModel::fresh(duration_nanos as nat, mode),
            c@.wf(),
    {
        start_timer(duration_nanos, mode)
    }

    /// Lets `delta_nanos` nanoseconds pass.
    pub fn tick(&mut self, delta_nanos: u64)
        ensures
            final(self)@ == old(self)@.ticked(delta_nanos as nat),
            final(self)@.wf(),
    {
        proof {
            use_type_invariant(&*self);
            lemma_ticked_wf(self@, delta_nanos as nat);
        }
        tick_timer(self, delta_nanos);
    }

    pub fn finished(&self) -> (r: bool)
        ensures
            r == self@.finished,
    {
        timer_finished(self)
    }

    pub fn just_finished(&self) -> (r: bool)
        ensures
            r == self@.just_finished(),
    {
        timer_just_finished(self)
    }

    pub fn remaining_nanos(&self) -> (r: u64)
        ensures
            r == self@.remaining(),
            self@.wf(),
    {
        proof {
            use_type_invariant(self);
        }
        timer_remaining_nanos(self)
    }
}

/// Calls `bevy::time::Timer::new` with `Duration::from_nanos(duration_nanos)`
/// and the matching `TimerMode`. Claimed: the new timer has nothing elapsed,
/// is not finished and has finished no times in the last tick (`Timer::new`
/// fills the rest from `Default`), and is not paused.
#[verifier::external_body]
fn start_timer(duration_nanos: u64, mode: CountdownMode) -> (c: Countdown)
    ensures
        c@ == TimerModel::fresh(duration_nanos as nat, mode),
{
    let bevy_mode = match mode {
        CountdownMode::Once => TimerMode::Once,
        CountdownMode::Repeating => TimerMode::Repeating,
    };
    Countdown {
        timer: Timer::new(Duration::from_nanos(duration_nanos), bevy_mode),
        model: Ghost(TimerModel::fresh(duration_nanos as nat, mode)),
    }
}

/// Calls `bevy::time::Timer::tick` with `Duration::from_nanos(delta_nanos)`
/// and records the new state in the model. Claimed: `tick` changes an
/// unpaused timer as `TimerModel::ticked` says (a finished `Once` timer only
/// clears its count of finishes; otherwise the elapsed time grows by `delta`,
/// and on reaching the duration a `Once` timer clamps to it and counts one
/// finish, while a `Repeating` one keeps the remainder and counts the
/// quotient, cut to `u32`).
#[verifier::external_body]
fn tick_timer(c: &mut Countdown, delta_nanos: u64)
    ensures
        final(c)@ == old(c)@.ticked(delta_nanos as nat),
{
    c.timer.tick(Duration::from_nanos(delta_nanos));
    c.model = Ghost(c.model@.ticked(delta_nanos as nat));
}

/// Calls `bevy::time::Timer::finished`, which returns the timer's
/// `finished` flag.
#[verifier::external_body]
fn timer_finished(c: &Countdown) -> (r: bool)
    ensures
        r == c@.finished,
{
    c.timer.finished()
}

/// Calls `bevy::time::Timer::just_finished`, which is true when the last
/// tick counted at least one finish.
#[verifier::external_body]
fn timer_just_finished(c: &Countdown) -> (r: bool)
    ensures
        r == c@.just_finished(),
{
    c.timer.just_finished()
}

/// Calls `bevy::time::Timer::remaining`, which is the duration minus the
/// elapsed time, and gives it in nanoseconds.
#[verifier::external_body]
fn timer_remaining_nanos(c: &Countdown) -> (r: u64)
    ensures
        r == c@.remaining(),
{
    c.timer.remaining().as_nanos() as u64
}

} // verus!
