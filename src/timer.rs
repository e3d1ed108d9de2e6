//! Countdown timers driven by the elapsed time of each tick, in milliseconds.

use vstd::prelude::*;

verus! {

#[derive(Debug, Clone, Copy, PartialEq, Eq, Structural)]
pub enum TimerMode {
    /// Fires once, then stays finished.
    Once,
    /// Fires every `duration` milliseconds; the remainder carries over.
    Repeating,
}

#[derive(Debug, Clone, Copy, PartialEq, Eq, Structural)]
pub struct Timer {
    /// Period in milliseconds.
    pub duration: u32,
    /// Time accumulated since the last firing.
    pub elapsed: u32,
    pub mode: TimerMode,
}

impl Timer {
    pub open spec fn wf(self) -> bool {
        &&& self.duration > 0
        &&& self.elapsed < self.duration || (self.mode == TimerMode::Once && self.elapsed
            == self.duration)
    }

    /// A one-shot timer that has already fired.
    pub open spec fn is_finished(self) -> bool {
        self.mode == TimerMode::Once && self.elapsed == self.duration
    }

    /// How many times the timer fires when `delta` milliseconds pass.
    pub open spec fn fired_spec(self, delta: int) -> nat {
        match self.mode {
            TimerMode::Repeating => ((self.elapsed + delta) / self.duration as int) as nat,
            TimerMode::Once => if self.elapsed < self.duration && self.elapsed + delta
                >= self.duration {
                1
            } else {
                0
            },
        }
    }

    /// The timer after `delta` milliseconds pass.
    pub open spec fn ticked_spec(self, delta: int) -> Timer {
        match self.mode {
            TimerMode::Repeating => Timer {
                elapsed: ((self.elapsed + delta) % self.duration as int) as u32,
                ..self
            },
            TimerMode::Once => Timer {
                elapsed: if self.elapsed + delta >= self.duration {
                    self.duration
                } else {
                    (self.elapsed + delta) as u32
                },
                ..self
            },
        }
    }

    pub fn new(duration: u32, mode: TimerMode) -> (t: Timer)
        requires
            duration > 0,
        ensures
            t == (Timer { duration, elapsed: 0, mode }),
            t.wf(),
    {
        Timer { duration, elapsed: 0, mode }
    }

    pub fn finished(&self) -> (r: bool)
        ensures
            r == self.is_finished(),
    {
        match self.mode {
            TimerMode::Once => self.elapsed == self.duration,
            TimerMode::Repeating => false,
        }
    }

    /// Advances the timer by `delta` milliseconds and returns how many times
    /// it fired.
    pub fn tick(&mut self, delta: u32) -> (fired: u64)
        requires
            old(self).wf(),
        ensures
            fired == old(self).fired_spec(delta as int),
            *final(self) == old(self).ticked_spec(delta as int),
            final(self).wf(),
    {
        let total: u64 = self.elapsed as u64 + delta as u64;
        match self.mode {
            TimerMode::Repeating => {
                let d: u64 = self.duration as u64;
                self.elapsed = (total % d) as u32;
                total / d
            },
            TimerMode::Once => {
                if total >= self.duration as u64 {
                    let was_running = self.elapsed < self.duration;
                    self.elapsed = self.duration;
                    if was_running {
                        1
                    } else {
                        0
                    }
                } else {
                    self.elapsed = total as u32;
                    0
                }
            },
        }
    }
}

} // verus!
