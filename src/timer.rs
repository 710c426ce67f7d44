use vstd::prelude::*;

verus! {

/// A one-shot countdown measured in milliseconds.
///
/// It is advanced by `tick`, becomes finished once the elapsed time reaches
/// the duration, and stays finished until `reset`.
#[derive(Clone, Copy, Debug)]
pub struct Timer {
    pub duration: u64,
    pub elapsed: u64,
    pub finished: bool,
}

impl Timer {
    /// The elapsed time never runs past the duration.
    pub open spec fn wf(&self) -> bool {
        self.elapsed <= self.duration
    }

    /// The state a timer reaches from `self` after `delta` milliseconds.
    pub open spec fn ticked(self, delta: u64) -> Timer {
        let e = if self.elapsed + delta >= self.duration {
            self.duration
        } else {
            (self.elapsed + delta) as u64
        };
        Timer { duration: self.duration, elapsed: e, finished: e >= self.duration }
    }

    /// A fresh timer: nothing elapsed, not finished.
    pub open spec fn is_fresh(&self) -> bool {
        self.elapsed == 0 && !self.finished
    }

    pub fn new(duration: u64) -> (r: Timer)
        ensures
            r.wf(),
            r.duration == duration,
            r.is_fresh(),
    {
        Timer { duration, elapsed: 0, finished: false }
    }

    /// Advances the timer by `delta` milliseconds.
    pub fn tick(&mut self, delta: u64)
        requires
            old(self).wf(),
        ensures
            final(self).wf(),
            *final(self) == old(self).ticked(delta),
    {
        if delta >= self.duration - self.elapsed {
            self.elapsed = self.duration;
        } else {
            self.elapsed = self.elapsed + delta;
        }
        self.finished = self.elapsed >= self.duration;
    }

    pub fn finished(&self) -> (r: bool)
        ensures
            r == self.finished,
    {
        self.finished
    }

    /// Zeroes the elapsed time and clears the finished flag.
    pub fn reset(&mut self)
        ensures
            final(self).duration == old(self).duration,
            final(self).wf(),
            final(self).is_fresh(),
    {
        self.elapsed = 0;
        self.finished = false;
    }
}

} // verus!
