use vstd::prelude::*;

verus! {

/// How long the ring buffer must stay empty, after samples were written,
/// before the writer takes the producer for gone and finalizes the file.
pub const GRACEFUL_IDLE_MS: u128 = 500;

/// What the writer loop does after one attempt to pop samples.
#[derive(Clone, Copy, Debug, PartialEq, Eq, Structural)]
pub enum WriterStep {
    /// Samples arrived: write them.
    Write,
    /// The buffer just ran dry after samples were written: start the idle
    /// clock and wait.
    StartIdleClock,
    /// Nothing to do yet: wait a little and poll again.
    Wait,
    /// The buffer stayed dry long enough: finalize the file and stop.
    Finish,
}

/// The writer loop's memory between polls: whether any sample was written,
/// and whether the idle clock is running.
#[derive(Clone, Copy, Debug, PartialEq, Eq, Structural)]
pub struct WriterIdle {
    pub wrote_any: bool,
    pub idle_clock: bool,
}

/// The step taken after popping `popped` samples, the idle clock (if it
/// runs) showing `idle_ms` milliseconds; and the state after it.
pub open spec fn writer_next(w: WriterIdle, popped: nat, idle_ms: nat) -> (WriterIdle, WriterStep) {
    if popped > 0 {
        (WriterIdle { wrote_any: true, idle_clock: false }, WriterStep::Write)
    } else if !w.wrote_any {
        (w, WriterStep::Wait)
    } else if !w.idle_clock {
        (WriterIdle { wrote_any: true, idle_clock: true }, WriterStep::StartIdleClock)
    } else if idle_ms >= GRACEFUL_IDLE_MS {
        (w, WriterStep::Finish)
    } else {
        (w, WriterStep::Wait)
    }
}

impl WriterIdle {
    /// Nothing written yet, no idle clock.
    pub fn new() -> (w: Self)
        ensures
            !w.wrote_any,
            !w.idle_clock,
    {
        WriterIdle { wrote_any: false, idle_clock: false }
    }

    /// Decides the next step after a poll that popped `popped` samples;
    /// `idle_ms` is the reading of the idle clock, ignored when it is not
    /// running. The writer only finishes once it has written something and
    /// the buffer then stayed dry for `GRACEFUL_IDLE_MS`.
    pub fn step(&mut self, popped: usize, idle_ms: u128) -> (s: WriterStep)
        ensures
            (*final(self), s) == writer_next(*old(self), popped as nat, idle_ms as nat),
            s == WriterStep::Finish ==> old(self).wrote_any && old(self).idle_clock && idle_ms >= GRACEFUL_IDLE_MS,
    {
        if popped > 0 {
            self.wrote_any = true;
            self.idle_clock = false;
            WriterStep::Write
        } else if !self.wrote_any {
            WriterStep::Wait
        } else if !self.idle_clock {
            self.idle_clock = true;
            WriterStep::StartIdleClock
        } else if idle_ms >= GRACEFUL_IDLE_MS {
            WriterStep::Finish
        } else {
            WriterStep::Wait
        }
    }
}

/// The writer writes exactly when samples arrived; it never finishes before
/// it has written something, nor before the idle clock it started has shown
/// `GRACEFUL_IDLE_MS`; samples arriving stop the idle clock; and an empty
/// poll after writing starts the clock instead of finishing at once.
pub proof fn lemma_writer_rules(w: WriterIdle, popped: nat, idle_ms: nat)
    ensures
        ({
            let (w1, s) = writer_next(w, popped, idle_ms);
            &&& (s == WriterStep::Write) == (popped > 0)
            &&& s == WriterStep::Write ==> w1.wrote_any && !w1.idle_clock
            &&& s == WriterStep::Finish ==> w.wrote_any && w.idle_clock && idle_ms >= GRACEFUL_IDLE_MS
            &&& (popped == 0 && w.wrote_any && !w.idle_clock) ==> s == WriterStep::StartIdleClock && w1.idle_clock
            &&& (popped == 0 && w.wrote_any && w.idle_clock && idle_ms >= GRACEFUL_IDLE_MS) ==> s == WriterStep::Finish
            &&& w.wrote_any ==> w1.wrote_any
        }),
{
}

} // verus!
