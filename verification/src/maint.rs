use vstd::prelude::*;

verus! {

/// What the maintenance loop observed while waiting out one interval.
pub enum MaintEvent {
    /// The owner asked the loop to stop.
    Stop,
    /// The interval elapsed with no signal.
    Tick,
}

/// What the maintenance loop must do next.
#[derive(PartialEq, Eq, Structural)]
pub enum MaintAction {
    /// Acknowledge and exit.
    Terminate,
    /// Flush the deferred expiry batch.
    Flush,
    /// Flush the batch, then sweep expired rows from every topic table.
    FlushAndGc,
}

/// The maintenance loop's state between iterations: how many flush cycles
/// have run since the last garbage-collection sweep, and the configured
/// cadence.
pub struct MaintState {
    counter: u64,
    gc_ratio: u64,
}

impl MaintState {
    /// The counter stays strictly below the positive cadence.
    pub closed spec fn wf(self) -> bool {
        0 < self.gc_ratio && self.counter < self.gc_ratio
    }

    /// Flush cycles run since the last sweep.
    pub closed spec fn spec_counter(self) -> u64 {
        self.counter
    }

    /// The configured cadence: a sweep every this-many flushes.
    pub closed spec fn spec_gc_ratio(self) -> u64 {
        self.gc_ratio
    }

    /// A fresh loop state that will sweep on its `gc_ratio`-th flush cycle.
    pub fn new(gc_ratio: u64) -> (r: MaintState)
        requires
            gc_ratio > 0,
        ensures
            r.wf(),
            r.spec_counter() == 0,
            r.spec_gc_ratio() == gc_ratio,
    {
        MaintState { counter: 0, gc_ratio }
    }

    /// Decides one iteration of the maintenance loop: a stop signal
    /// terminates it, and an elapsed interval flushes, with a
    /// garbage-collection sweep on exactly every `gc_ratio`-th flush.
    pub fn step(&mut self, event: MaintEvent) -> (action: MaintAction)
        requires
            old(self).wf(),
        ensures
            final(self).wf(),
            final(self).spec_gc_ratio() == old(self).spec_gc_ratio(),
            match event {
                MaintEvent::Stop => action == MaintAction::Terminate && *final(self) == *old(
                    self,
                ),
                MaintEvent::Tick => {
                    if old(self).spec_counter() + 1 == old(self).spec_gc_ratio() {
                        action == MaintAction::FlushAndGc && final(self).spec_counter() == 0
                    } else {
                        action == MaintAction::Flush && final(self).spec_counter() == old(
                            self,
                        ).spec_counter() + 1
                    }
                },
            },
    {
        match event {
            MaintEvent::Stop => MaintAction::Terminate,
            MaintEvent::Tick => {
                self.counter = self.counter + 1;
                if self.counter == self.gc_ratio {
                    self.counter = 0;
                    MaintAction::FlushAndGc
                } else {
                    MaintAction::Flush
                }
            },
        }
    }
}

} // verus!
