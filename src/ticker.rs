use vstd::prelude::*;

verus! {

/// Time between two ticks of the frame loop, in nanoseconds (60 Hz).
pub const TICK_NANOS: u64 = 16_666_667;

/// What the frame loop is told by the windowing system, as far as its
/// decisions go.
#[derive(Clone, Copy, Debug, PartialEq, Eq, Structural)]
pub enum LoopEvent {
    /// The wake-up time was reached, or the loop just started.
    Tick,
    /// The window was asked to close.
    CloseRequested,
    /// Anything else: kept for the next tick's callback.
    Other,
}

/// What the frame loop does with an event.
#[derive(Clone, Copy, Debug, PartialEq, Eq, Structural)]
pub enum LoopAction {
    /// Keep the event for the next tick and wait for the next wake-up.
    Buffer,
    /// Run the frame callback on the kept events, forget them, and wake up
    /// again one tick later.
    RunFrame,
    /// Run the frame callback on the kept events, then stop the loop.
    RunFrameAndExit,
}

/// The decisions of the frame loop: events are kept until a tick runs the
/// frame on them; a tick after a close request is the last one.
pub struct Ticker {
    close_requested: bool,
}

impl Ticker {
    /// A close request is kept since the last tick.
    pub closed spec fn closing(&self) -> bool {
        self.close_requested
    }

    pub fn new() -> (r: Self)
        ensures
            !r.closing(),
    {
        Ticker { close_requested: false }
    }

    /// The action for `event`.
    pub fn on_event(&mut self, event: LoopEvent) -> (r: LoopAction)
        ensures
            event == LoopEvent::Tick ==> r == (if old(self).closing() {
                LoopAction::RunFrameAndExit
            } else {
                LoopAction::RunFrame
            }) && !final(self).closing(),
            event == LoopEvent::CloseRequested ==> r == LoopAction::Buffer && final(self).closing(),
            event == LoopEvent::Other ==> r == LoopAction::Buffer && final(self).closing() == old(self).closing(),
    {
        match event {
            LoopEvent::Tick => {
                let closing = self.close_requested;
                self.close_requested = false;
                if closing {
                    LoopAction::RunFrameAndExit
                } else {
                    LoopAction::RunFrame
                }
            },
            LoopEvent::CloseRequested => {
                self.close_requested = true;
                LoopAction::Buffer
            },
            LoopEvent::Other => LoopAction::Buffer,
        }
    }
}

} // verus!
