//! The programmable interval timer.

use vstd::prelude::*;

verus! {

/// The frequency of the timer's oscillator in Hz.
pub const PIT_FREQUENCY: u32 = 1193181;

/// The command that selects channel 0, access by low and high byte, the
/// square wave generator, and binary counting.
pub const PIT_COMMAND: u8 = 0x36;

/// What is done every second. Nothing here yet.
pub fn second_trigger(val: u32) {
}

/// The timer chip.
#[derive(Debug, PartialEq, Eq, Structural, Clone, Copy)]
pub struct Pit {
    divisor: u32,
}

/// The three bytes that program the timer: the command, then the low and the
/// high byte of the divisor.
#[derive(Debug, PartialEq, Eq, Structural, Clone, Copy)]
pub struct TimerPhase {
    pub command: u8,
    pub low: u8,
    pub high: u8,
}

impl Pit {
    /// The divisor that the timer was last programmed with.
    pub closed spec fn divisor_spec(&self) -> u32 {
        self.divisor
    }

    /// A timer that has not been programmed.
    pub fn new() -> (pit: Pit)
        ensures
            pit.divisor_spec() == 0,
    {
        Pit { divisor: 0 }
    }

    /// The divisor that the timer was last programmed with.
    pub fn divisor(self) -> (divisor: u32)
        ensures
            divisor == self.divisor_spec(),
    {
        self.divisor
    }

    /// Sets the timer to `hz` ticks per second, and returns the bytes that
    /// the caller writes to the chip: the command to the command port, the
    /// low and the high byte of the divisor to the data port.
    pub fn set_timer_phase(&mut self, hz: u32) -> (phase: TimerPhase)
        requires
            hz > 0,
        ensures
            final(self).divisor_spec() == PIT_FREQUENCY / hz,
            phase.command == PIT_COMMAND,
            phase.low == (PIT_FREQUENCY / hz) % 256,
            phase.high == ((PIT_FREQUENCY / hz) / 256) % 256,
    {
        let divisor: u32 = PIT_FREQUENCY / hz;
        self.divisor = divisor;
        TimerPhase {
            command: PIT_COMMAND,
            low: (divisor % 256) as u8,
            high: ((divisor / 256) % 256) as u8,
        }
    }
}

/// Counts timer ticks and says when a given number of them has passed.
#[derive(Debug, PartialEq, Eq, Structural, Clone, Copy)]
pub struct PitHandler {
    ticks_killed: u32,
    ticks_triggered: u32,
    ticks_per_trigger: u32,
}

impl PitHandler {
    /// The ticks counted since the last trigger.
    pub closed spec fn killed(&self) -> u32 {
        self.ticks_killed
    }

    /// The number of triggers so far.
    pub closed spec fn triggered(&self) -> u32 {
        self.ticks_triggered
    }

    /// The number of ticks between two triggers.
    pub closed spec fn per_trigger(&self) -> u32 {
        self.ticks_per_trigger
    }

    /// What counting one tick does, from the handler `self` to the handler
    /// `after`: if the count has reached the number per trigger, it starts
    /// again at zero and there is one trigger more, whose number is handed
    /// out; else the count goes up by one. Both numbers wrap around.
    pub open spec fn ticked(&self, after: PitHandler, trigger: Option<u32>) -> bool {
        &&& after.per_trigger() == self.per_trigger()
        &&& self.killed() == self.per_trigger() ==> {
            &&& after.killed() == 0
            &&& after.triggered() == (self.triggered() + 1) % 0x1_0000_0000
            &&& trigger == Some(after.triggered())
        }
        &&& self.killed() != self.per_trigger() ==> {
            &&& after.killed() == (self.killed() + 1) % 0x1_0000_0000
            &&& after.triggered() == self.triggered()
            &&& trigger is None
        }
    }

    /// A handler that triggers whenever `ticks_per_trigger` ticks have been
    /// counted.
    pub fn new(ticks_per_trigger: u32) -> (handler: PitHandler)
        ensures
            handler.killed() == 0,
            handler.triggered() == 0,
            handler.per_trigger() == ticks_per_trigger,
    {
        PitHandler { ticks_killed: 0, ticks_triggered: 0, ticks_per_trigger }
    }

    /// A trigger that does nothing.
    pub fn placeholder_trigger(val: u32) {
    }

    /// The ticks counted since the last trigger.
    pub fn get_killed(&self) -> (ticks: u32)
        ensures
            ticks == self.killed(),
    {
        self.ticks_killed
    }

    /// Counts one tick. When the ticks counted have reached the number per
    /// trigger, the count starts again and the number of the trigger is
    /// returned, for the caller to hand to its trigger function. The number
    /// of triggers wraps around.
    pub fn update(&mut self) -> (trigger: Option<u32>)
        ensures
            old(self).ticked(*final(self), trigger),
    {
        if self.ticks_killed == self.ticks_per_trigger {
            self.ticks_triggered = self.ticks_triggered.wrapping_add(1);
            self.ticks_killed = 0;
            Some(self.ticks_triggered)
        } else {
            self.ticks_killed = self.ticks_killed.wrapping_add(1);
            None
        }
    }
}

/// Programs the timer for a thousand ticks per second.
pub fn initialize(pit: &mut Pit) -> (phase: TimerPhase)
    ensures
        final(pit).divisor_spec() == 1193,
        phase == (TimerPhase { command: PIT_COMMAND, low: 0xa9, high: 0x04 }),
{
    pit.set_timer_phase(1000)
}

/// Handles one timer interrupt: counts the tick, see [`PitHandler::update`].
pub fn irq_handler(handler: &mut PitHandler) -> (trigger: Option<u32>)
    ensures
        old(handler).ticked(*final(handler), trigger),
{
    handler.update()
}

} // verus!
