//! Preemption control, the preemptable lock, and time.

use vstd::prelude::*;

pub mod preemptable_mutex;
pub mod time;

verus! {

/// The lock under the name it had while it disabled interrupts outright.
pub type KernelMutex<T> = preemptable_mutex::PreemptableMutex<T>;

/// The guard of a [`KernelMutex`].
pub type KernelMutexGuard = preemptable_mutex::PreemptableMutexGuard;

/// Whether preemption was enabled on a CPU at some moment.
#[derive(Debug, PartialEq, Eq, Structural, Clone, Copy)]
pub struct PreemptionState {
    enabled: bool,
}

impl PreemptionState {
    /// Whether the state is "preemption enabled".
    pub closed spec fn is_enabled(&self) -> bool {
        self.enabled
    }

    /// The state "preemption disabled".
    pub fn disabled() -> (state: PreemptionState)
        ensures
            !state.is_enabled(),
    {
        PreemptionState { enabled: false }
    }

    /// Whether the state is "preemption enabled".
    pub fn enabled(&self) -> (enabled: bool)
        ensures
            enabled == self.is_enabled(),
    {
        self.enabled
    }
}

impl Default for PreemptionState {
    /// The state "preemption disabled".
    fn default() -> (state: PreemptionState)
        ensures
            !state.is_enabled(),
    {
        PreemptionState { enabled: false }
    }
}

/// The preemption flag of one CPU: while it is clear, no interrupt, and so no
/// reschedule, takes the CPU away from the running code.
#[derive(Debug)]
pub struct Cpu {
    id: usize,
    preemptable: bool,
}

impl Cpu {
    /// The number of the CPU.
    pub closed spec fn id_spec(&self) -> usize {
        self.id
    }

    /// Whether preemption is enabled.
    pub closed spec fn is_preemptable(&self) -> bool {
        self.preemptable
    }

    /// The CPU with the given number, with preemption disabled, as a CPU is
    /// when the kernel starts on it.
    pub fn new(id: usize) -> (cpu: Cpu)
        ensures
            cpu.id_spec() == id,
            !cpu.is_preemptable(),
    {
        Cpu { id, preemptable: false }
    }

    /// The number of the CPU.
    pub fn id(&self) -> (id: usize)
        ensures
            id == self.id_spec(),
    {
        self.id
    }

    /// Whether preemption is enabled.
    pub fn preemptable(&self) -> (preemptable: bool)
        ensures
            preemptable == self.is_preemptable(),
    {
        self.preemptable
    }

    /// Disables preemption and returns the state that it was in.
    pub fn disable_preemption(&mut self) -> (state: PreemptionState)
        ensures
            !final(self).is_preemptable(),
            final(self).id_spec() == old(self).id_spec(),
            state.is_enabled() == old(self).is_preemptable(),
    {
        let state = PreemptionState { enabled: self.preemptable };
        self.preemptable = false;
        state
    }

    /// Enables preemption.
    pub fn enable_preemption(&mut self)
        ensures
            final(self).is_preemptable(),
            final(self).id_spec() == old(self).id_spec(),
    {
        self.preemptable = true;
    }

    /// Puts preemption back into the given state.
    pub fn restore_preemption_state(&mut self, state: &PreemptionState)
        ensures
            final(self).is_preemptable() == state.is_enabled(),
            final(self).id_spec() == old(self).id_spec(),
    {
        self.preemptable = state.enabled;
    }
}

} // verus!
