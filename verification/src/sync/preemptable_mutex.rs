//! The preemptable lock: mutual exclusion that keeps the CPU from being
//! preempted while the lock is held.
//!
//! The lock is stated here as what one CPU does to it, step by step. A step
//! takes the lock by exclusive reference, so two steps never interleave; a
//! kernel that shares a lock between CPUs makes each step one atomic
//! compare-and-swap on the flag.

use vstd::prelude::*;
use crate::multitasking::scheduler::LockBypass;
use crate::sync::{Cpu, PreemptionState};

verus! {

/// A lock around a value of type `T`.
pub struct PreemptableMutex<T> {
    lock: bool,
    preemption_state: PreemptionState,
    data: T,
}

/// The proof that the lock was taken. It carries the preemption state that
/// the CPU was in before, which releasing the lock puts back.
pub struct PreemptableMutexGuard {
    preemption_state: PreemptionState,
}

impl PreemptableMutexGuard {
    /// The preemption state of the CPU before the lock was taken.
    pub closed spec fn saved(&self) -> PreemptionState {
        self.preemption_state
    }
}

impl<T> PreemptableMutex<T> {
    /// Whether the lock is held.
    pub closed spec fn is_locked(&self) -> bool {
        self.lock
    }

    /// The preemption state that was stored when the lock was last taken.
    pub closed spec fn saved(&self) -> PreemptionState {
        self.preemption_state
    }

    /// The protected value.
    pub closed spec fn value(&self) -> T {
        self.data
    }

    /// Creates a new lock around the supplied data. The lock is free.
    pub fn new(user_data: T) -> (mutex: PreemptableMutex<T>)
        ensures
            !mutex.is_locked(),
            mutex.value() == user_data,
    {
        PreemptableMutex { lock: false, preemption_state: PreemptionState::disabled(), data: user_data }
    }

    /// Consumes the lock and returns the protected value. No reference to the
    /// lock is left, so there is nothing to wait for.
    pub fn into_inner(self) -> (data: T)
        ensures
            data == self.value(),
    {
        self.data
    }

    /// Whether the lock is held.
    pub fn locked(&self) -> (locked: bool)
        ensures
            locked == self.is_locked(),
    {
        self.lock
    }

    /// One attempt to take the lock.
    ///
    /// Preemption is disabled first. If the lock is free it is taken, and the
    /// preemption state from before is stored in the lock and in the guard.
    /// If the lock is held, preemption is put back as it was, and neither the
    /// lock nor the CPU has changed.
    pub fn try_lock(&mut self, cpu: &mut Cpu) -> (guard: Option<PreemptableMutexGuard>)
        ensures
            guard is Some <==> !old(self).is_locked(),
            final(self).value() == old(self).value(),
            final(cpu).id_spec() == old(cpu).id_spec(),
            guard is None ==> *final(self) == *old(self) && final(cpu).is_preemptable() == old(
                cpu,
            ).is_preemptable(),
            guard is Some ==> {
                &&& final(self).is_locked()
                &&& !final(cpu).is_preemptable()
                &&& final(self).saved().is_enabled() == old(cpu).is_preemptable()
                &&& guard.unwrap().saved() == final(self).saved()
            },
    {
        let preemption_state = cpu.disable_preemption();
        let lock_switch = !self.lock;
        if lock_switch {
            self.lock = true;
            self.preemption_state = preemption_state;
            Some(PreemptableMutexGuard { preemption_state })
        } else {
            cpu.restore_preemption_state(&preemption_state);
            None
        }
    }

    /// Takes the lock, which must be free: on one CPU nobody could release a
    /// held lock while this call waits for it.
    pub fn lock(&mut self, cpu: &mut Cpu) -> (guard: PreemptableMutexGuard)
        requires
            !old(self).is_locked(),
        ensures
            final(self).is_locked(),
            final(self).value() == old(self).value(),
            !final(cpu).is_preemptable(),
            final(cpu).id_spec() == old(cpu).id_spec(),
            final(self).saved().is_enabled() == old(cpu).is_preemptable(),
            guard.saved() == final(self).saved(),
    {
        match self.try_lock(cpu) {
            Some(guard) => guard,
            None => PreemptableMutexGuard { preemption_state: PreemptionState::disabled() },
        }
    }

    /// Releases the lock and puts the CPU's preemption back into the state of
    /// before the lock was taken: it is restored, not simply enabled, so that
    /// a lock taken with preemption disabled leaves it disabled.
    pub fn unlock(&mut self, guard: PreemptableMutexGuard, cpu: &mut Cpu)
        requires
            old(self).is_locked(),
        ensures
            !final(self).is_locked(),
            final(self).value() == old(self).value(),
            final(cpu).is_preemptable() == guard.saved().is_enabled(),
            final(cpu).id_spec() == old(cpu).id_spec(),
    {
        self.lock = false;
        cpu.restore_preemption_state(&guard.preemption_state);
    }

    /// The protected value, for the holder of the lock.
    pub fn get(&self, guard: &PreemptableMutexGuard) -> (data: &T)
        requires
            self.is_locked(),
        ensures
            *data == self.value(),
    {
        &self.data
    }

    /// The protected value, to be changed by the holder of the lock.
    pub fn get_mut(&mut self, guard: &PreemptableMutexGuard) -> (data: &mut T)
        requires
            old(self).is_locked(),
        ensures
            *data == old(self).value(),
            final(self).value() == *final(data),
            final(self).is_locked(),
            final(self).saved() == old(self).saved(),
    {
        &mut self.data
    }

    /// Puts a new value under the lock, for the holder of the lock.
    pub fn set(&mut self, guard: &PreemptableMutexGuard, data: T)
        requires
            old(self).is_locked(),
        ensures
            final(self).value() == data,
            final(self).is_locked(),
            final(self).saved() == old(self).saved(),
    {
        self.data = data;
    }

    /// The protected value, read without taking the lock.
    ///
    /// This is for the scheduler's own bookkeeping at moments at which no lock
    /// can be taken, such as a context switch, where the running CPU alone
    /// touches its current thread. Only the scheduler can make the permit,
    /// and it sees to it that nobody changes the value meanwhile.
    pub fn without_locking(&self, permit: &LockBypass) -> (data: &T)
        ensures
            *data == self.value(),
    {
        &self.data
    }
}

} // verus!
