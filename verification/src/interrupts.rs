//! The interrupt handlers that do not depend on the architecture.

use vstd::prelude::*;
use crate::arch::context::Context;
use crate::arch::schedule;
use crate::kernel::{FaultPolicy, Kernel};
use crate::memory::VirtualAddress;
use crate::multitasking::{ProcessID, ThreadID};
use crate::syscalls::{kill_process, kill_process_post, unchanged};
use crate::multitasking::scheduler::{schedule_post, wake_post, Scheduler};
use crate::sync::time::Timestamp;
use crate::sync::Cpu;

pub mod pic;
pub mod pit;

verus! {

/// The timer interrupt handler for the system, called once per tick with
/// the time `now` and the context `saved` of the interrupted thread.
///
/// It sets the clock, wakes every sleeping thread whose wake time is not
/// after `now`, and reschedules. A thread so wakes at the first tick at or
/// after its wake time, not at the wake time itself. Returns the context that
/// the CPU is to resume.
pub fn timer_interrupt(kernel: &mut Kernel, cpu: &mut Cpu, now: Timestamp, saved: Context) -> (next:
    Context)
    requires
        old(kernel).wf(),
        old(kernel).runs_on(*old(cpu)),
    ensures
        final(kernel).wf(),
        final(kernel).clock == now,
        final(kernel).fault_policy == old(kernel).fault_policy,
        final(cpu).is_preemptable() == old(cpu).is_preemptable(),
        final(cpu).id_spec() == old(cpu).id_spec(),
        final(kernel).memory.only_freed(old(kernel).memory),
        exists|woken: Scheduler|
            {
                &&& wake_post(old(kernel).scheduler, woken, now, old(kernel).processes@)
                &&& #[trigger] schedule_post(
                    woken,
                    final(kernel).scheduler,
                    old(kernel).processes@,
                    final(kernel).processes@,
                    old(cpu).id_spec() as int,
                    saved,
                    next,
                )
            },
{
    kernel.clock = now;
    kernel.scheduler.wake_due(now, &kernel.processes, cpu);
    let ghost woken = kernel.scheduler;
    let next = schedule(kernel, cpu, saved);
    proof {
        assert(schedule_post(
            woken,
            kernel.scheduler,
            old(kernel).processes@,
            kernel.processes@,
            old(cpu).id_spec() as int,
            saved,
            next,
        ));
    }
    next
}

/// What is known of a fault that stops the kernel.
#[derive(Debug, PartialEq, Eq, Structural, Clone, Copy)]
pub struct FaultReport {
    /// The address whose access has faulted.
    pub address: VirtualAddress,
    /// Where the faulting thread was.
    pub instruction_pointer: VirtualAddress,
    /// The process of the faulting thread.
    pub pid: ProcessID,
    /// The faulting thread.
    pub id: ThreadID,
}

/// What a fault has come to.
#[derive(Debug, PartialEq, Eq, Structural, Clone, Copy)]
pub struct FaultOutcome {
    /// The context that the CPU is to resume, unless the kernel stops.
    pub resume: Context,
    /// The report with which the kernel is to stop, if it is to stop.
    pub halt: Option<FaultReport>,
}

/// What a fault of the running thread leads to: under the policy `Halt`
/// nothing changes and the caller is told to stop the kernel, with a report
/// of the fault; under the policy `KillProcess` the process of the thread is
/// killed, as by the system call, and the other processes go on.
pub open spec fn fault_post(
    before: Kernel,
    after: Kernel,
    cpu_id: int,
    saved: Context,
    address: VirtualAddress,
    outcome: FaultOutcome,
) -> bool {
    &&& before.fault_policy == FaultPolicy::Halt ==> {
        &&& outcome.halt == Some(
            FaultReport {
                address,
                instruction_pointer: saved.instruction_pointer,
                pid: before.scheduler.current(cpu_id).pid,
                id: before.scheduler.current(cpu_id).id,
            },
        )
        &&& outcome.resume == saved
        &&& unchanged(before, after)
    }
    &&& before.fault_policy == FaultPolicy::KillProcess ==> {
        &&& outcome.halt is None
        &&& kill_process_post(before, after, cpu_id, saved, outcome.resume)
    }
}

/// The page fault handler, called with the address whose access has faulted
/// and the context of the faulting thread. See [`fault_post`].
pub fn page_fault_handler(
    kernel: &mut Kernel,
    cpu: &mut Cpu,
    saved: Context,
    address: VirtualAddress,
) -> (outcome: FaultOutcome)
    requires
        old(kernel).wf(),
        old(kernel).runs_on(*old(cpu)),
    ensures
        final(kernel).wf(),
        final(kernel).clock == old(kernel).clock,
        final(kernel).fault_policy == old(kernel).fault_policy,
        final(cpu).is_preemptable() == old(cpu).is_preemptable(),
        final(cpu).id_spec() == old(cpu).id_spec(),
        fault_post(*old(kernel), *final(kernel), old(cpu).id_spec() as int, saved, address, outcome),
{
    match kernel.fault_policy {
        FaultPolicy::Halt => {
            let thread = kernel.scheduler.current_thread(cpu.id());
            FaultOutcome {
                resume: saved,
                halt: Some(
                    FaultReport {
                        address,
                        instruction_pointer: saved.instruction_pointer,
                        pid: thread.pid,
                        id: thread.id,
                    },
                ),
            }
        },
        FaultPolicy::KillProcess => {
            let (_, resume) = kill_process(kernel, cpu, saved);
            FaultOutcome { resume, halt: None }
        },
    }
}

} // verus!
