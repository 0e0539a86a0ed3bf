//! What the multitasking layer needs to know of the architecture: where the
//! stacks of a thread lie, and what is kept of a thread that is not running.

use vstd::prelude::*;
use crate::arch::context::Context;
use crate::kernel::Kernel;
use crate::memory::VirtualAddress;
use crate::multitasking::scheduler::schedule_post;
use crate::multitasking::stack::StackType;
use crate::multitasking::ThreadID;
use crate::sync::Cpu;
use raw_cpuid::CpuId;

pub mod context;
pub mod gdt;
pub mod ioapic;

verus! {

/// The start of the area that holds the kernel stacks of all threads.
pub const KERNEL_STACK_AREA_BASE: VirtualAddress = 0xffff_fe80_0000_0000;

/// The distance between the kernel stack regions of two threads whose IDs
/// differ by one.
pub const KERNEL_STACK_OFFSET: u64 = 0x40_0000;

/// The largest size of a kernel stack.
pub const KERNEL_STACK_MAX_SIZE: usize = 0x20_0000;

/// The start of the area that holds the user stacks of all threads.
pub const USER_STACK_AREA_BASE: VirtualAddress = 0x0000_7f00_0000_0000;

/// The distance between the user stack regions of two threads whose IDs
/// differ by one.
pub const USER_STACK_OFFSET: u64 = 0x40_0000;

/// The largest size of a user stack.
pub const USER_STACK_MAX_SIZE: usize = 0x20_0000;

/// The stack type used for the x86_64 architecture.
pub const STACK_TYPE: StackType = StackType::FullDescending;

/// The vector of the software interrupt that asks for a reschedule.
pub const SCHEDULE_INTERRUPT_NUM: u8 = 0x20;

/// The first address of the kernel stack region of the thread.
pub open spec fn kernel_stack_start_spec(id: ThreadID) -> VirtualAddress {
    (KERNEL_STACK_AREA_BASE + KERNEL_STACK_OFFSET * id) as u64
}

/// The first address of the user stack region of the thread.
pub open spec fn user_stack_start_spec(id: ThreadID) -> VirtualAddress {
    (USER_STACK_AREA_BASE + USER_STACK_OFFSET * id) as u64
}

/// The first address of the kernel stack region of the thread.
pub fn kernel_stack_start(id: ThreadID) -> (address: VirtualAddress)
    ensures
        address == kernel_stack_start_spec(id),
        address == KERNEL_STACK_AREA_BASE + KERNEL_STACK_OFFSET * id,
        address + KERNEL_STACK_MAX_SIZE <= u64::MAX,
{
    KERNEL_STACK_AREA_BASE + KERNEL_STACK_OFFSET * (id as u64)
}

/// The first address of the user stack region of the thread.
pub fn user_stack_start(id: ThreadID) -> (address: VirtualAddress)
    ensures
        address == user_stack_start_spec(id),
        address == USER_STACK_AREA_BASE + USER_STACK_OFFSET * id,
        address + USER_STACK_MAX_SIZE <= u64::MAX,
{
    USER_STACK_AREA_BASE + USER_STACK_OFFSET * (id as u64)
}

/// The ID of the CPU that runs this code, as the processor itself reports it.
///
/// This calls `raw_cpuid::CpuId::get_feature_info` and takes the initial
/// local APIC ID from what it returns (`FeatureInfo::initial_local_apic_id`);
/// the result is `None` where the processor reports no feature information.
/// The verifier takes on trust that the ID fits one byte, which is the type
/// that the call returns. Which ID it is depends on the processor that asks,
/// so nothing more is said of it.
#[verifier::external_body]
pub fn get_cpu_id() -> (id: Option<usize>)
    ensures
        id is Some ==> id.unwrap() <= u8::MAX,
{
    match CpuId::new().get_feature_info() {
        Some(info) => Some(info.initial_local_apic_id() as usize),
        None => None,
    }
}

/// The number of CPUs that can be addressed, as the processor reports it.
///
/// This calls `raw_cpuid::CpuId::get_feature_info` and takes the maximum
/// number of addressable IDs for logical processors from what it returns
/// (`FeatureInfo::max_logical_processor_ids`); the result is `None` where the
/// processor reports no feature information. The verifier takes on trust that
/// the number fits one byte, which is the type that the call returns. The
/// number depends on the machine, so nothing more is said of it.
#[verifier::external_body]
pub fn get_cpu_num() -> (count: Option<usize>)
    ensures
        count is Some ==> count.unwrap() <= u8::MAX,
{
    match CpuId::new().get_feature_info() {
        Some(info) => Some(info.max_logical_processor_ids() as usize),
        None => None,
    }
}

/// The model of the CPU with the ID that the processor has reported: the CPU
/// with that ID, with preemption disabled; none where no ID was reported.
pub fn cpu_with_id(id: Option<usize>) -> (cpu: Option<Cpu>)
    ensures
        cpu is Some <==> id is Some,
        cpu is Some ==> cpu.unwrap().id_spec() == id.unwrap() && !cpu.unwrap().is_preemptable(),
{
    match id {
        Some(id) => Some(Cpu::new(id)),
        None => None,
    }
}

/// The model of the CPU that runs this code, with preemption disabled; none
/// where the processor reports no ID.
pub fn this_cpu() -> (cpu: Option<Cpu>)
    ensures
        cpu is Some ==> cpu.unwrap().id_spec() <= u8::MAX && !cpu.unwrap().is_preemptable(),
{
    cpu_with_id(get_cpu_id())
}

/// Performs a scheduling operation on the CPU: chooses the thread that runs
/// next and puts away the thread that ran, whose context is `saved`. Returns
/// the context that the CPU is to resume.
///
/// This is what the handler of the reschedule interrupt calls; whoever wants
/// a reschedule raises that interrupt on its own CPU and so gets here from a
/// known stack frame. See [`schedule_post`]. Of the kernel's memory nothing
/// changes but that the frames of dropped threads go back to the allocator.
pub fn schedule(kernel: &mut Kernel, cpu: &mut Cpu, saved: Context) -> (next: Context)
    requires
        old(kernel).wf(),
        old(kernel).runs_on(*old(cpu)),
    ensures
        final(kernel).wf(),
        final(kernel).clock == old(kernel).clock,
        final(kernel).fault_policy == old(kernel).fault_policy,
        final(cpu).is_preemptable() == old(cpu).is_preemptable(),
        final(cpu).id_spec() == old(cpu).id_spec(),
        final(kernel).memory.only_freed(old(kernel).memory),
        schedule_post(
            old(kernel).scheduler,
            final(kernel).scheduler,
            old(kernel).processes@,
            final(kernel).processes@,
            old(cpu).id_spec() as int,
            saved,
            next,
        ),
{
    kernel.scheduler.schedule_next_thread(cpu, &mut kernel.processes, &mut kernel.memory, saved)
}

} // verus!
