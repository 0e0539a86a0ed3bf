use boringos::arch::context::Context;
use boringos::arch::schedule;
use boringos::kernel::{FaultPolicy, Kernel};
use boringos::memory::address_space::{AddressSpace, Segment, SegmentType};
use boringos::memory::area_frame_allocator::{AreaFrameAllocator, MemoryArea};
use boringos::memory::paging::mapper::Mapper;
use boringos::memory::{MemoryController, PageFlags, PAGE_SIZE};
use boringos::multitasking::tcb::ThreadState;
use boringos::multitasking::{create_process, CreateError};
use boringos::sync::time::Timestamp;
use boringos::sync::Cpu;
use boringos::syscalls::{
    create_thread_in, exec_result, print_char, return_pid, syscall_handler, unknown_syscall,
    SyscallAction, SyscallOutcome,
};

fn kernel(policy: FaultPolicy) -> Kernel {
    let allocator = AreaFrameAllocator::new(
        0x2000,
        0x3fff,
        0x5000,
        0x5fff,
        vec![MemoryArea::new(0x10_0000, 4096 * PAGE_SIZE)],
    );
    let memory = MemoryController::new(Mapper::new(), allocator, 0x5000_0000, 0x5010_0000);
    Kernel::new(memory, 1, policy).unwrap()
}

const NOW: Timestamp = Timestamp { microseconds: 1_000 };

fn context(marker: u64) -> Context {
    Context::new(marker, 0, 0, 0, 0, 0, 0, 0, 0)
}

fn running_process(kernel: &mut Kernel, cpu: &mut Cpu) -> usize {
    let mut space = AddressSpace::new();
    let flags = PageFlags { readable: true, writable: false, user_accessible: true, no_cache: false };
    assert!(space.add_segment(Segment::new(0x40_0000, 0x1000, flags, SegmentType::FromFile)));
    let pid = create_process(kernel, cpu, space, 0x40_0000).unwrap();
    schedule(kernel, cpu, context(0));
    assert_eq!(kernel.scheduler.current_thread(0).pid, pid);
    pid
}

#[test]
fn print_char_hands_the_character_out() {
    assert_eq!(print_char(b'x'), (0, SyscallAction::PrintChar(b'x')));
    let mut kernel = kernel(FaultPolicy::Halt);
    let mut cpu = Cpu::new(0);
    let outcome = syscall_handler(&mut kernel, &mut cpu, context(1), NOW, 0, 0x1241, 0, 0, 0, 0, 0);
    assert_eq!(
        outcome,
        SyscallOutcome { value: 0, resume: context(1), action: SyscallAction::PrintChar(0x41) }
    );
}

#[test]
fn return_pid_gives_the_process_of_the_caller() {
    let mut kernel = kernel(FaultPolicy::Halt);
    let mut cpu = Cpu::new(0);
    assert_eq!(return_pid(&kernel, &cpu), 0);
    let pid = running_process(&mut kernel, &mut cpu);
    assert_eq!(return_pid(&kernel, &cpu), pid as i64);
    let outcome = syscall_handler(&mut kernel, &mut cpu, context(1), NOW, 2, 0, 0, 0, 0, 0, 0);
    assert_eq!(
        outcome,
        SyscallOutcome { value: 1, resume: context(1), action: SyscallAction::Nothing }
    );
}

#[test]
fn exec_asks_that_the_name_lies_in_a_segment() {
    let mut kernel = kernel(FaultPolicy::Halt);
    let mut cpu = Cpu::new(0);
    running_process(&mut kernel, &mut cpu);
    let outcome = syscall_handler(&mut kernel, &mut cpu, context(1), NOW, 3, 0x40_0100, 9, 0, 0, 0, 0);
    assert_eq!(outcome.value, 0);
    assert_eq!(outcome.resume, context(1));
    assert_eq!(outcome.action, SyscallAction::Exec { name_ptr: 0x40_0100, name_length: 9 });
    // The name would run over the end of the segment.
    let outcome = syscall_handler(&mut kernel, &mut cpu, context(1), NOW, 3, 0x40_0ff8, 9, 0, 0, 0, 0);
    assert_eq!(
        outcome,
        SyscallOutcome { value: -1, resume: context(1), action: SyscallAction::Nothing }
    );
    let outcome = syscall_handler(&mut kernel, &mut cpu, context(1), NOW, 3, 0x30_0000, 1, 0, 0, 0, 0);
    assert_eq!(outcome.value, -1);
    let outcome = syscall_handler(&mut kernel, &mut cpu, context(1), NOW, 3, 0x40_0000, u64::MAX, 0, 0, 0, 0);
    assert_eq!(outcome.value, -1);
}

#[test]
fn exec_result_is_the_process_id_or_minus_one() {
    assert_eq!(exec_result(Some(7)), 7);
    assert_eq!(exec_result(Some(0)), -1);
    assert_eq!(exec_result(None), -1);
    assert_eq!(exec_result(Some(usize::MAX)), -1);
    assert_eq!(exec_result(Some(i64::MAX as usize)), i64::MAX);
}

#[test]
fn sleep_puts_the_caller_to_sleep_from_the_current_time_on() {
    let mut kernel = kernel(FaultPolicy::Halt);
    let mut cpu = Cpu::new(0);
    running_process(&mut kernel, &mut cpu);
    // The last tick was at 490; the call comes at 500.
    kernel.clock = Timestamp::from_milliseconds(490);
    let now = Timestamp::from_milliseconds(500);
    let outcome = syscall_handler(&mut kernel, &mut cpu, context(1), now, 4, 25, 0, 0, 0, 0, 0);
    assert_eq!(kernel.clock, Timestamp::from_milliseconds(490));
    assert_eq!(outcome.value, 0);
    assert_eq!(outcome.action, SyscallAction::Nothing);
    assert_eq!(kernel.scheduler.sleeping_count(), 1);
    assert_eq!(kernel.scheduler.ready_count(), 0);
    assert_eq!(kernel.scheduler.current_thread(0).pid, 0);
    assert_eq!(outcome.resume, kernel.scheduler.current_thread(0).context);
    boringos::interrupts::timer_interrupt(&mut kernel, &mut cpu, Timestamp::from_milliseconds(524), context(0));
    assert_eq!(kernel.scheduler.sleeping_count(), 1);
    boringos::interrupts::timer_interrupt(&mut kernel, &mut cpu, Timestamp::from_milliseconds(525), context(0));
    assert_eq!(kernel.scheduler.sleeping_count(), 0);
    assert_eq!(kernel.scheduler.current_thread(0).pid, 1);
}

#[test]
fn sleep_for_longer_than_time_lasts() {
    let mut kernel = kernel(FaultPolicy::Halt);
    let mut cpu = Cpu::new(0);
    running_process(&mut kernel, &mut cpu);
    syscall_handler(&mut kernel, &mut cpu, context(1), NOW, 4, u64::MAX, 0, 0, 0, 0, 0);
    boringos::interrupts::timer_interrupt(
        &mut kernel,
        &mut cpu,
        Timestamp::from_microseconds(u64::MAX - 1),
        context(0),
    );
    assert_eq!(kernel.scheduler.sleeping_count(), 1);
    boringos::interrupts::timer_interrupt(
        &mut kernel,
        &mut cpu,
        Timestamp::from_microseconds(u64::MAX),
        context(0),
    );
    assert_eq!(kernel.scheduler.sleeping_count(), 0);
}

#[test]
fn create_thread_returns_the_first_free_id() {
    let mut kernel = kernel(FaultPolicy::Halt);
    let mut cpu = Cpu::new(0);
    let pid = running_process(&mut kernel, &mut cpu);
    let outcome = syscall_handler(&mut kernel, &mut cpu, context(1), NOW, 5, 0x40_0800, 1, 2, 3, 4, 5);
    assert_eq!(
        outcome,
        SyscallOutcome { value: 1, resume: context(1), action: SyscallAction::Nothing }
    );
    let outcome = syscall_handler(&mut kernel, &mut cpu, context(1), NOW, 5, 0x40_0800, 0, 0, 0, 0, 0);
    assert_eq!(outcome.value, 2);
    assert_eq!(kernel.processes.get(pid).unwrap().thread_count(), 3);
    assert_eq!(kernel.scheduler.ready_count(), 2);
    // The new thread starts where it was told to, with its arguments.
    let next = schedule(&mut kernel, &mut cpu, context(1));
    assert_eq!(kernel.scheduler.current_thread(0).id, 1);
    assert_eq!(next.instruction_pointer, 0x40_0800);
    assert_eq!((next.arg1, next.arg2, next.arg3, next.arg4, next.arg5), (1, 2, 3, 4, 5));
}

#[test]
fn create_thread_in_reports_what_is_missing() {
    let mut kernel = kernel(FaultPolicy::Halt);
    let mut cpu = Cpu::new(0);
    assert_eq!(
        create_thread_in(&mut kernel, &mut cpu, 0, 0, 0, 0, 0, 0, 0),
        Err(CreateError::NoProcess)
    );
    assert_eq!(
        create_thread_in(&mut kernel, &mut cpu, 5, 0, 0, 0, 0, 0, 0),
        Err(CreateError::NoProcess)
    );
    // The idle thread has no process to create threads in.
    let outcome = syscall_handler(&mut kernel, &mut cpu, context(1), NOW, 5, 0, 0, 0, 0, 0, 0);
    assert_eq!(outcome.value, -1);
    assert_eq!(kernel.scheduler.ready_count(), 0);
    let pid = running_process(&mut kernel, &mut cpu);
    let mut pcb = kernel.processes.remove(pid).unwrap();
    for id in 1..=u16::MAX {
        pcb.add_thread(id);
    }
    kernel.processes.insert(pid, pcb);
    assert_eq!(
        create_thread_in(&mut kernel, &mut cpu, pid, 0, 0, 0, 0, 0, 0),
        Err(CreateError::NoFreeId)
    );
}

#[test]
fn kill_thread_drops_the_caller() {
    let mut kernel = kernel(FaultPolicy::Halt);
    let mut cpu = Cpu::new(0);
    let pid = running_process(&mut kernel, &mut cpu);
    let outcome = syscall_handler(&mut kernel, &mut cpu, context(1), NOW, 6, 0, 0, 0, 0, 0, 0);
    assert_eq!(outcome.value, 0);
    assert_eq!(outcome.action, SyscallAction::Nothing);
    assert_eq!(kernel.scheduler.current_thread(0).pid, 0);
    assert_eq!(kernel.scheduler.current_thread(0).state, ThreadState::Running);
    assert_eq!(kernel.scheduler.ready_count(), 0);
    assert_eq!(kernel.processes.get(pid).unwrap().thread_count(), 0);
}

#[test]
fn kill_process_drops_the_process() {
    let mut kernel = kernel(FaultPolicy::Halt);
    let mut cpu = Cpu::new(0);
    let pid = running_process(&mut kernel, &mut cpu);
    let outcome = syscall_handler(&mut kernel, &mut cpu, context(1), NOW, 1, 0, 0, 0, 0, 0, 0);
    assert_eq!(outcome.value, 0);
    assert!(!kernel.processes.contains(pid));
    assert_eq!(kernel.scheduler.current_thread(0).pid, 0);
    // The idle process cannot be killed.
    let outcome = syscall_handler(&mut kernel, &mut cpu, context(1), NOW, 1, 0, 0, 0, 0, 0, 0);
    assert_eq!(outcome.value, 0);
    assert!(kernel.processes.contains(0));
    assert!(!kernel.processes.get(0).unwrap().is_dead());
    assert_eq!(kernel.scheduler.current_thread(0).pid, 0);
}

#[test]
fn unknown_syscall_halts_or_kills_as_the_policy_says() {
    let mut kernel = kernel(FaultPolicy::Halt);
    let mut cpu = Cpu::new(0);
    let pid = running_process(&mut kernel, &mut cpu);
    let outcome = syscall_handler(&mut kernel, &mut cpu, context(1), NOW, 7, 0, 0, 0, 0, 0, 0);
    assert_eq!(
        outcome,
        SyscallOutcome { value: -1, resume: context(1), action: SyscallAction::Halt { num: 7 } }
    );
    assert!(kernel.processes.contains(pid));
    assert_eq!(kernel.scheduler.current_thread(0).pid, pid);
    let outcome = unknown_syscall(&mut kernel, &mut cpu, context(1), u64::MAX);
    assert_eq!(outcome.action, SyscallAction::Halt { num: u64::MAX });

    let mut kernel = self::kernel(FaultPolicy::KillProcess);
    let pid = running_process(&mut kernel, &mut cpu);
    let outcome = syscall_handler(&mut kernel, &mut cpu, context(1), NOW, 1000, 0, 0, 0, 0, 0, 0);
    assert_eq!(outcome.value, -1);
    assert_eq!(outcome.action, SyscallAction::Nothing);
    assert!(!kernel.processes.contains(pid));
    assert_eq!(kernel.scheduler.current_thread(0).pid, 0);
    assert_eq!(outcome.resume, kernel.scheduler.current_thread(0).context);
}

#[test]
fn page_fault_halts_or_kills_as_the_policy_says() {
    let mut kernel = kernel(FaultPolicy::Halt);
    let mut cpu = Cpu::new(0);
    let pid = running_process(&mut kernel, &mut cpu);
    let outcome = boringos::interrupts::page_fault_handler(&mut kernel, &mut cpu, context(0x77), 0xdead_b000);
    assert_eq!(outcome.resume, context(0x77));
    assert_eq!(
        outcome.halt,
        Some(boringos::interrupts::FaultReport {
            address: 0xdead_b000,
            instruction_pointer: 0x77,
            pid,
            id: 0,
        })
    );
    assert!(kernel.processes.contains(pid));
    let mut kernel = self::kernel(FaultPolicy::KillProcess);
    let pid = running_process(&mut kernel, &mut cpu);
    let outcome = boringos::interrupts::page_fault_handler(&mut kernel, &mut cpu, context(0x77), 0xdead_b000);
    assert_eq!(outcome.halt, None);
    assert!(!kernel.processes.contains(pid));
    assert_eq!(outcome.resume, kernel.scheduler.current_thread(0).context);
}

#[test]
fn kernel_mutex_is_the_preemptable_lock() {
    let mut cpu = Cpu::new(0);
    cpu.enable_preemption();
    let mut mutex = boringos::sync::KernelMutex::new(5u8);
    let guard: boringos::sync::KernelMutexGuard = mutex.lock(&mut cpu);
    assert!(!cpu.preemptable());
    mutex.unlock(guard, &mut cpu);
    assert!(cpu.preemptable());
    assert_eq!(mutex.into_inner(), 5);
}
