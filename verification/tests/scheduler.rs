use boringos::arch::context::Context;
use boringos::arch::schedule;
use boringos::interrupts::timer_interrupt;
use boringos::kernel::{FaultPolicy, Kernel};
use boringos::memory::address_space::AddressSpace;
use boringos::memory::area_frame_allocator::{AreaFrameAllocator, MemoryArea};
use boringos::memory::paging::mapper::Mapper;
use boringos::memory::{FrameAllocator, MapError, MemoryController, PageFlags, PAGE_SIZE};
use boringos::multitasking::pcb::{ProcessList, PCB};
use boringos::multitasking::scheduler::{ReadyList, SleepingList};
use boringos::multitasking::stack::StackError;
use boringos::multitasking::tcb::{SleepTimeSortedTCB, ThreadState, TCB};
use boringos::multitasking::{create_process, find_pid, CreateError};
use boringos::sync::time::Timestamp;
use boringos::sync::Cpu;
use boringos::syscalls::{
    create_thread_in, create_thread_with_priority, kill_process, kill_thread, sleep,
};

fn memory(frames: u64) -> MemoryController {
    let allocator = AreaFrameAllocator::new(
        0x2000,
        0x3fff,
        0x5000,
        0x5fff,
        vec![MemoryArea::new(0x10_0000, frames * PAGE_SIZE)],
    );
    MemoryController::new(Mapper::new(), allocator, 0x5000_0000, 0x5010_0000)
}

fn count_free(memory: &mut MemoryController) -> usize {
    let mut frames = Vec::new();
    while let Some(frame) = memory.frame_allocator.allocate_frame() {
        frames.push(frame);
    }
    let count = frames.len();
    for frame in frames {
        memory.frame_allocator.deallocate_frame(frame);
    }
    count
}

fn kernel(cpus: usize) -> Kernel {
    Kernel::new(memory(4096), cpus, FaultPolicy::KillProcess).unwrap()
}

fn context(marker: u64) -> Context {
    Context::new(marker, 0, 0, 0, 0, 0, 0, 0, 0)
}

fn threads(priorities: &[i32]) -> (Vec<TCB>, PCB, MemoryController) {
    let mut memory = memory(4096);
    let mut pcb = PCB::new(AddressSpace::new());
    let mut threads = Vec::new();
    for (id, priority) in priorities.iter().enumerate() {
        let mut thread = TCB::in_process(1, id as u16, 0x40_0000, &mut pcb, &mut memory).unwrap();
        thread.priority = *priority;
        threads.push(thread);
    }
    (threads, pcb, memory)
}

fn millis(ms: u64) -> Timestamp {
    Timestamp::from_milliseconds(ms)
}

#[test]
fn ready_list_pops_the_highest_priority_first() {
    let (threads, _pcb, _memory) = threads(&[3, 7, 1, 7]);
    let mut list = ReadyList::new();
    assert!(list.is_empty());
    assert_eq!(list.peek_priority(), None);
    for thread in threads {
        list.push(thread);
    }
    assert_eq!(list.len(), 4);
    assert_eq!(list.peek_priority(), Some(7));
    let first = list.pop().unwrap();
    let second = list.pop().unwrap();
    assert_eq!((first.priority, second.priority), (7, 7));
    // Of two threads of one priority the one pushed first comes first.
    assert_eq!((first.id, second.id), (1, 3));
    let third = list.pop().unwrap();
    assert_eq!((third.priority, third.id), (3, 0));
    let last = list.pop().unwrap();
    assert_eq!((last.priority, last.id), (1, 2));
    assert!(list.pop().is_none());
    assert!(list.is_empty());
}

#[test]
fn ready_list_takes_negative_and_extreme_priorities() {
    let (threads, _pcb, _memory) = threads(&[i32::MIN, -1, i32::MAX, 0]);
    let mut list = ReadyList::new();
    for thread in threads {
        list.push(thread);
    }
    let order: Vec<i32> = (0..4).map(|_| list.pop().unwrap().priority).collect();
    assert_eq!(order, vec![i32::MAX, 0, -1, i32::MIN]);
}

#[test]
fn sleeping_list_pops_the_earliest_wake_time_first() {
    let (threads, _pcb, _memory) = threads(&[1, 1, 1, 1]);
    let mut list = SleepingList::new();
    assert_eq!(list.peek(), None);
    for (thread, wake) in threads.into_iter().zip([100u64, 50, 200, 50]) {
        let mut thread = thread;
        thread.state = ThreadState::Sleeping(millis(wake));
        let sleeper = SleepTimeSortedTCB(thread);
        assert_eq!(sleeper.get_sleep_time(), millis(wake));
        list.push(sleeper);
    }
    assert_eq!(list.len(), 4);
    assert_eq!(list.peek(), Some(millis(50)));
    let order: Vec<(u16, Timestamp)> = (0..4)
        .map(|_| {
            let sleeper = list.pop().unwrap();
            (sleeper.0.id, sleeper.get_sleep_time())
        })
        .collect();
    assert_eq!(order, vec![(1, millis(50)), (3, millis(50)), (0, millis(100)), (2, millis(200))]);
    assert!(list.pop().is_none());
}

#[test]
fn new_thread_is_ready_with_its_stacks_in_place() {
    let (threads, pcb, _memory) = threads(&[1, 1]);
    let thread = &threads[1];
    assert_eq!((thread.id, thread.pid), (1, 1));
    assert_eq!(thread.state, ThreadState::Ready);
    assert!(!thread.is_running());
    assert_eq!(thread.kernel_stack.top_address(), 0xffff_fe80_0000_0000 + 0x40_0000 + 0x20_0000);
    assert_eq!(thread.kernel_stack.size(), 0x4000);
    assert_eq!(thread.user_stack.top_address(), 0x0000_7f00_0000_0000 + 0x40_0000 + 0x20_0000);
    assert_eq!(thread.user_stack.size(), 0x2000);
    assert_eq!(
        thread.context,
        Context::new(
            0x40_0000,
            thread.user_stack.base_stack_pointer,
            thread.kernel_stack.base_stack_pointer,
            1,
            0,
            0,
            0,
            0,
            0
        )
    );
    let space = pcb.address_space();
    assert!(space.table().translate(thread.kernel_stack.top_address() - 1).is_some());
    assert!(space.table().translate(thread.kernel_stack.top_address() - 0x4000).is_some());
    assert!(space.table().translate(thread.kernel_stack.top_address() - 0x4001).is_none());
    assert!(space.table().translate(thread.user_stack.top_address() - 0x2000).is_some());
    assert!(space.table().translate(thread.user_stack.top_address() - 0x2001).is_none());
    assert!(space.contains_range(0xffff_fe80_0040_0000, 0x20_0000));
    assert!(space.contains_range(0x0000_7f00_0040_0000, 0x20_0000));
}

#[test]
fn thread_with_arguments_carries_them_in_its_context() {
    let mut memory = memory(256);
    let mut pcb = PCB::new(AddressSpace::new());
    let thread =
        TCB::in_process_with_arguments(9, 3, 0x1234, &mut pcb, &mut memory, 1, 2, 3, 4, 5).unwrap();
    assert_eq!((thread.context.arg1, thread.context.arg5), (1, 5));
    assert_eq!(thread.context.instruction_pointer, 0x1234);
    assert!(thread.context.user_mode);
    assert_eq!(thread.priority, 1);
}

#[test]
fn thread_creation_fails_cleanly() {
    let mut memory = memory(256);
    let mut pcb = PCB::new(AddressSpace::new());
    let first = TCB::in_process(1, 0, 0, &mut pcb, &mut memory).unwrap();
    let free = count_free(&mut memory);
    // The stack regions of the thread 0 are taken.
    let second = TCB::in_process(1, 0, 0, &mut pcb, &mut memory);
    assert_eq!(second.err(), Some(StackError::SegmentOverlap));
    assert_eq!(count_free(&mut memory), free);
    assert!(pcb.address_space().table().translate(first.user_stack.top_address() - 1).is_some());
    // Without memory for the user stack the kernel stack is taken back.
    let mut memory = self::memory(8);
    let mut pcb = PCB::new(AddressSpace::new());
    let failed = TCB::in_process(1, 0, 0, &mut pcb, &mut memory);
    assert!(matches!(failed.err(), Some(StackError::MapFailed(_))));
    assert!(!pcb.address_space().contains_range(0xffff_fe80_0000_0000, 1));
    assert!(!pcb.address_space().contains_range(0x0000_7f00_0000_0000, 1));
    assert!(pcb.address_space().table().translate(0xffff_fe80_0020_0000 - 1).is_none());
}

#[test]
fn idle_thread_has_the_lowest_priority() {
    let mut memory = memory(256);
    let idle = TCB::idle_tcb(3, &mut memory).unwrap();
    assert_eq!((idle.id, idle.pid), (3, 0));
    assert_eq!(idle.priority, i32::MIN);
    assert_eq!(idle.state, ThreadState::Ready);
    assert_eq!(idle.kernel_stack.size(), 0x3000);
    assert_eq!(idle.user_stack.size(), 0);
    assert_eq!(idle.context, Context::idle_context(idle.kernel_stack.base_stack_pointer));
    assert!(!idle.context.user_mode);
    assert!(memory.active_table.translate(idle.kernel_stack.top_address() - 0x3000).is_some());
}

#[test]
fn thread_is_dead_with_its_state_or_its_process() {
    let (mut threads, pcb, _memory) = threads(&[1]);
    let mut thread = threads.pop().unwrap();
    let mut processes = ProcessList::new();
    // The process 1 is not in the table.
    assert!(thread.is_dead(&processes));
    processes.insert(1, pcb);
    assert!(!thread.is_dead(&processes));
    thread.set_running(&processes);
    assert!(thread.is_running());
    thread.set_ready(&processes);
    assert_eq!(thread.state, ThreadState::Ready);
    let mut pcb = processes.remove(1).unwrap();
    pcb.kill();
    processes.insert(1, pcb);
    assert!(thread.is_dead(&processes));
    thread.state = ThreadState::Running;
    thread.set_ready(&processes);
    assert_eq!(thread.state, ThreadState::Running);
    let mut processes = ProcessList::new();
    processes.insert(1, PCB::new(AddressSpace::new()));
    assert!(!thread.is_dead(&processes));
    thread.kill();
    assert_eq!(thread.state, ThreadState::Dead);
    assert!(thread.is_dead(&processes));
    thread.set_ready(&processes);
    assert_eq!(thread.state, ThreadState::Dead);
}

#[test]
fn process_counts_its_threads() {
    let mut pcb = PCB::new(AddressSpace::new());
    assert_eq!(pcb.thread_count(), 1);
    assert_eq!(pcb.find_thread_id(), Some(1));
    pcb.add_thread(1);
    pcb.add_thread(3);
    pcb.add_thread(3);
    assert_eq!(pcb.thread_count(), 3);
    assert_eq!(pcb.find_thread_id(), Some(2));
    assert!(pcb.remove_thread(0));
    assert!(!pcb.remove_thread(0));
    assert_eq!(pcb.find_thread_id(), Some(0));
    assert!(pcb.has_thread(3));
    assert!(!pcb.is_droppable());
    pcb.kill();
    assert!(pcb.is_dead());
    assert!(!pcb.is_droppable());
    assert!(pcb.remove_thread(1));
    assert!(pcb.remove_thread(3));
    assert!(pcb.is_droppable());
    let idle = PCB::idle_pcb();
    assert_eq!(idle.thread_count(), 0);
    assert!(!idle.is_dead());
    assert!(!idle.is_droppable());
}

#[test]
fn process_without_a_free_thread_id() {
    let mut pcb = PCB::new(AddressSpace::new());
    for id in 1..=u16::MAX {
        pcb.add_thread(id);
    }
    assert_eq!(pcb.thread_count(), 65536);
    assert_eq!(pcb.find_thread_id(), None);
    assert!(pcb.remove_thread(40000));
    assert_eq!(pcb.find_thread_id(), Some(40000));
}

#[test]
fn process_ids_are_the_smallest_free_positive_ones() {
    let mut processes = ProcessList::new();
    assert!(processes.contains(0));
    assert_eq!(find_pid(&processes), Some(1));
    processes.insert(1, PCB::new(AddressSpace::new()));
    processes.insert(2, PCB::new(AddressSpace::new()));
    processes.insert(4, PCB::new(AddressSpace::new()));
    assert_eq!(find_pid(&processes), Some(3));
    assert!(processes.remove(1).is_some());
    assert!(processes.remove(1).is_none());
    assert_eq!(find_pid(&processes), Some(1));
    assert!(processes.get(2).is_some());
    assert!(processes.get(3).is_none());
}

#[test]
fn new_kernel_runs_the_idle_threads() {
    let kernel = kernel(2);
    assert_eq!(kernel.scheduler.cpus(), 2);
    assert_eq!(kernel.scheduler.ready_count(), 0);
    assert_eq!(kernel.scheduler.sleeping_count(), 0);
    for cpu in 0..2 {
        let idle = kernel.scheduler.current_thread(cpu);
        assert_eq!((idle.pid, idle.id as usize, idle.priority), (0, cpu, i32::MIN));
        assert_eq!(idle.state, ThreadState::Running);
    }
    assert!(kernel.processes.contains(0));
    assert!(!kernel.processes.contains(1));
    assert_eq!(kernel.clock, millis(0));
    assert!(Kernel::new(memory(2), 1, FaultPolicy::Halt).is_err());
}

#[test]
fn new_kernel_maps_the_idle_stacks_and_nothing_else() {
    let kernel = Kernel::new(memory(24), 2, FaultPolicy::KillProcess).unwrap();
    assert_eq!(kernel.fault_policy, FaultPolicy::KillProcess);
    for cpu in 0..2u64 {
        let idle = kernel.scheduler.current_thread(cpu as usize);
        let top = 0xffff_fe80_0000_0000 + cpu * 0x40_0000 + 0x20_0000;
        assert_eq!(idle.kernel_stack.top_address(), top);
        assert_eq!(idle.kernel_stack.bottom_address(), top - 0x3000);
        assert_eq!(idle.user_stack.size(), 0);
        assert_eq!(idle.context, Context::idle_context(top));
        for page in 1..=3u64 {
            assert!(kernel.memory.active_table.translate(top - page * PAGE_SIZE).is_some());
        }
        assert!(kernel.memory.active_table.translate(top - 4 * PAGE_SIZE).is_none());
        assert!(kernel.memory.active_table.translate(top).is_none());
    }
    assert!(kernel.memory.active_table.translate(0xffff_fe80_0000_0000 + 2 * 0x40_0000 + 0x20_0000 - 1).is_none());
    assert!(kernel.memory.active_table.translate(0x1000).is_none());
}

#[test]
fn new_kernel_without_cpus_leaves_the_memory_alone() {
    let mut kernel = Kernel::new(memory(8), 0, FaultPolicy::Halt).unwrap();
    assert_eq!(kernel.scheduler.cpus(), 0);
    assert_eq!(count_free(&mut kernel.memory), 8);
    assert!(kernel.memory.active_table.translate(0xffff_fe80_0020_0000 - 1).is_none());
}

#[test]
fn new_kernel_fails_when_an_idle_stack_cannot_be_made() {
    assert_eq!(
        Kernel::new(memory(9), 2, FaultPolicy::Halt).err(),
        Some(StackError::MapFailed(MapError::OutOfMemory))
    );
    assert!(Kernel::new(memory(10), 2, FaultPolicy::Halt).is_ok());
    let mut taken = memory(64);
    let flags = PageFlags { readable: true, writable: true, user_accessible: false, no_cache: false };
    taken.map_page(0xffff_fe80_0060_0000 - PAGE_SIZE, flags).unwrap();
    assert_eq!(
        Kernel::new(taken, 2, FaultPolicy::Halt).err(),
        Some(StackError::MapFailed(MapError::AlreadyMapped))
    );
}

#[test]
fn create_process_enqueues_its_first_thread() {
    let mut kernel = kernel(1);
    let mut cpu = Cpu::new(0);
    cpu.enable_preemption();
    assert_eq!(create_process(&mut kernel, &mut cpu, AddressSpace::new(), 0x40_0000), Ok(1));
    assert_eq!(create_process(&mut kernel, &mut cpu, AddressSpace::new(), 0x50_0000), Ok(2));
    assert!(cpu.preemptable());
    assert_eq!(kernel.scheduler.ready_count(), 2);
    assert_eq!(kernel.processes.get(1).unwrap().thread_count(), 1);
    assert!(kernel.processes.get(1).unwrap().has_thread(0));
    // The idle thread runs until the next reschedule.
    assert_eq!(kernel.scheduler.current_thread(0).pid, 0);
    let next = schedule(&mut kernel, &mut cpu, context(0));
    let current = kernel.scheduler.current_thread(0);
    assert_eq!((current.pid, current.id, current.priority), (1, 0, 1));
    assert_eq!(current.state, ThreadState::Running);
    assert_eq!(next, current.context);
    assert_eq!(next.instruction_pointer, 0x40_0000);
    // The context names the address space of the process.
    assert_eq!(next.address_space, 1);
    assert_eq!(kernel.scheduler.ready_count(), 1);
    assert!(cpu.preemptable());
    // The idle thread is parked with the context it was interrupted in.
    let next = schedule(&mut kernel, &mut cpu, context(0x77));
    assert_eq!(next.address_space, 2);
    assert_eq!(kernel.scheduler.current_thread(0).pid, 2);
    assert_eq!(kernel.scheduler.ready_count(), 1);
}

#[test]
fn reschedule_drops_the_dead_threads_before_the_chosen_one_and_keeps_the_rest() {
    let mut kernel = kernel(1);
    let mut cpu = Cpu::new(0);
    // Two processes of two threads each; the first process is killed while
    // one of its threads runs.
    let first = create_process(&mut kernel, &mut cpu, AddressSpace::new(), 0x1000).unwrap();
    let second = create_process(&mut kernel, &mut cpu, AddressSpace::new(), 0x2000).unwrap();
    assert_eq!(create_thread_in(&mut kernel, &mut cpu, first, 0x1100, 0, 0, 0, 0, 0), Ok(1));
    assert_eq!(create_thread_in(&mut kernel, &mut cpu, second, 0x2100, 0, 0, 0, 0, 0), Ok(1));
    schedule(&mut kernel, &mut cpu, context(0));
    assert_eq!(kernel.scheduler.current_thread(0).pid, first);
    assert_eq!(kernel.scheduler.ready_count(), 3);
    // The ready list holds the threads (2, 0), (1, 1), (2, 1), in this order.
    let (value, next) = kill_process(&mut kernel, &mut cpu, context(1));
    assert_eq!(value, 0);
    // The thread that ran is dropped; the thread (2, 0) is taken, and the
    // dead thread (1, 1) behind it stays in the list with the thread (2, 1).
    assert_eq!(next.instruction_pointer, 0x2000);
    let current = kernel.scheduler.current_thread(0);
    assert_eq!((current.pid, current.id), (second, 0));
    assert_eq!(kernel.scheduler.ready_count(), 2);
    assert!(kernel.processes.contains(first));
    assert_eq!(kernel.processes.get(first).unwrap().thread_count(), 1);
    // The next reschedule finds the dead thread first, drops it together
    // with its process, and takes the thread (2, 1).
    let next = schedule(&mut kernel, &mut cpu, context(2));
    assert_eq!(next.instruction_pointer, 0x2100);
    assert!(!kernel.processes.contains(first));
    assert_eq!(kernel.scheduler.ready_count(), 1);
    let current = kernel.scheduler.current_thread(0);
    assert_eq!((current.pid, current.id), (second, 1));
}

#[test]
fn create_process_fails_when_the_stacks_cannot_be_made() {
    // The idle thread takes six of the twelve frames; the kernel stack of the
    // first thread alone would need seven.
    let mut kernel = Kernel::new(memory(12), 1, FaultPolicy::Halt).unwrap();
    let mut cpu = Cpu::new(0);
    let result = create_process(&mut kernel, &mut cpu, AddressSpace::new(), 0x40_0000);
    assert!(matches!(result, Err(CreateError::Stack(StackError::MapFailed(_)))));
    assert!(!kernel.processes.contains(1));
    assert_eq!(kernel.scheduler.ready_count(), 0);
}

#[test]
fn schedule_runs_threads_of_one_priority_in_turn() {
    let mut kernel = kernel(1);
    let mut cpu = Cpu::new(0);
    create_process(&mut kernel, &mut cpu, AddressSpace::new(), 0x1000).unwrap();
    create_process(&mut kernel, &mut cpu, AddressSpace::new(), 0x2000).unwrap();
    let mut saved = context(0);
    let mut order = Vec::new();
    for _ in 0..5 {
        saved = schedule(&mut kernel, &mut cpu, saved);
        order.push(kernel.scheduler.current_thread(0).pid);
        // The idle thread is parked and the other thread waits.
        assert_eq!(kernel.scheduler.ready_count(), 1);
    }
    assert_eq!(order, vec![1, 2, 1, 2, 1]);
}

#[test]
fn schedule_saves_the_context_of_the_thread_that_ran() {
    let mut kernel = kernel(1);
    let mut cpu = Cpu::new(0);
    create_process(&mut kernel, &mut cpu, AddressSpace::new(), 0x1000).unwrap();
    create_process(&mut kernel, &mut cpu, AddressSpace::new(), 0x2000).unwrap();
    assert_eq!(schedule(&mut kernel, &mut cpu, context(0xaa)).instruction_pointer, 0x1000);
    assert_eq!(schedule(&mut kernel, &mut cpu, context(0xbb)).instruction_pointer, 0x2000);
    // The first thread comes back with what was saved when it was interrupted.
    assert_eq!(schedule(&mut kernel, &mut cpu, context(0xcc)), context(0xbb));
    assert_eq!(schedule(&mut kernel, &mut cpu, context(0xdd)), context(0xcc));
}

#[test]
fn schedule_with_nothing_ready_keeps_or_takes_the_idle_thread() {
    let mut kernel = kernel(1);
    let mut cpu = Cpu::new(0);
    // Only the idle thread exists: it goes on with what was saved.
    assert_eq!(schedule(&mut kernel, &mut cpu, context(7)), context(7));
    assert_eq!(kernel.scheduler.current_thread(0).pid, 0);
    assert_eq!(kernel.scheduler.current_thread(0).state, ThreadState::Running);
    create_process(&mut kernel, &mut cpu, AddressSpace::new(), 0x1000).unwrap();
    schedule(&mut kernel, &mut cpu, context(8));
    assert_eq!(kernel.scheduler.current_thread(0).pid, 1);
    // The thread is alone: the idle thread takes over and the thread waits in the ready list.
    assert_eq!(schedule(&mut kernel, &mut cpu, context(9)), context(8));
    assert_eq!(kernel.scheduler.current_thread(0).pid, 0);
    assert_eq!(kernel.scheduler.ready_count(), 1);
    schedule(&mut kernel, &mut cpu, context(8));
    assert_eq!(kernel.scheduler.current_thread(0).pid, 1);
    assert_eq!(kernel.scheduler.ready_count(), 0);
}

#[test]
fn sleeping_threads_wake_at_the_first_tick_after_their_time() {
    let mut kernel = kernel(1);
    let mut cpu = Cpu::new(0);
    let pid = create_process(&mut kernel, &mut cpu, AddressSpace::new(), 0x1000).unwrap();
    assert_eq!(create_thread_in(&mut kernel, &mut cpu, pid, 0x2000, 0, 0, 0, 0, 0), Ok(1));
    assert_eq!(create_thread_in(&mut kernel, &mut cpu, pid, 0x3000, 0, 0, 0, 0, 0), Ok(2));
    schedule(&mut kernel, &mut cpu, context(0));
    // The three threads go to sleep one after the other, until 100, 50 and 200.
    for (id, ms) in [(0u16, 100u64), (1, 50), (2, 200)] {
        assert_eq!(kernel.scheduler.current_thread(0).id, id);
        assert_eq!(kernel.scheduler.current_thread(0).pid, pid);
        sleep(&mut kernel, &mut cpu, context(id as u64), millis(0), ms);
    }
    assert_eq!(kernel.scheduler.sleeping_count(), 3);
    assert_eq!(kernel.scheduler.ready_count(), 0);
    assert_eq!(kernel.scheduler.current_thread(0).pid, 0);
    // At 49 nobody wakes.
    timer_interrupt(&mut kernel, &mut cpu, millis(49), context(0));
    assert_eq!(kernel.scheduler.sleeping_count(), 3);
    assert_eq!(kernel.scheduler.current_thread(0).pid, 0);
    // At 60 the thread that sleeps until 50 wakes, and no other.
    let next = timer_interrupt(&mut kernel, &mut cpu, millis(60), context(0));
    assert_eq!(kernel.clock, millis(60));
    assert_eq!(kernel.scheduler.sleeping_count(), 2);
    assert_eq!(kernel.scheduler.current_thread(0).id, 1);
    assert_eq!(kernel.scheduler.current_thread(0).state, ThreadState::Running);
    assert_eq!(next, context(1));
    // At 150 the thread that sleeps until 100 wakes; the one that sleeps until 200 sleeps on.
    timer_interrupt(&mut kernel, &mut cpu, millis(150), context(1));
    assert_eq!(kernel.scheduler.sleeping_count(), 1);
    assert_eq!(kernel.scheduler.current_thread(0).id, 0);
    assert_eq!(kernel.scheduler.ready_count(), 1);
    // At 200 sharp the last one wakes.
    timer_interrupt(&mut kernel, &mut cpu, millis(200), context(0));
    assert_eq!(kernel.scheduler.sleeping_count(), 0);
    assert_eq!(kernel.scheduler.ready_count(), 2);
}

#[test]
fn higher_priority_thread_runs_first_sleeps_and_returns() {
    let mut kernel = kernel(1);
    let mut cpu = Cpu::new(0);
    cpu.enable_preemption();
    // A process with one thread of priority 1.
    let pid = create_process(&mut kernel, &mut cpu, AddressSpace::new(), 0x1000).unwrap();
    // A second thread of the same process, of priority 5.
    assert_eq!(create_thread_with_priority(&mut kernel, &mut cpu, pid, 5, 0x2000, 0, 0, 0, 0, 0), Ok(1));
    assert_eq!(kernel.scheduler.ready_count(), 2);
    // One scheduling round: the thread of priority 5 is chosen.
    let next = schedule(&mut kernel, &mut cpu, context(0));
    assert_eq!(next.instruction_pointer, 0x2000);
    assert_eq!(kernel.scheduler.current_thread(0).priority, 5);
    assert_eq!(kernel.scheduler.current_thread(0).id, 1);
    // It sleeps for 10 ms: the other thread runs.
    let now = kernel.clock;
    let (value, next) = sleep(&mut kernel, &mut cpu, context(0x55), now, 10);
    assert_eq!(value, 0);
    assert_eq!(next.instruction_pointer, 0x1000);
    assert_eq!(kernel.scheduler.current_thread(0).priority, 1);
    assert_eq!(kernel.scheduler.sleeping_count(), 1);
    // Ticks pass; before the 10 ms are over the thread sleeps on.
    let mut saved = next;
    for ms in 1..10 {
        saved = timer_interrupt(&mut kernel, &mut cpu, millis(ms), saved);
        assert_eq!(kernel.scheduler.sleeping_count(), 1);
        assert_ne!(kernel.scheduler.current_thread(0).priority, 5);
    }
    // After 10 ms it is back in the ready list and is scheduled again.
    let resumed = timer_interrupt(&mut kernel, &mut cpu, millis(10), saved);
    assert_eq!(kernel.scheduler.sleeping_count(), 0);
    assert_eq!(kernel.scheduler.current_thread(0).priority, 5);
    assert_eq!(resumed, context(0x55));
    assert!(cpu.preemptable());
}

#[test]
fn killed_thread_is_dropped_and_its_stacks_are_released() {
    let mut kernel = kernel(1);
    let mut cpu = Cpu::new(0);
    let pid = create_process(&mut kernel, &mut cpu, AddressSpace::new(), 0x1000).unwrap();
    assert_eq!(create_thread_in(&mut kernel, &mut cpu, pid, 0x2000, 0, 0, 0, 0, 0), Ok(1));
    schedule(&mut kernel, &mut cpu, context(0));
    assert_eq!(kernel.scheduler.current_thread(0).id, 0);
    let free = count_free(&mut kernel.memory);
    let (value, next) = kill_thread(&mut kernel, &mut cpu, context(0));
    assert_eq!(value, 0);
    assert_eq!(next.instruction_pointer, 0x2000);
    assert_eq!(kernel.scheduler.current_thread(0).id, 1);
    assert_eq!(kernel.scheduler.ready_count(), 0);
    let pcb = kernel.processes.get(pid).unwrap();
    assert_eq!(pcb.thread_count(), 1);
    assert!(!pcb.has_thread(0));
    assert!(!pcb.address_space().contains_range(0xffff_fe80_0000_0000, 1));
    assert!(pcb.address_space().contains_range(0xffff_fe80_0040_0000, 1));
    // Four pages of kernel stack and two of user stack are free again.
    assert_eq!(count_free(&mut kernel.memory), free + 6);
    // The ID 0 can be had again.
    assert_eq!(create_thread_in(&mut kernel, &mut cpu, pid, 0x3000, 0, 0, 0, 0, 0), Ok(0));
}

#[test]
fn last_thread_of_a_killed_process_takes_the_process_along() {
    let mut kernel = kernel(1);
    let mut cpu = Cpu::new(0);
    let pid = create_process(&mut kernel, &mut cpu, AddressSpace::new(), 0x1000).unwrap();
    let other = create_process(&mut kernel, &mut cpu, AddressSpace::new(), 0x2000).unwrap();
    schedule(&mut kernel, &mut cpu, context(0));
    assert_eq!(kernel.scheduler.current_thread(0).pid, pid);
    assert_eq!(kernel.processes.get(pid).unwrap().thread_count(), 1);
    let (value, _) = kill_process(&mut kernel, &mut cpu, context(0));
    assert_eq!(value, 0);
    assert!(!kernel.processes.contains(pid));
    assert!(kernel.processes.contains(other));
    assert!(kernel.processes.contains(0));
    assert_eq!(kernel.scheduler.current_thread(0).pid, other);
    // The process is gone for good: more rounds change nothing, and its ID is free.
    schedule(&mut kernel, &mut cpu, context(0));
    assert!(!kernel.processes.contains(pid));
    assert_eq!(find_pid(&kernel.processes), Some(pid));
}

#[test]
fn killed_process_gives_its_frames_back() {
    let mut kernel = kernel(1);
    let mut cpu = Cpu::new(0);
    let free = count_free(&mut kernel.memory);
    // A loader has made a segment for the program and mapped two pages of it.
    let mut space = AddressSpace::new();
    let flags = boringos::memory::PageFlags {
        readable: true,
        writable: false,
        user_accessible: true,
        no_cache: false,
    };
    assert!(space.add_segment(boringos::memory::address_space::Segment::new(
        0x40_0800,
        0x1000,
        flags,
        boringos::memory::address_space::SegmentType::FromFile,
    )));
    assert_eq!(space.map_page(0x40_0800, &mut kernel.memory.frame_allocator), Ok(()));
    assert_eq!(space.map_page(0x40_1000, &mut kernel.memory.frame_allocator), Ok(()));
    let pid = create_process(&mut kernel, &mut cpu, space, 0x40_0800).unwrap();
    // Two pages of the program, six pages of stack, nine page tables.
    assert_eq!(count_free(&mut kernel.memory), free - 17);
    schedule(&mut kernel, &mut cpu, context(0));
    kill_process(&mut kernel, &mut cpu, context(0));
    assert!(!kernel.processes.contains(pid));
    // All pages are free again; the page tables are not given back.
    assert_eq!(count_free(&mut kernel.memory), free - 9);
}

#[test]
fn killed_process_goes_when_its_last_thread_is_dropped() {
    let mut kernel = kernel(1);
    let mut cpu = Cpu::new(0);
    let pid = create_process(&mut kernel, &mut cpu, AddressSpace::new(), 0x1000).unwrap();
    create_thread_in(&mut kernel, &mut cpu, pid, 0x2000, 0, 0, 0, 0, 0).unwrap();
    create_thread_in(&mut kernel, &mut cpu, pid, 0x3000, 0, 0, 0, 0, 0).unwrap();
    schedule(&mut kernel, &mut cpu, context(0));
    kill_process(&mut kernel, &mut cpu, context(0));
    // The thread that ran and the two that waited were all dropped in the one round.
    assert!(!kernel.processes.contains(pid));
    assert_eq!(kernel.scheduler.ready_count(), 0);
    assert_eq!(kernel.scheduler.current_thread(0).pid, 0);
}

#[test]
fn last_thread_of_a_living_process_leaves_the_process_in_the_table() {
    let mut kernel = kernel(1);
    let mut cpu = Cpu::new(0);
    let pid = create_process(&mut kernel, &mut cpu, AddressSpace::new(), 0x1000).unwrap();
    schedule(&mut kernel, &mut cpu, context(0));
    kill_thread(&mut kernel, &mut cpu, context(0));
    assert_eq!(kernel.scheduler.current_thread(0).pid, 0);
    // The process was not killed, so it stays, without threads.
    assert_eq!(kernel.processes.get(pid).unwrap().thread_count(), 0);
    assert!(!kernel.processes.get(pid).unwrap().is_dead());
}

#[test]
fn each_cpu_schedules_for_itself() {
    let mut kernel = kernel(2);
    let mut first = Cpu::new(0);
    let mut second = Cpu::new(1);
    create_process(&mut kernel, &mut first, AddressSpace::new(), 0x1000).unwrap();
    create_process(&mut kernel, &mut first, AddressSpace::new(), 0x2000).unwrap();
    schedule(&mut kernel, &mut second, context(0));
    assert_eq!(kernel.scheduler.current_thread(1).pid, 1);
    assert_eq!(kernel.scheduler.current_thread(0).pid, 0);
    schedule(&mut kernel, &mut first, context(0));
    assert_eq!(kernel.scheduler.current_thread(0).pid, 2);
    assert_eq!(kernel.scheduler.current_thread(1).pid, 1);
    assert_eq!(kernel.scheduler.ready_count(), 0);
    kill_thread(&mut kernel, &mut second, context(0));
    assert_eq!(kernel.scheduler.current_thread(1).pid, 0);
    assert_eq!(kernel.scheduler.current_thread(1).id, 1);
    assert_eq!(kernel.scheduler.current_thread(0).pid, 2);
}

#[test]
fn kernel_for_this_machine_has_the_cpus_that_the_processor_reports() {
    let reported = boringos::arch::get_cpu_num();
    assert_eq!(reported, boringos::arch::get_cpu_num());
    if let Some(count) = reported {
        assert!(count <= 255);
    }
    match Kernel::for_this_machine(memory(8192), FaultPolicy::Halt) {
        Ok(kernel) => {
            assert_eq!(Some(kernel.scheduler.cpus()), reported);
            for cpu in 0..kernel.scheduler.cpus() {
                assert_eq!(kernel.scheduler.current_thread(cpu).id as usize, cpu);
                assert_eq!(kernel.scheduler.current_thread(cpu).pid, 0);
            }
        },
        Err(error) => {
            assert_eq!(error, boringos::kernel::BootError::NoCpuInformation);
            assert_eq!(reported, None);
        },
    }
    assert!(Kernel::with_cpus(memory(64), None, FaultPolicy::Halt).is_err());
    assert_eq!(
        Kernel::with_cpus(memory(64), Some(70000), FaultPolicy::Halt).err(),
        Some(boringos::kernel::BootError::TooManyCpus)
    );
    assert_eq!(Kernel::with_cpus(memory(64), Some(2), FaultPolicy::Halt).unwrap().scheduler.cpus(), 2);
}

#[test]
fn this_cpu_has_the_id_that_the_processor_reports() {
    let id = boringos::arch::get_cpu_id();
    if let Some(id) = id {
        assert!(id <= 255);
    }
    let cpu = boringos::arch::this_cpu();
    assert_eq!(cpu.as_ref().map(|cpu| cpu.id()), id);
    assert!(cpu.map_or(true, |cpu| !cpu.preemptable()));
    assert!(boringos::arch::cpu_with_id(None).is_none());
    let cpu = boringos::arch::cpu_with_id(Some(9)).unwrap();
    assert_eq!((cpu.id(), cpu.preemptable()), (9, false));
}
