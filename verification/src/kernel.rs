//! The kernel context: the one value that owns everything the core keeps
//! per machine, created at boot and handed to every entry point.

use vstd::prelude::*;
use crate::arch::context::Context;
use crate::memory::paging::Page;
use crate::memory::{FrameAllocator, MemoryController};
use crate::multitasking::stack::{mapping_in, newly_mapped};
use crate::multitasking::tcb::ThreadState;
use crate::multitasking::pcb::ProcessList;
use crate::multitasking::scheduler::Scheduler;
use crate::arch::{kernel_stack_start_spec, KERNEL_STACK_MAX_SIZE};
use crate::multitasking::stack::{AccessType, Stack, StackError};
use crate::multitasking::tcb::TCB;
use crate::multitasking::ThreadID;
use crate::sync::time::Timestamp;
use crate::sync::Cpu;

verus! {

/// What the kernel does when a process does something it must not, such as
/// calling a system call that does not exist.
#[derive(Debug, PartialEq, Eq, Structural, Clone, Copy)]
pub enum FaultPolicy {
    /// The whole kernel stops, with a report of the fault.
    Halt,
    /// The process is killed and the other processes go on.
    KillProcess,
}

/// Why the kernel could not be set up.
#[derive(Debug, PartialEq, Eq, Structural, Clone, Copy)]
pub enum BootError {
    /// The processor does not say how many CPUs there are.
    NoCpuInformation,
    /// There are more CPUs than idle threads can be numbered.
    TooManyCpus,
    /// The kernel stack of an idle thread could not be created.
    Stack(StackError),
}

/// The state of the kernel.
pub struct Kernel {
    /// The kernel's page table and the frame allocator.
    pub memory: MemoryController,
    /// The table of all processes.
    pub processes: ProcessList,
    /// The ready list, the sleeping list and the running threads.
    pub scheduler: Scheduler,
    /// The time of the last timer tick.
    pub clock: Timestamp,
    /// What to do about a faulting process.
    pub fault_policy: FaultPolicy,
}

impl Kernel {
    /// Every part is well formed, the idle process is in the table and
    /// alive, and every thread of a process that the scheduler holds is on
    /// the thread list of its process.
    pub open spec fn wf(&self) -> bool {
        &&& self.memory.wf()
        &&& self.processes.wf()
        &&& self.scheduler.wf()
        &&& self.processes@.contains_key(0)
        &&& !self.processes@[0].is_marked_dead()
        &&& self.scheduler.registered(self.processes@)
    }

    /// Whether the CPU is one of the kernel's.
    pub open spec fn runs_on(&self, cpu: Cpu) -> bool {
        cpu.id_spec() < self.scheduler.cpu_count()
    }

    /// Whether the page is a page of the kernel stack of the idle thread of
    /// one of the first `cpu_count` CPUs.
    pub open spec fn is_idle_page(cpu_count: usize, page: Page) -> bool {
        exists|cpu: usize| cpu < cpu_count && #[trigger] TCB::is_idle_stack_page(cpu, page)
    }

    /// A condition under which a kernel for `cpu_count` CPUs is sure to come
    /// about: no page of the kernel stack of any of the idle threads is
    /// mapped, and twelve frames are free for each idle thread.
    pub open spec fn new_owed(memory: MemoryController, cpu_count: usize) -> bool {
        &&& forall|cpu: usize| cpu < cpu_count ==> #[trigger] TCB::idle_stack_unmapped(cpu, memory)
        &&& memory.frame_allocator.free_frames().len() >= 12 * cpu_count
    }

    /// What the kernel that `new` has made is, over the memory `memory`.
    ///
    /// The idle process is its only process, both lists are empty, and the
    /// clock stands at zero. On each CPU its idle thread runs, of the lowest
    /// priority, with the context of the idle loop on its kernel stack, and
    /// no idle thread is parked. The pages of the kernel stacks of the idle
    /// threads are newly mapped in the active table, and no other page has
    /// changed what it is mapped to.
    pub open spec fn fresh(
        &self,
        memory: MemoryController,
        cpu_count: usize,
        fault_policy: FaultPolicy,
    ) -> bool {
        &&& self.wf()
        &&& self.scheduler.cpu_count() == cpu_count
        &&& self.scheduler.ready().len() == 0
        &&& self.scheduler.sleeping().len() == 0
        &&& self.processes@.dom() == set![0usize]
        &&& self.clock.microseconds == 0
        &&& self.fault_policy == fault_policy
        &&& self.memory.same_stack_area(memory)
        &&& forall|cpu: int|
            0 <= cpu < cpu_count ==> {
                let thread = #[trigger] self.scheduler.current(cpu);
                &&& thread.pid == 0
                &&& thread.id == cpu
                &&& thread.priority == i32::MIN
                &&& thread.state == ThreadState::Running
                &&& thread.context == Context::idle_spec(thread.kernel_stack.base() as u64)
                &&& thread.kernel_stack.pages() == TCB::idle_stack_pages(cpu as usize)
                &&& thread.user_stack.bottom() == thread.user_stack.top()
                &&& self.scheduler.idle(cpu) is None
            }
        &&& forall|cpu: usize, q: Page|
            cpu < cpu_count && #[trigger] TCB::is_idle_stack_page(cpu, q) ==> #[trigger] newly_mapped(
                None,
                memory,
                None,
                self.memory,
                crate::multitasking::stack::kernel_page_flags(),
                q,
            )
        &&& forall|q: Page|
            q.is_canonical() && !Kernel::is_idle_page(cpu_count, q) ==> #[trigger] mapping_in(
                None,
                self.memory,
                q,
            ) == mapping_in(None, memory, q)
    }

    /// A kernel for `cpu_count` CPUs over the given memory. Each CPU gets its
    /// idle thread, which is the thread that runs on it at first; no other
    /// thread and no process but the idle process exists. The clock stands at
    /// zero. See [`Kernel::fresh`].
    ///
    /// This fails only if the kernel stack of an idle thread cannot be
    /// created, with the error of that stack; it succeeds whenever
    /// [`Kernel::new_owed`] holds.
    pub fn new(memory: MemoryController, cpu_count: usize, fault_policy: FaultPolicy) -> (r: Result<
        Kernel,
        StackError,
    >)
        requires
            memory.wf(),
            cpu_count <= ThreadID::MAX,
        ensures
            Kernel::new_owed(memory, cpu_count) ==> r is Ok,
            r != Err::<Kernel, StackError>(StackError::SegmentOverlap),
            r is Ok ==> (r->Ok_0).fresh(memory, cpu_count, fault_policy),
    {
        let ghost owed = Kernel::new_owed(memory, cpu_count);
        let mut controller = memory;
        let mut idle_threads: Vec<TCB> = Vec::new();
        let mut cpu: usize = 0;
        proof {
            controller.frame_allocator.lemma_disjoint();
        }
        while cpu < cpu_count
            invariant
                cpu <= cpu_count,
                cpu_count <= ThreadID::MAX,
                owed == Kernel::new_owed(memory, cpu_count),
                controller.wf(),
                controller.same_stack_area(memory),
                idle_threads@.len() == cpu,
                forall|i: int|
                    0 <= i < cpu ==> {
                        let thread = #[trigger] idle_threads@[i];
                        &&& thread.wf()
                        &&& thread.pid == 0
                        &&& thread.id == i
                        &&& thread.priority == i32::MIN
                        &&& thread.context == Context::idle_spec(thread.kernel_stack.base() as u64)
                        &&& thread.kernel_stack.pages() == TCB::idle_stack_pages(i as usize)
                        &&& thread.user_stack.bottom() == thread.user_stack.top()
                    },
                forall|other: usize, q: Page|
                    other < cpu && #[trigger] TCB::is_idle_stack_page(other, q)
                        ==> #[trigger] newly_mapped(
                        None,
                        memory,
                        None,
                        controller,
                        crate::multitasking::stack::kernel_page_flags(),
                        q,
                    ),
                forall|q: Page|
                    q.is_canonical() && !Kernel::is_idle_page(cpu, q) ==> #[trigger] mapping_in(
                        None,
                        controller,
                        q,
                    ) == mapping_in(None, memory, q),
                owed ==> controller.frame_allocator.free_frames().len() >= 12 * (cpu_count - cpu),
                owed ==> forall|other: usize|
                    cpu <= other < cpu_count ==> #[trigger] TCB::idle_stack_unmapped(other, controller),
            decreases cpu_count - cpu,
        {
            let ghost before = controller;
            proof {
                if owed {
                    assert(TCB::idle_stack_unmapped(cpu, controller));
                    assert(TCB::idle_owed(cpu, controller));
                }
                TCB::lemma_idle_stack_pages(cpu);
                Stack::lemma_empty_at(
                    KERNEL_STACK_MAX_SIZE,
                    kernel_stack_start_spec(cpu as ThreadID),
                    AccessType::KernelOnly,
                );
            }
            match TCB::idle_tcb(cpu, &mut controller) {
                Ok(thread) => {
                    idle_threads.push(thread);
                    proof {
                        controller.frame_allocator.lemma_disjoint();
                        assert forall|other: usize, q: Page|
                            other < cpu + 1 && #[trigger] TCB::is_idle_stack_page(other, q)
                                implies #[trigger] newly_mapped(
                            None,
                            memory,
                            None,
                            controller,
                            crate::multitasking::stack::kernel_page_flags(),
                            q,
                        ) by {
                            TCB::lemma_idle_stack_pages(other);
                            if other == cpu {
                                assert(thread.kernel_stack.page_flags()
                                    == crate::multitasking::stack::kernel_page_flags());
                                assert(newly_mapped(
                                    None,
                                    before,
                                    None,
                                    controller,
                                    thread.kernel_stack.page_flags(),
                                    q,
                                ));
                                assert(!Kernel::is_idle_page(cpu, q)) by {
                                    if Kernel::is_idle_page(cpu, q) {
                                        let c = choose|c: usize|
                                            c < cpu && #[trigger] TCB::is_idle_stack_page(c, q);
                                        TCB::lemma_idle_stack_pages(c);
                                    }
                                }
                                assert(mapping_in(None, before, q) == mapping_in(None, memory, q));
                            } else {
                                assert(!TCB::is_idle_stack_page(cpu, q));
                                assert(q.is_canonical());
                                assert(newly_mapped(
                                    None,
                                    memory,
                                    None,
                                    before,
                                    crate::multitasking::stack::kernel_page_flags(),
                                    q,
                                ));
                                assert(crate::memory::paging::page_of(
                                    (q.number * crate::memory::PAGE_SIZE) as u64,
                                ) == q);
                                assert(mapping_in(None, controller, q) == mapping_in(None, before, q));
                            }
                        }
                        assert forall|q: Page|
                            q.is_canonical() && !Kernel::is_idle_page(
                                (cpu + 1) as usize,
                                q,
                            ) implies #[trigger] mapping_in(None, controller, q) == mapping_in(
                            None,
                            memory,
                            q,
                        ) by {
                            assert(!TCB::is_idle_stack_page(cpu, q));
                            assert(!Kernel::is_idle_page(cpu, q)) by {
                                if Kernel::is_idle_page(cpu, q) {
                                    let c = choose|c: usize|
                                        c < cpu && #[trigger] TCB::is_idle_stack_page(c, q);
                                    assert(TCB::is_idle_stack_page(c, q));
                                }
                            }
                            assert(mapping_in(None, controller, q) == mapping_in(None, before, q));
                        }
                        if owed {
                            assert forall|other: usize|
                                cpu + 1 <= other < cpu_count implies #[trigger] TCB::idle_stack_unmapped(
                                other,
                                controller,
                            ) by {
                                assert(TCB::idle_stack_unmapped(other, before));
                                TCB::lemma_idle_stack_pages(other);
                                assert forall|q: Page|
                                    TCB::is_idle_stack_page(other, q) implies (#[trigger] mapping_in(
                                    None,
                                    controller,
                                    q,
                                )) is None by {
                                    assert(!TCB::is_idle_stack_page(cpu, q));
                                    assert(q.is_canonical());
                                    assert(mapping_in(None, controller, q) == mapping_in(
                                        None,
                                        before,
                                        q,
                                    ));
                                }
                            }
                        }
                    }
                },
                Err(error) => {
                    return Err(error);
                },
            }
            cpu += 1;
        }
        let ghost idle = idle_threads@;
        let scheduler = Scheduler::new(idle_threads);
        let kernel = Kernel {
            memory: controller,
            processes: ProcessList::new(),
            scheduler,
            clock: Timestamp::from_microseconds(0),
            fault_policy,
        };
        proof {
            assert forall|cpu: int| 0 <= cpu < cpu_count implies {
                let thread = #[trigger] kernel.scheduler.current(cpu);
                &&& thread.pid == 0
                &&& thread.id == cpu
                &&& thread.priority == i32::MIN
                &&& thread.state == ThreadState::Running
                &&& thread.context == Context::idle_spec(thread.kernel_stack.base() as u64)
                &&& thread.kernel_stack.pages() == TCB::idle_stack_pages(cpu as usize)
                &&& thread.user_stack.bottom() == thread.user_stack.top()
                &&& kernel.scheduler.idle(cpu) is None
            } by {
                assert(idle[cpu].pid == 0);
            }
        }
        Ok(kernel)
    }

    /// A kernel for as many CPUs as the processor has reported; see
    /// [`Kernel::new`]. This fails with `NoCpuInformation` exactly when no
    /// number was reported, with `TooManyCpus` exactly when the number is
    /// above the largest thread ID, and otherwise as `new` does; it succeeds
    /// whenever a number within bounds was reported and [`Kernel::new_owed`]
    /// holds of it.
    pub fn with_cpus(memory: MemoryController, cpus: Option<usize>, fault_policy: FaultPolicy) -> (r:
        Result<Kernel, BootError>)
        requires
            memory.wf(),
        ensures
            r == Err::<Kernel, BootError>(BootError::NoCpuInformation) <==> cpus is None,
            r == Err::<Kernel, BootError>(BootError::TooManyCpus) <==> cpus is Some && cpus.unwrap()
                > ThreadID::MAX,
            cpus is Some && cpus.unwrap() <= ThreadID::MAX && Kernel::new_owed(memory, cpus.unwrap())
                ==> r is Ok,
            r != Err::<Kernel, BootError>(BootError::Stack(StackError::SegmentOverlap)),
            r is Ok ==> (r->Ok_0).fresh(memory, cpus.unwrap(), fault_policy),
    {
        let cpu_count = match cpus {
            Some(count) => count,
            None => {
                return Err(BootError::NoCpuInformation);
            },
        };
        if cpu_count > ThreadID::MAX as usize {
            return Err(BootError::TooManyCpus);
        }
        match Kernel::new(memory, cpu_count, fault_policy) {
            Ok(kernel) => Ok(kernel),
            Err(error) => Err(BootError::Stack(error)),
        }
    }

    /// A kernel for the CPUs of this machine, as many as the processor
    /// reports; see [`Kernel::with_cpus`]. The number is at most 255.
    pub fn for_this_machine(memory: MemoryController, fault_policy: FaultPolicy) -> (r: Result<
        Kernel,
        BootError,
    >)
        requires
            memory.wf(),
        ensures
            r != Err::<Kernel, BootError>(BootError::TooManyCpus),
            r is Ok ==> exists|cpu_count: usize|
                cpu_count <= u8::MAX && #[trigger] (r->Ok_0).fresh(memory, cpu_count, fault_policy),
    {
        Kernel::with_cpus(memory, crate::arch::get_cpu_num(), fault_policy)
    }
}

} // verus!
