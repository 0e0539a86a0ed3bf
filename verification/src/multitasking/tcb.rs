//! Thread control blocks.

use vstd::prelude::*;
use crate::arch::context::Context;
use crate::arch::{
    kernel_stack_start, kernel_stack_start_spec, user_stack_start, user_stack_start_spec,
    KERNEL_STACK_MAX_SIZE, USER_STACK_MAX_SIZE,
};
use crate::memory::address_space::{
    admits, frame_released, page_released, touched, without_segment, AddressSpace, Segment,
};
use crate::memory::paging::Page;
use crate::memory::{FrameAllocator, MemoryController, VirtualAddress};
use crate::multitasking::pcb::{ProcessList, PCB};
use crate::multitasking::stack::{
    frame_freed, mapping_in, newly_mapped, page_covered, released, segments_of, AccessType, Stack,
    StackError,
};
use crate::multitasking::{ProcessID, ThreadID};
use crate::sync::time::Timestamp;

verus! {

/// The size to which the kernel stack of a new thread is grown.
pub const KERNEL_STACK_INITIAL_SIZE: usize = 0x4000;

/// The size to which the user stack of a new thread is grown.
pub const USER_STACK_INITIAL_SIZE: usize = 0x2000;

/// The size to which the kernel stack of an idle thread is grown.
pub const IDLE_STACK_INITIAL_SIZE: usize = 0x3000;

/// The priority that a new thread starts with.
pub const DEFAULT_PRIORITY: i32 = 1;

/// Represents the possible states a thread can have.
#[derive(Debug, PartialEq, Eq, Structural, Clone, Copy)]
pub enum ThreadState {
    /// The thread is currently running.
    Running,
    /// The thread is ready to run.
    Ready,
    /// The thread is sleeping until the given time.
    Sleeping(Timestamp),
    /// The thread is dead.
    Dead,
}

/// A structure representing a thread control block (TCB).
#[derive(Debug)]
pub struct TCB {
    /// The thread ID within the process.
    pub id: ThreadID,
    /// The ID of the process that the thread belongs to.
    pub pid: ProcessID,
    /// The stack used during kernel operations.
    pub kernel_stack: Stack,
    /// The usermode stack.
    pub user_stack: Stack,
    /// The state of the thread.
    pub state: ThreadState,
    /// The priority of the thread.
    pub priority: i32,
    /// The architecture specific context of this thread.
    pub context: Context,
}

/// The segment of the kernel stack of the thread.
pub open spec fn kernel_segment(id: ThreadID) -> Segment {
    Stack::segment_of(KERNEL_STACK_MAX_SIZE, kernel_stack_start_spec(id), AccessType::KernelOnly)
}

/// The segment of the user stack of the thread.
pub open spec fn user_segment(id: ThreadID) -> Segment {
    Stack::segment_of(USER_STACK_MAX_SIZE, user_stack_start_spec(id), AccessType::UserAccessible)
}

impl TCB {
    /// Both stacks lie within their regions.
    pub open spec fn wf(&self) -> bool {
        self.kernel_stack.wf() && self.user_stack.wf()
    }

    /// Whether the thread can stand in a list of the scheduler: its stacks lie
    /// within their regions, and it is no idle thread.
    pub open spec fn queueable(&self) -> bool {
        self.wf() && self.pid != 0
    }

    /// Whether `page` is a page of one of the two stacks.
    pub open spec fn has_page(&self, page: Page) -> bool {
        ||| self.kernel_stack.pages().0 <= page.number < self.kernel_stack.pages().1
        ||| self.user_stack.pages().0 <= page.number < self.user_stack.pages().1
    }

    /// What the thread is when it has just been created in the process: ready,
    /// of the default priority, with both stacks grown to their initial sizes
    /// in the regions that belong to its ID, and with a context that starts
    /// at `pc` on those stacks, in the address space of the process.
    pub open spec fn fresh(
        &self,
        pid: ProcessID,
        id: ThreadID,
        pc: VirtualAddress,
        arg1: u64,
        arg2: u64,
        arg3: u64,
        arg4: u64,
        arg5: u64,
    ) -> bool {
        self.fresh_with_priority(DEFAULT_PRIORITY, pid, id, pc, arg1, arg2, arg3, arg4, arg5)
    }

    /// What a thread of the given priority is when it has just been created
    /// in the process: as [`TCB::fresh`] says, but for the priority.
    pub open spec fn fresh_with_priority(
        &self,
        priority: i32,
        pid: ProcessID,
        id: ThreadID,
        pc: VirtualAddress,
        arg1: u64,
        arg2: u64,
        arg3: u64,
        arg4: u64,
        arg5: u64,
    ) -> bool {
        let kernel = Stack::empty_at(
            KERNEL_STACK_MAX_SIZE,
            kernel_stack_start_spec(id),
            AccessType::KernelOnly,
        );
        let user = Stack::empty_at(
            USER_STACK_MAX_SIZE,
            user_stack_start_spec(id),
            AccessType::UserAccessible,
        );
        &&& self.id == id
        &&& self.pid == pid
        &&& self.state == ThreadState::Ready
        &&& self.priority == priority
        &&& self.wf()
        &&& self.kernel_stack.same_region(kernel)
        &&& self.kernel_stack.bottom() == kernel.grow_target(KERNEL_STACK_INITIAL_SIZE)
        &&& self.user_stack.same_region(user)
        &&& self.user_stack.bottom() == user.grow_target(USER_STACK_INITIAL_SIZE)
        &&& self.context == Context::new_spec(
            pc,
            self.user_stack.base() as u64,
            self.kernel_stack.base() as u64,
            pid,
            arg1,
            arg2,
            arg3,
            arg4,
            arg5,
        )
    }

    /// A condition under which creating the thread `id` in the address space
    /// is sure to succeed: neither stack region overlaps a segment, no page of
    /// the initial size of either stack is mapped, and twenty-four frames are
    /// free, four for each of the six pages.
    pub open spec fn creation_owed(
        id: ThreadID,
        space: AddressSpace,
        memory: MemoryController,
    ) -> bool {
        let kernel = Stack::empty_at(
            KERNEL_STACK_MAX_SIZE,
            kernel_stack_start_spec(id),
            AccessType::KernelOnly,
        );
        let user = Stack::empty_at(
            USER_STACK_MAX_SIZE,
            user_stack_start_spec(id),
            AccessType::UserAccessible,
        );
        &&& admits(space.segments(), kernel_segment(id))
        &&& admits(space.segments(), user_segment(id))
        &&& forall|q: Page|
            kernel.grow_target(KERNEL_STACK_INITIAL_SIZE) / crate::memory::PAGE_SIZE as int
                <= q.number < kernel.pages().0 ==> (#[trigger] mapping_in(
                Some(space),
                memory,
                q,
            )) is None
        &&& forall|q: Page|
            user.grow_target(USER_STACK_INITIAL_SIZE) / crate::memory::PAGE_SIZE as int
                <= q.number < user.pages().0 ==> (#[trigger] mapping_in(Some(space), memory, q))
                is None
        &&& memory.frame_allocator.free_frames().len() >= 24
    }

    /// What creating a thread does to the process and to memory.
    ///
    /// On success the two stack segments are registered, the pages of both
    /// stacks are mapped, and no other page has changed; frames were handed
    /// out and none given back. On failure the process has its segments and
    /// every page as before. The creation fails with `SegmentOverlap` exactly
    /// when the region of one of the stacks overlaps a segment of the
    /// process, and then nothing at all has changed. The kernel's active
    /// table and its area for stacks are untouched in every case.
    pub open spec fn creation_post(
        r: Result<TCB, StackError>,
        pid: ProcessID,
        id: ThreadID,
        pc: VirtualAddress,
        pcb0: PCB,
        pcb1: PCB,
        memory0: MemoryController,
        memory1: MemoryController,
        arg1: u64,
        arg2: u64,
        arg3: u64,
        arg4: u64,
        arg5: u64,
    ) -> bool {
        let space0 = Some(pcb0.space());
        let space1 = Some(pcb1.space());
        let segments = pcb0.space().segments();
        &&& pcb1.wf()
        &&& memory1.wf()
        &&& pcb1.threads() == pcb0.threads()
        &&& pcb1.is_marked_dead() == pcb0.is_marked_dead()
        &&& r == Err::<TCB, StackError>(StackError::SegmentOverlap) <==> !admits(
            segments,
            kernel_segment(id),
        ) || !admits(segments, user_segment(id))
        &&& r == Err::<TCB, StackError>(StackError::SegmentOverlap) ==> pcb1 == pcb0 && memory1
            == memory0
        &&& memory1.active_table == memory0.active_table
        &&& memory1.same_stack_area(memory0)
        &&& TCB::creation_owed(id, pcb0.space(), memory0) ==> r is Ok
        &&& r is Ok ==> {
            let tcb = r->Ok_0;
            &&& memory1.only_taken(memory0)
            &&& tcb.fresh(pid, id, pc, arg1, arg2, arg3, arg4, arg5)
            &&& pcb1.space().segments() == segments.push(kernel_segment(id)).push(user_segment(id))
            &&& forall|q: Page|
                tcb.kernel_stack.pages().0 <= q.number < tcb.kernel_stack.pages().1
                    ==> #[trigger] page_covered(space1, memory1, tcb.kernel_stack.page_flags(), q)
            &&& forall|q: Page|
                tcb.user_stack.pages().0 <= q.number < tcb.user_stack.pages().1
                    ==> #[trigger] page_covered(space1, memory1, tcb.user_stack.page_flags(), q)
            &&& forall|q: Page|
                q.is_canonical() && !tcb.has_page(q) ==> #[trigger] mapping_in(space1, memory1, q)
                    == mapping_in(space0, memory0, q)
        }
        &&& r is Err ==> {
            &&& pcb1.space().segments() == segments
            &&& forall|q: Page|
                q.is_canonical() ==> #[trigger] mapping_in(space1, memory1, q) == mapping_in(
                    space0,
                    memory0,
                    q,
                )
        }
    }

    /// Creates a new thread in the given process at the given start address.
    /// See [`TCB::creation_post`].
    pub fn in_process(
        pid: ProcessID,
        id: ThreadID,
        pc: VirtualAddress,
        pcb: &mut PCB,
        memory: &mut MemoryController,
    ) -> (r: Result<TCB, StackError>)
        requires
            old(pcb).wf(),
            old(memory).wf(),
        ensures
            TCB::creation_post(
                r,
                pid,
                id,
                pc,
                *old(pcb),
                *final(pcb),
                *old(memory),
                *final(memory),
                0,
                0,
                0,
                0,
                0,
            ),
    {
        TCB::in_process_with_arguments(pid, id, pc, pcb, memory, 0, 0, 0, 0, 0)
    }

    /// Creates a new thread in the given process at the given start address
    /// with the given arguments. See [`TCB::creation_post`].
    pub fn in_process_with_arguments(
        pid: ProcessID,
        id: ThreadID,
        pc: VirtualAddress,
        pcb: &mut PCB,
        memory: &mut MemoryController,
        arg1: u64,
        arg2: u64,
        arg3: u64,
        arg4: u64,
        arg5: u64,
    ) -> (r: Result<TCB, StackError>)
        requires
            old(pcb).wf(),
            old(memory).wf(),
        ensures
            TCB::creation_post(
                r,
                pid,
                id,
                pc,
                *old(pcb),
                *final(pcb),
                *old(memory),
                *final(memory),
                arg1,
                arg2,
                arg3,
                arg4,
                arg5,
            ),
    {
        let ghost space0 = Some(pcb.space());
        let ghost memory0 = *memory;
        let ghost segments = pcb.space().segments();
        let kernel_start = kernel_stack_start(id);
        let user_start = user_stack_start(id);
        proof {
            Stack::lemma_empty_at(KERNEL_STACK_MAX_SIZE, kernel_start, AccessType::KernelOnly);
            Stack::lemma_empty_at(USER_STACK_MAX_SIZE, user_start, AccessType::UserAccessible);
            // The two regions lie in different halves of the address space.
            assert(!kernel_segment(id).overlaps(user_segment(id)));
            assert(admits(segments.push(kernel_segment(id)), user_segment(id)) == admits(
                segments,
                user_segment(id),
            )) by {
                let pushed = segments.push(kernel_segment(id));
                if admits(segments, user_segment(id)) {
                    assert forall|i: int| 0 <= i < pushed.len() implies !(#[trigger] pushed[i]).overlaps(
                        user_segment(id),
                    ) by {
                        if i < segments.len() {
                            assert(pushed[i] == segments[i]);
                        }
                    }
                }
                if admits(pushed, user_segment(id)) {
                    assert forall|i: int| 0 <= i < segments.len() implies !(#[trigger] segments[i]).overlaps(
                        user_segment(id),
                    ) by {
                        assert(pushed[i] == segments[i]);
                    }
                }
            }
        }
        if !Stack::fits(
            KERNEL_STACK_MAX_SIZE,
            kernel_start,
            AccessType::KernelOnly,
            pcb.address_space(),
        ) || !Stack::fits(
            USER_STACK_MAX_SIZE,
            user_start,
            AccessType::UserAccessible,
            pcb.address_space(),
        ) {
            return Err(StackError::SegmentOverlap);
        }
        let ghost owed = TCB::creation_owed(id, pcb.space(), *memory);
        let ghost kernel_empty = Stack::empty_at(
            KERNEL_STACK_MAX_SIZE,
            kernel_start,
            AccessType::KernelOnly,
        );
        let ghost user_empty = Stack::empty_at(
            USER_STACK_MAX_SIZE,
            user_start,
            AccessType::UserAccessible,
        );
        proof {
            if owed {
                assert(Stack::new_owed(
                    KERNEL_STACK_INITIAL_SIZE,
                    KERNEL_STACK_MAX_SIZE,
                    kernel_start,
                    AccessType::KernelOnly,
                    space0,
                    memory0,
                ));
            }
        }
        let mut kernel_stack = match Stack::new(
            KERNEL_STACK_INITIAL_SIZE,
            KERNEL_STACK_MAX_SIZE,
            kernel_start,
            AccessType::KernelOnly,
            Some(pcb.address_space_mut()),
            memory,
        ) {
            Ok(stack) => stack,
            Err(error) => {
                return Err(error);
            },
        };
        let ghost space_k = Some(pcb.space());
        let ghost memory_k = *memory;
        let ghost kernel_new = kernel_stack;
        proof {
            assert(pcb.wf());
            assert(segments_of(space_k) == segments.push(kernel_segment(id)));
            assert(kernel_new.same_region(
                Stack::empty_at(KERNEL_STACK_MAX_SIZE, kernel_start, AccessType::KernelOnly),
            ));
            assert forall|q: Page|
                kernel_new.pages().0 <= q.number < kernel_new.pages().1 implies #[trigger] page_covered(
                space_k,
                memory_k,
                kernel_new.page_flags(),
                q,
            ) by {
                assert(newly_mapped(space0, memory0, space_k, memory_k, kernel_new.page_flags(), q));
            }
            assert forall|q: Page|
                q.is_canonical() && !(kernel_new.pages().0 <= q.number < kernel_new.pages().1)
                    implies #[trigger] mapping_in(space_k, memory_k, q) == mapping_in(
                space0,
                memory0,
                q,
            ) by {}
        }
        proof {
            if owed {
                memory0.frame_allocator.lemma_disjoint();
                assert(kernel_new.pages().1 - kernel_new.pages().0 == 4);
                assert forall|q: Page|
                    user_empty.grow_target(USER_STACK_INITIAL_SIZE) / crate::memory::PAGE_SIZE as int
                        <= q.number < user_empty.pages().0 implies (#[trigger] mapping_in(
                    space_k,
                    memory_k,
                    q,
                )) is None && user_start <= q.number * crate::memory::PAGE_SIZE
                    && crate::memory::paging::is_canonical(
                    (q.number * crate::memory::PAGE_SIZE) as u64,
                ) by {
                    assert(q.is_canonical());
                    assert(mapping_in(space0, memory0, q) is None);
                    assert(mapping_in(space_k, memory_k, q) == mapping_in(space0, memory0, q));
                }
                assert(Stack::new_owed(
                    USER_STACK_INITIAL_SIZE,
                    USER_STACK_MAX_SIZE,
                    user_start,
                    AccessType::UserAccessible,
                    space_k,
                    memory_k,
                ));
            }
        }
        let user_stack = match Stack::new(
            USER_STACK_INITIAL_SIZE,
            USER_STACK_MAX_SIZE,
            user_start,
            AccessType::UserAccessible,
            Some(pcb.address_space_mut()),
            memory,
        ) {
            Ok(stack) => stack,
            Err(error) => {
                let ghost space_u = Some(pcb.space());
                let ghost memory_u = *memory;
                let ghost kernel_before = kernel_stack;
                kernel_stack.release(Some(pcb.address_space_mut()), memory);
                proof {
                    let space_r = Some(pcb.space());
                    let pushed = segments.push(kernel_segment(id));
                    assert(space_u.unwrap().segments() == pushed);
                    kernel_before.lemma_region();
                    assert(kernel_before.region_start() == kernel_start);
                    assert(kernel_before.region_size() == KERNEL_STACK_MAX_SIZE);
                    assert(kernel_before.release_post(
                        kernel_stack,
                        space_u,
                        space_r,
                        memory_u,
                        *memory,
                    ));
                    crate::memory::address_space::lemma_without_pushed(segments, kernel_segment(id));
                    assert forall|q: Page| q.is_canonical() implies #[trigger] mapping_in(
                        space_r,
                        *memory,
                        q,
                    ) == mapping_in(space0, memory0, q) by {
                        assert(mapping_in(space_u, memory_u, q) == mapping_in(space_k, memory_k, q));
                        if kernel_before.pages().0 <= q.number < kernel_before.pages().1 {
                            assert(newly_mapped(
                                space0,
                                memory0,
                                space_k,
                                memory_k,
                                kernel_before.page_flags(),
                                q,
                            ));
                            assert(crate::memory::paging::page_of(
                                (q.number * crate::memory::PAGE_SIZE) as u64,
                            ) == q);
                            assert(released(space_u, memory_u, space_r, *memory, q));
                        } else {
                            assert(mapping_in(space_r, *memory, q) == mapping_in(
                                space_u,
                                memory_u,
                                q,
                            ));
                            assert(mapping_in(space_k, memory_k, q) == mapping_in(
                                space0,
                                memory0,
                                q,
                            ));
                        }
                    }
                }
                return Err(error);
            },
        };
        let stack_pointer = user_stack.base_stack_pointer();
        let kernel_stack_pointer = kernel_stack.base_stack_pointer();
        let tcb = TCB {
            id,
            pid,
            kernel_stack,
            user_stack,
            state: ThreadState::Ready,
            priority: DEFAULT_PRIORITY,
            context: Context::new(
                pc,
                stack_pointer,
                kernel_stack_pointer,
                pid,
                arg1,
                arg2,
                arg3,
                arg4,
                arg5,
            ),
        };
        proof {
            let space1 = Some(pcb.space());
            assert(tcb.kernel_stack.top() == kernel_start + KERNEL_STACK_MAX_SIZE);
            assert(tcb.kernel_stack.bottom() >= kernel_start);
            assert(tcb.user_stack.top() == user_start + USER_STACK_MAX_SIZE);
            assert(tcb.user_stack.bottom() >= user_start);
            assert forall|q: Page|
                tcb.kernel_stack.pages().0 <= q.number < tcb.kernel_stack.pages().1
                    implies q.is_canonical() && !(tcb.user_stack.pages().0 <= q.number
                < tcb.user_stack.pages().1) by {}
            assert forall|q: Page|
                tcb.kernel_stack.pages().0 <= q.number < tcb.kernel_stack.pages().1
                    implies #[trigger] page_covered(
                space1,
                *memory,
                tcb.kernel_stack.page_flags(),
                q,
            ) by {
                assert(newly_mapped(
                    space0,
                    memory0,
                    space_k,
                    memory_k,
                    tcb.kernel_stack.page_flags(),
                    q,
                ));
                assert(crate::memory::paging::page_of((q.number * crate::memory::PAGE_SIZE) as u64)
                    == q);
                // Covered by the kernel stack, so not among the user stack's pages,
                // which were unmapped before the user stack was created.
                assert(mapping_in(space_k, memory_k, q) is Some);
                if tcb.user_stack.pages().0 <= q.number < tcb.user_stack.pages().1 {
                    assert(newly_mapped(
                        space_k,
                        memory_k,
                        space1,
                        *memory,
                        tcb.user_stack.page_flags(),
                        q,
                    ));
                }
                assert(mapping_in(space1, *memory, q) == mapping_in(space_k, memory_k, q));
                let address = (q.number * crate::memory::PAGE_SIZE) as u64;
                let before = space_k.unwrap();
                let after = space1.unwrap();
                let i = choose|i: int|
                    0 <= i < before.segments().len() && (#[trigger] before.segments()[i]).contains_address(
                        address,
                    ) && before.mapping(q).unwrap().flags == before.segments()[i].flags.entry_bits()
                        | crate::memory::paging::entry::PRESENT;
                assert(after.segments()[i] == before.segments()[i]);
            }
            assert forall|q: Page|
                tcb.user_stack.pages().0 <= q.number < tcb.user_stack.pages().1
                    implies #[trigger] page_covered(
                space1,
                *memory,
                tcb.user_stack.page_flags(),
                q,
            ) by {
                assert(newly_mapped(
                    space_k,
                    memory_k,
                    space1,
                    *memory,
                    tcb.user_stack.page_flags(),
                    q,
                ));
            }
            assert forall|q: Page|
                q.is_canonical() && !tcb.has_page(q) implies #[trigger] mapping_in(
                space1,
                *memory,
                q,
            ) == mapping_in(space0, memory0, q) by {
                assert(mapping_in(space_k, memory_k, q) == mapping_in(space0, memory0, q));
            }
        }
        Ok(tcb)
    }

    /// The pages of the kernel stack of the idle thread of a CPU: the number of
    /// the first page, and the number of the first page above the stack.
    pub open spec fn idle_stack_pages(cpu_id: usize) -> (int, int) {
        let kernel = Stack::empty_at(
            KERNEL_STACK_MAX_SIZE,
            kernel_stack_start_spec(cpu_id as ThreadID),
            AccessType::KernelOnly,
        );
        (
            kernel.grow_target(IDLE_STACK_INITIAL_SIZE) / crate::memory::PAGE_SIZE as int,
            kernel.pages().0,
        )
    }

    /// Whether the page is a page of the kernel stack of the idle thread of the
    /// CPU.
    pub open spec fn is_idle_stack_page(cpu_id: usize, page: Page) -> bool {
        TCB::idle_stack_pages(cpu_id).0 <= page.number < TCB::idle_stack_pages(cpu_id).1
    }

    /// The kernel stack of the idle thread of a CPU is the three pages below
    /// the top of the CPU's kernel stack region. Their addresses are
    /// canonical, and the idle threads of two CPUs share no page.
    pub proof fn lemma_idle_stack_pages(cpu_id: usize)
        requires
            cpu_id <= ThreadID::MAX,
        ensures
            TCB::idle_stack_pages(cpu_id).1 * crate::memory::PAGE_SIZE == kernel_stack_start_spec(
                cpu_id as ThreadID,
            ) + KERNEL_STACK_MAX_SIZE,
            TCB::idle_stack_pages(cpu_id).0 == TCB::idle_stack_pages(cpu_id).1 - 3,
            forall|q: Page| #[trigger] TCB::is_idle_stack_page(cpu_id, q) ==> q.is_canonical(),
            forall|other: usize, q: Page|
                other <= ThreadID::MAX && other != cpu_id && #[trigger] TCB::is_idle_stack_page(
                    cpu_id,
                    q,
                ) ==> !#[trigger] TCB::is_idle_stack_page(other, q),
    {
        Stack::lemma_empty_at(
            KERNEL_STACK_MAX_SIZE,
            kernel_stack_start_spec(cpu_id as ThreadID),
            AccessType::KernelOnly,
        );
        assert forall|other: usize, q: Page|
            other <= ThreadID::MAX && other != cpu_id && #[trigger] TCB::is_idle_stack_page(
                cpu_id,
                q,
            ) implies !#[trigger] TCB::is_idle_stack_page(other, q) by {
            Stack::lemma_empty_at(
                KERNEL_STACK_MAX_SIZE,
                kernel_stack_start_spec(other as ThreadID),
                AccessType::KernelOnly,
            );
        }
    }

    /// Whether no page of the kernel stack of the idle thread of the CPU is
    /// mapped in the active table.
    pub open spec fn idle_stack_unmapped(cpu_id: usize, memory: MemoryController) -> bool {
        forall|q: Page|
            TCB::is_idle_stack_page(cpu_id, q) ==> (#[trigger] mapping_in(None, memory, q)) is None
    }

    /// A condition under which creating the idle thread of the CPU is sure to
    /// succeed: no page of its kernel stack is mapped, and twelve frames are
    /// free, four for each of the three pages.
    pub open spec fn idle_owed(cpu_id: usize, memory: MemoryController) -> bool {
        TCB::idle_stack_unmapped(cpu_id, memory) && memory.frame_allocator.free_frames().len()
            >= 12
    }

    /// What creating the idle thread of a CPU does: the thread belongs to the
    /// idle process, has the CPU's number as its ID and the lowest priority
    /// there is, and owns a kernel stack of three pages in the kernel's active
    /// table, which takes twelve frames at most. On failure every page is
    /// mapped as before. The creation succeeds whenever [`TCB::idle_owed`]
    /// holds.
    pub open spec fn idle_post(
        r: Result<TCB, StackError>,
        cpu_id: usize,
        memory0: MemoryController,
        memory1: MemoryController,
    ) -> bool {
        let tcb = r->Ok_0;
        let kernel = Stack::empty_at(
            KERNEL_STACK_MAX_SIZE,
            kernel_stack_start_spec(cpu_id as ThreadID),
            AccessType::KernelOnly,
        );
        &&& memory1.wf()
        &&& memory1.same_stack_area(memory0)
        &&& r != Err::<TCB, StackError>(StackError::SegmentOverlap)
        &&& TCB::idle_owed(cpu_id, memory0) ==> r is Ok
        &&& r is Ok ==> {
            &&& memory1.frame_allocator.free_frames().len() + 12
                >= memory0.frame_allocator.free_frames().len()
            &&& tcb.kernel_stack.pages() == TCB::idle_stack_pages(cpu_id)
            &&& tcb.id == cpu_id
            &&& tcb.pid == 0
            &&& tcb.state == ThreadState::Ready
            &&& tcb.priority == i32::MIN
            &&& tcb.wf()
            &&& tcb.kernel_stack.same_region(kernel)
            &&& tcb.kernel_stack.bottom() == kernel.grow_target(IDLE_STACK_INITIAL_SIZE)
            &&& tcb.user_stack.bottom() == tcb.user_stack.top()
            &&& tcb.context == Context::idle_spec(tcb.kernel_stack.base() as u64)
            &&& forall|q: Page|
                tcb.kernel_stack.pages().0 <= q.number < tcb.kernel_stack.pages().1
                    ==> #[trigger] newly_mapped(
                    None,
                    memory0,
                    None,
                    memory1,
                    tcb.kernel_stack.page_flags(),
                    q,
                )
            &&& forall|q: Page|
                q.is_canonical() && !(tcb.kernel_stack.pages().0 <= q.number
                    < tcb.kernel_stack.pages().1) ==> #[trigger] mapping_in(None, memory1, q)
                    == mapping_in(None, memory0, q)
        }
        &&& r is Err ==> forall|q: Page|
            q.is_canonical() ==> #[trigger] mapping_in(None, memory1, q) == mapping_in(
                None,
                memory0,
                q,
            )
    }

    /// Creates a new TCB for the idle thread of the CPU. See
    /// [`TCB::idle_post`].
    pub fn idle_tcb(cpu_id: usize, memory: &mut MemoryController) -> (r: Result<TCB, StackError>)
        requires
            cpu_id <= ThreadID::MAX,
            old(memory).wf(),
        ensures
            TCB::idle_post(r, cpu_id, *old(memory), *final(memory)),
    {
        let id = cpu_id as ThreadID;
        let ghost memory0 = *memory;
        let kernel_start = kernel_stack_start(id);
        proof {
            Stack::lemma_empty_at(KERNEL_STACK_MAX_SIZE, kernel_start, AccessType::KernelOnly);
            Stack::lemma_empty_at(0, 0, AccessType::KernelOnly);
            memory.frame_allocator.lemma_disjoint();
            if TCB::idle_owed(cpu_id, memory0) {
                assert forall|q: Page| TCB::is_idle_stack_page(cpu_id, q) implies (
                #[trigger] mapping_in(None, memory0, q)) is None && kernel_start <= q.number
                    * crate::memory::PAGE_SIZE && crate::memory::paging::is_canonical(
                    (q.number * crate::memory::PAGE_SIZE) as u64,
                ) by {}
                assert(Stack::new_owed(
                    IDLE_STACK_INITIAL_SIZE,
                    KERNEL_STACK_MAX_SIZE,
                    kernel_start,
                    AccessType::KernelOnly,
                    None,
                    memory0,
                ));
            }
        }
        let mut kernel_stack = match Stack::new(
            IDLE_STACK_INITIAL_SIZE,
            KERNEL_STACK_MAX_SIZE,
            kernel_start,
            AccessType::KernelOnly,
            None,
            memory,
        ) {
            Ok(stack) => stack,
            Err(error) => {
                return Err(error);
            },
        };
        let ghost memory_k = *memory;
        let ghost kernel_new = kernel_stack;
        proof {
            memory.frame_allocator.lemma_disjoint();
            assert(kernel_new.pages() == TCB::idle_stack_pages(cpu_id));
            assert(kernel_new.pages().1 - kernel_new.pages().0 == 3);
            assert(Stack::new_owed(0, 0, 0, AccessType::KernelOnly, None, memory_k));
        }
        let user_stack = match Stack::new(0, 0, 0, AccessType::KernelOnly, None, memory) {
            Ok(stack) => stack,
            Err(error) => {
                let ghost memory_u = *memory;
                kernel_stack.release(None, memory);
                proof {
                    assert forall|q: Page| q.is_canonical() implies #[trigger] mapping_in(
                        None,
                        *memory,
                        q,
                    ) == mapping_in(None, memory0, q) by {
                        assert(mapping_in(None, memory_u, q) == mapping_in(None, memory_k, q));
                        if kernel_new.pages().0 <= q.number < kernel_new.pages().1 {
                            assert(newly_mapped(
                                None,
                                memory0,
                                None,
                                memory_k,
                                kernel_new.page_flags(),
                                q,
                            ));
                            assert(crate::memory::paging::page_of(
                                (q.number * crate::memory::PAGE_SIZE) as u64,
                            ) == q);
                            assert(released(None, memory_u, None, *memory, q));
                        } else {
                            assert(mapping_in(None, *memory, q) == mapping_in(None, memory_u, q));
                            assert(mapping_in(None, memory_k, q) == mapping_in(None, memory0, q));
                        }
                    }
                }
                return Err(error);
            },
        };
        let stack_pointer = kernel_stack.base_stack_pointer();
        let tcb = TCB {
            id,
            pid: 0,
            kernel_stack,
            user_stack,
            state: ThreadState::Ready,
            priority: i32::MIN,
            context: Context::idle_context(stack_pointer),
        };
        proof {
            assert(tcb.user_stack.bottom() == tcb.user_stack.top());
            assert(tcb.user_stack.pages().0 == tcb.user_stack.pages().1);
            assert forall|q: Page|
                tcb.kernel_stack.pages().0 <= q.number < tcb.kernel_stack.pages().1
                    implies #[trigger] newly_mapped(
                None,
                memory0,
                None,
                *memory,
                tcb.kernel_stack.page_flags(),
                q,
            ) by {
                assert(newly_mapped(None, memory0, None, memory_k, tcb.kernel_stack.page_flags(), q));
                assert(tcb.kernel_stack.top() == kernel_start + KERNEL_STACK_MAX_SIZE);
                assert(tcb.kernel_stack.bottom() >= kernel_start);
                assert(q.is_canonical());
                assert(mapping_in(None, *memory, q) == mapping_in(None, memory_k, q));
            }
            assert forall|q: Page|
                q.is_canonical() && !(tcb.kernel_stack.pages().0 <= q.number
                    < tcb.kernel_stack.pages().1) implies #[trigger] mapping_in(None, *memory, q)
                == mapping_in(None, memory0, q) by {
                assert(mapping_in(None, memory_k, q) == mapping_in(None, memory0, q));
                assert(mapping_in(None, *memory, q) == mapping_in(None, memory_k, q));
            }
        }
        Ok(tcb)
    }

    /// Whether the thread counts as dead among the given processes: its own
    /// state is dead, or its process is marked dead or is gone.
    pub open spec fn dead_in(&self, processes: Map<ProcessID, PCB>) -> bool {
        ||| self.state == ThreadState::Dead
        ||| !processes.contains_key(self.pid)
        ||| processes[self.pid].is_marked_dead()
    }

    /// Returns true if the thread is dead: if its own state is dead, or if its
    /// process is marked dead or is no longer in the table. Killing a process
    /// so kills all its threads without touching any of them.
    pub fn is_dead(&self, processes: &ProcessList) -> (r: bool)
        ensures
            r == self.dead_in(processes@),
    {
        if self.state == ThreadState::Dead {
            return true;
        }
        match processes.get(self.pid) {
            Some(process) => process.is_dead(),
            None => true,
        }
    }

    /// Returns true if the thread state is running.
    pub fn is_running(&self) -> (r: bool)
        ensures
            r == (self.state == ThreadState::Running),
    {
        self.state == ThreadState::Running
    }

    /// Sets the thread state to ready, unless the thread is dead.
    pub fn set_ready(&mut self, processes: &ProcessList)
        ensures
            final(self).state == if old(self).dead_in(processes@) {
                old(self).state
            } else {
                ThreadState::Ready
            },
            final(self).same_thread(*old(self)),
    {
        if !self.is_dead(processes) {
            self.state = ThreadState::Ready;
        }
    }

    /// Sets the thread state to running. The thread must not be dead.
    pub fn set_running(&mut self, processes: &ProcessList)
        requires
            !old(self).dead_in(processes@),
        ensures
            final(self).state == ThreadState::Running,
            final(self).same_thread(*old(self)),
    {
        self.state = ThreadState::Running;
    }

    /// Whether the two are the same thread with the same stacks, priority and
    /// context, in whatever state.
    pub open spec fn same_thread(&self, other: TCB) -> bool {
        &&& self.id == other.id
        &&& self.pid == other.pid
        &&& self.kernel_stack == other.kernel_stack
        &&& self.user_stack == other.user_stack
        &&& self.priority == other.priority
        &&& self.context == other.context
    }

    /// What is left of the process list and of memory when the thread has
    /// been dropped.
    ///
    /// The thread is off the thread list of its process. If no thread is left
    /// on that list and the process is marked dead, the process is out of the
    /// table. Otherwise it stays in, and in its address space the segments of
    /// the two stacks are gone, the pages of the two stacks are unmapped, and
    /// every other page is mapped as before. No other process has changed.
    ///
    /// The frames of the pages of the two stacks are free again, whether the
    /// process stays or goes; if it goes, so are the frames of the pages of
    /// the segments that it had besides. No frame is handed out or lost, and
    /// the kernel's active table is as it was. If the thread has no process,
    /// nothing changes.
    pub open spec fn destroy_post(
        &self,
        processes0: Map<ProcessID, PCB>,
        processes1: Map<ProcessID, PCB>,
        memory0: MemoryController,
        memory1: MemoryController,
    ) -> bool {
        let before = processes0[self.pid];
        let after = processes1[self.pid];
        let last = forall|other: ThreadID| #[trigger]
            before.threads().contains(other) ==> other == self.id;
        let remaining = without_segment(
            without_segment(
                before.space().segments(),
                self.kernel_stack.region_start(),
                self.kernel_stack.region_size(),
            ),
            self.user_stack.region_start(),
            self.user_stack.region_size(),
        );
        &&& memory1.only_freed(memory0)
        &&& !processes0.contains_key(self.pid) ==> memory1 == memory0
        &&& processes0.contains_key(self.pid) ==> forall|q: Page|
            q.is_canonical() && self.has_page(q) ==> #[trigger] frame_released(
                before.space(),
                memory0.frame_allocator.allocated_frames(),
                memory1.frame_allocator.free_frames(),
                q,
            )
        &&& processes0.contains_key(self.pid) && !processes1.contains_key(self.pid) ==> forall|
            q: Page,
        |
            q.is_canonical() && touched(remaining, q) ==> #[trigger] frame_released(
                before.space(),
                memory0.frame_allocator.allocated_frames(),
                memory1.frame_allocator.free_frames(),
                q,
            )
        &&& forall|pid: ProcessID|
            #![trigger processes1.contains_key(pid)]
            #![trigger processes0.contains_key(pid)]
            pid != self.pid ==> processes1.contains_key(pid) == processes0.contains_key(pid)
                && processes1[pid] == processes0[pid]
        &&& !processes0.contains_key(self.pid) ==> !processes1.contains_key(self.pid)
        &&& processes0.contains_key(self.pid) ==> {
            &&& processes1.contains_key(self.pid) == !(last && before.is_marked_dead())
            &&& processes1.contains_key(self.pid) ==> {
                &&& after.wf()
                &&& after.is_marked_dead() == before.is_marked_dead()
                &&& !after.threads().contains(self.id)
                &&& forall|other: ThreadID|
                    other != self.id ==> after.threads().contains(other)
                        == before.threads().contains(other)
                &&& after.space().segments() == remaining
                &&& forall|q: Page|
                    q.is_canonical() && self.has_page(q) ==> #[trigger] page_released(
                        before.space(),
                        after.space(),
                        q,
                    )
                &&& forall|q: Page|
                    q.is_canonical() && !self.has_page(q) ==> #[trigger] after.space().mapping(q)
                        == before.space().mapping(q)
            }
        }
    }

    /// Dropping the last thread of a process that is marked dead takes the
    /// process out of the table, and it cannot be taken out a second time:
    /// whoever drops a thread of that process afterwards finds no process.
    pub proof fn lemma_last_thread_removes_process(
        &self,
        processes0: Map<ProcessID, PCB>,
        processes1: Map<ProcessID, PCB>,
        memory0: MemoryController,
        memory1: MemoryController,
        later: TCB,
        processes2: Map<ProcessID, PCB>,
        memory2: MemoryController,
    )
        requires
            processes0.contains_key(self.pid),
            processes0[self.pid].threads() == seq![self.id],
            processes0[self.pid].is_marked_dead(),
            self.destroy_post(processes0, processes1, memory0, memory1),
            later.pid == self.pid,
            later.destroy_post(processes1, processes2, memory1, memory2),
        ensures
            !processes1.contains_key(self.pid),
            processes1.dom() == processes0.dom().remove(self.pid),
            processes2 == processes1,
            memory2 == memory1,
    {
        let before = processes0[self.pid];
        assert forall|other: ThreadID| #[trigger] before.threads().contains(other) implies other
            == self.id by {
            let i = choose|i: int| 0 <= i < before.threads().len() && before.threads()[i] == other;
            assert(i == 0);
        }
        assert(processes1.dom() =~= processes0.dom().remove(self.pid));
        assert(processes2 =~= processes1);
    }

    /// Marks this thread as dead.
    ///
    /// This will cause the scheduler to not schedule it anymore and drop it.
    /// What the thread holds is released when it is dropped, not here.
    pub fn kill(&mut self)
        ensures
            final(self).state == ThreadState::Dead,
            final(self).same_thread(*old(self)),
    {
        self.state = ThreadState::Dead;
    }

    /// Drops the thread: takes it off the thread list of its process, gives up
    /// its two stacks in the address space of the process and, if that was the
    /// last thread of a process marked dead, takes the process out of the
    /// table and gives the frames that its segments still map back to the
    /// allocator. All of this happens in one step on the process list, so that
    /// no thread can join the process between the count reaching zero and the
    /// removal. See [`TCB::destroy_post`].
    pub fn destroy(self, processes: &mut ProcessList, memory: &mut MemoryController)
        requires
            self.wf(),
            old(processes).wf(),
            old(memory).wf(),
        ensures
            final(processes).wf(),
            final(memory).wf(),
            self.destroy_post(old(processes)@, final(processes)@, *old(memory), *final(memory)),
    {
        let TCB { id, pid, mut kernel_stack, mut user_stack, state: _, priority: _, context: _ } =
            self;
        let mut pcb = match processes.remove(pid) {
            Some(pcb) => pcb,
            None => {
                assert(processes@ =~= old(processes)@);
                return ;
            },
        };
        let ghost before = pcb;
        assert(before.wf());
        pcb.remove_thread(id);
        let ghost memory0 = *memory;
        kernel_stack.release(Some(pcb.address_space_mut()), memory);
        let ghost between = pcb;
        let ghost memory1 = *memory;
        user_stack.release(Some(pcb.address_space_mut()), memory);
        proof {
            let space0 = Some(before.space());
            let space1 = Some(between.space());
            let space2 = Some(pcb.space());
            assert(self.kernel_stack.release_post(kernel_stack, space0, space1, memory0, memory1));
            assert(self.user_stack.release_post(user_stack, space1, space2, memory1, *memory));
            assert forall|q: Page| q.is_canonical() && self.has_page(q) implies #[trigger] page_released(
                before.space(),
                pcb.space(),
                q,
            ) by {
                if self.kernel_stack.pages().0 <= q.number < self.kernel_stack.pages().1 {
                    assert(released(space0, memory0, space1, memory1, q));
                } else {
                    assert(mapping_in(space1, memory1, q) == mapping_in(space0, memory0, q));
                }
                if self.user_stack.pages().0 <= q.number < self.user_stack.pages().1 {
                    assert(released(space1, memory1, space2, *memory, q));
                } else {
                    assert(mapping_in(space2, *memory, q) == mapping_in(space1, memory1, q));
                }
            }
            assert forall|q: Page| q.is_canonical() && !self.has_page(q) implies #[trigger] pcb.space().mapping(
                q,
            ) == before.space().mapping(q) by {
                assert(mapping_in(space1, memory1, q) == mapping_in(space0, memory0, q));
                assert(mapping_in(space2, *memory, q) == mapping_in(space1, memory1, q));
            }
        }
        proof {
            if pcb.threads().len() == 0 {
                assert forall|other: ThreadID| #[trigger]
                    before.threads().contains(other) implies other == id by {
                    if other != id {
                        assert(pcb.threads().contains(other));
                    }
                }
            } else {
                let other = pcb.threads()[0];
                assert(pcb.threads().contains(other));
                assert(before.threads().contains(other) && other != id);
            }
        }
        let ghost memory2 = *memory;
        let ghost released_stacks = pcb;
        proof {
            let space0 = Some(before.space());
            let space1 = Some(between.space());
            let allocated0 = memory0.frame_allocator.allocated_frames();
            memory2.lemma_only_freed_twice(memory1, memory0);
            assert forall|q: Page| q.is_canonical() && self.has_page(q) implies #[trigger] frame_released(
                before.space(),
                allocated0,
                memory2.frame_allocator.free_frames(),
                q,
            ) by {
                if self.kernel_stack.pages().0 <= q.number < self.kernel_stack.pages().1 {
                    assert(frame_freed(space0, memory0, memory1, q));
                } else {
                    assert(mapping_in(space1, memory1, q) == mapping_in(space0, memory0, q));
                    assert(frame_freed(space1, memory1, memory2, q));
                }
            }
        }
        if !pcb.is_droppable() {
            processes.insert(pid, pcb);
        } else {
            // The process goes: what its segments still map goes back to the allocator.
            pcb.address_space_mut().release_pages(&mut memory.frame_allocator);
            proof {
                let allocated0 = memory0.frame_allocator.allocated_frames();
                memory.lemma_only_freed_twice(memory2, memory0);
                assert forall|q: Page|
                    q.is_canonical() && touched(
                        released_stacks.space().segments(),
                        q,
                    ) implies #[trigger] frame_released(
                    before.space(),
                    allocated0,
                    memory.frame_allocator.free_frames(),
                    q,
                ) by {
                    if self.has_page(q) {
                        assert(frame_released(
                            before.space(),
                            allocated0,
                            memory2.frame_allocator.free_frames(),
                            q,
                        ));
                    } else {
                        assert(released_stacks.space().mapping(q) == before.space().mapping(q));
                        assert(frame_released(
                            released_stacks.space(),
                            memory2.frame_allocator.allocated_frames(),
                            memory.frame_allocator.free_frames(),
                            q,
                        ));
                    }
                }
            }
        }
        proof {
            assert forall|other: ProcessID| other != pid implies processes@.contains_key(other)
                == old(processes)@.contains_key(other) && processes@[other] == old(processes)@[other] by {}
            assert forall|q: Page| q.is_canonical() && self.has_page(q) implies #[trigger] frame_released(
                before.space(),
                memory0.frame_allocator.allocated_frames(),
                memory.frame_allocator.free_frames(),
                q,
            ) by {
                assert(frame_released(
                    before.space(),
                    memory0.frame_allocator.allocated_frames(),
                    memory2.frame_allocator.free_frames(),
                    q,
                ));
            }
        }
    }
}

/// A TCB that is sorted by its sleep time (shortest first).
#[derive(Debug)]
pub struct SleepTimeSortedTCB(pub TCB);

impl SleepTimeSortedTCB {
    /// The time at which the thread is to wake.
    pub open spec fn wake_time(&self) -> Timestamp {
        match self.0.state {
            ThreadState::Sleeping(time) => time,
            _ => Timestamp { microseconds: 0 },
        }
    }

    /// Returns the sleep time for this TCB, which must be sleeping.
    pub fn get_sleep_time(&self) -> (time: Timestamp)
        requires
            self.0.state is Sleeping,
        ensures
            self.0.state == ThreadState::Sleeping(time),
            time == self.wake_time(),
    {
        match self.0.state {
            ThreadState::Sleeping(time) => time,
            _ => Timestamp { microseconds: 0 },
        }
    }
}

} // verus!
