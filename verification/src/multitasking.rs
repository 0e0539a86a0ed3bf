//! Threads, processes and the scheduler.

use vstd::prelude::*;
use crate::kernel::Kernel;
use crate::memory::address_space::AddressSpace;
use crate::memory::VirtualAddress;
use crate::multitasking::pcb::{ProcessList, PCB};
use crate::multitasking::stack::StackError;
use crate::multitasking::tcb::TCB;
use crate::sync::Cpu;

pub mod pcb;
pub mod scheduler;
pub mod stack;
pub mod tcb;

verus! {

/// The type of a process ID.
pub type ProcessID = usize;

/// The type of a thread ID.
pub type ThreadID = u16;

/// Why a process or a thread could not be created.
#[derive(Debug, PartialEq, Eq, Structural, Clone, Copy)]
pub enum CreateError {
    /// Every ID is taken.
    NoFreeId,
    /// There is no such process, or it is marked dead.
    NoProcess,
    /// A stack of the new thread could not be created.
    Stack(StackError),
}

/// Finds an unused process ID: the smallest positive ID that no process has,
/// or `None` if every ID is taken.
pub fn find_pid(list: &ProcessList) -> (pid: Option<ProcessID>)
    ensures
        match pid {
            Some(pid) => pid >= 1 && !list@.contains_key(pid) && forall|other: ProcessID|
                1 <= other < pid ==> list@.contains_key(other),
            None => forall|other: ProcessID| 1 <= other ==> list@.contains_key(other),
        },
{
    list.find_pid()
}

/// What creating a process does to the kernel: the process stands in the
/// table under the smallest free positive ID, alive, with the one thread 0,
/// and that thread, freshly created at the entry address, stands at the end
/// of the ready list. The pages of its two stacks are mapped in the address
/// space, and no other page has changed there. Of the kernel's memory
/// nothing changes but that frames were handed out.
pub open spec fn process_created(
    before: Kernel,
    after: Kernel,
    address_space: AddressSpace,
    entry_address: VirtualAddress,
    pid: ProcessID,
) -> bool {
    let pcb = after.processes@[pid];
    let thread = after.scheduler.ready().last();
    &&& pid >= 1
    &&& !before.processes@.contains_key(pid)
    &&& forall|other: ProcessID| 1 <= other < pid ==> before.processes@.contains_key(other)
    &&& after.processes@.dom() == before.processes@.dom().insert(pid)
    &&& forall|other: ProcessID|
        other != pid && before.processes@.contains_key(other) ==> #[trigger] after.processes@[other]
            == before.processes@[other]
    &&& pcb.threads() == seq![0u16]
    &&& !pcb.is_marked_dead()
    &&& pcb.space().segments() == address_space.segments().push(
        crate::multitasking::tcb::kernel_segment(0),
    ).push(crate::multitasking::tcb::user_segment(0))
    &&& after.scheduler.ready() == before.scheduler.ready().push(thread)
    &&& after.scheduler.same_but_ready(before.scheduler)
    &&& thread.fresh(pid, 0, entry_address, 0, 0, 0, 0, 0)
    &&& after.memory.only_taken(before.memory)
    &&& crate::syscalls::stacks_mapped(thread, address_space, pcb.space())
}

/// Creates a new process in the given address space, whose first thread
/// starts at the entry address. Returns the ID of the process. See
/// [`process_created`].
///
/// The call fails with `NoFreeId` exactly when every positive process ID is
/// taken, and with `Stack` when a stack of the first thread cannot be
/// created; the kernel then has its processes and threads as before. It
/// succeeds whenever an ID is free and [`TCB::creation_owed`] holds of the
/// address space.
pub fn create_process(
    kernel: &mut Kernel,
    cpu: &mut Cpu,
    address_space: AddressSpace,
    entry_address: VirtualAddress,
) -> (r: Result<ProcessID, CreateError>)
    requires
        old(kernel).wf(),
        address_space.wf(),
    ensures
        final(kernel).wf(),
        final(kernel).clock == old(kernel).clock,
        final(kernel).fault_policy == old(kernel).fault_policy,
        final(cpu).is_preemptable() == old(cpu).is_preemptable(),
        final(cpu).id_spec() == old(cpu).id_spec(),
        r == Err::<ProcessID, CreateError>(CreateError::NoFreeId) <==> forall|other: ProcessID|
            1 <= other ==> old(kernel).processes@.contains_key(other),
        r != Err::<ProcessID, CreateError>(CreateError::NoProcess),
        r is Ok ==> process_created(
            *old(kernel),
            *final(kernel),
            address_space,
            entry_address,
            r->Ok_0,
        ),
        r is Err ==> final(kernel).processes@ == old(kernel).processes@ && final(kernel).scheduler
            == old(kernel).scheduler,
        final(kernel).memory.active_table == old(kernel).memory.active_table,
        final(kernel).memory.same_stack_area(old(kernel).memory),
        r is Err && !(r matches Err(CreateError::Stack(StackError::MapFailed(_))))
            ==> final(kernel).memory == old(kernel).memory,
        (exists|free: ProcessID| 1 <= free && !old(kernel).processes@.contains_key(free))
            && TCB::creation_owed(0, address_space, old(kernel).memory) ==> r is Ok,
{
    let mut pcb = PCB::new(address_space);
    let id = match find_pid(&kernel.processes) {
        Some(id) => id,
        None => {
            return Err(CreateError::NoFreeId);
        },
    };
    let first_tcb = match TCB::in_process(id, 0, entry_address, &mut pcb, &mut kernel.memory) {
        Ok(thread) => thread,
        Err(error) => {
            return Err(CreateError::Stack(error));
        },
    };
    let ghost created = pcb;
    kernel.scheduler.push_ready(first_tcb, cpu);
    kernel.processes.insert(id, pcb);
    proof {
        assert(kernel.processes@.dom() =~= old(kernel).processes@.dom().insert(id));
        assert(kernel.scheduler.ready().last() == first_tcb);
        assert forall|q: crate::memory::paging::Page|
            first_tcb.has_page(q) implies #[trigger] created.space().maps_page_at(
            (q.number * crate::memory::PAGE_SIZE) as u64,
        ) by {
            if first_tcb.kernel_stack.pages().0 <= q.number < first_tcb.kernel_stack.pages().1 {
                assert(crate::multitasking::stack::page_covered(
                    Some(created.space()),
                    kernel.memory,
                    first_tcb.kernel_stack.page_flags(),
                    q,
                ));
            } else {
                assert(crate::multitasking::stack::page_covered(
                    Some(created.space()),
                    kernel.memory,
                    first_tcb.user_stack.page_flags(),
                    q,
                ));
            }
        }
        assert forall|q: crate::memory::paging::Page|
            q.is_canonical() && !first_tcb.has_page(q) implies #[trigger] created.space().mapping(q)
            == address_space.mapping(q) by {
            assert(crate::multitasking::stack::mapping_in(Some(created.space()), kernel.memory, q)
                == crate::multitasking::stack::mapping_in(
                Some(address_space),
                old(kernel).memory,
                q,
            ));
        }
        assert(crate::syscalls::stacks_mapped(first_tcb, address_space, created.space()));
        assert(crate::multitasking::scheduler::lists_kept(
            old(kernel).processes@,
            kernel.processes@,
        )) by {
            assert forall|p: ProcessID, i: ThreadID|
                old(kernel).processes@.contains_key(p) && #[trigger] old(
                    kernel,
                ).processes@[p].threads().contains(i) implies kernel.processes@.contains_key(p)
                && kernel.processes@[p].threads().contains(i) by {
                assert(kernel.processes@[p] == old(kernel).processes@[p]);
            }
        }
        assert(kernel.processes@[id].threads()[0] == 0);
        assert(crate::multitasking::scheduler::listed(kernel.processes@, first_tcb));
        kernel.scheduler.lemma_pushed_registered(
            old(kernel).scheduler,
            first_tcb,
            old(kernel).processes@,
            kernel.processes@,
        );
    }
    Ok(id)
}

} // verus!
