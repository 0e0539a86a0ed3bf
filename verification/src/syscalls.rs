//! This module handles system calls.

use vstd::prelude::*;
use crate::arch::context::Context;
use crate::arch::schedule;
use crate::kernel::{FaultPolicy, Kernel};
use crate::memory::address_space::AddressSpace;
use crate::memory::VirtualAddress;
use crate::multitasking::pcb::PCB;
use crate::multitasking::scheduler::{
    listed, lists_kept, put_away, schedule_post, Scheduler,
};
use crate::multitasking::stack::StackError;
use crate::multitasking::tcb::{ThreadState, DEFAULT_PRIORITY, TCB};
use crate::multitasking::{CreateError, ProcessID, ThreadID};
use crate::sync::time::{offset_of, Time, Timestamp};
use crate::sync::Cpu;

verus! {

/// What is left for the caller to do after a system call.
#[derive(Debug, PartialEq, Eq, Structural, Clone, Copy)]
pub enum SyscallAction {
    /// Nothing.
    Nothing,
    /// Print the character with this code.
    PrintChar(u8),
    /// Read the name of a program from the memory of the calling process,
    /// load the program, and hand what came of it to [`exec_result`].
    Exec { name_ptr: VirtualAddress, name_length: usize },
    /// Stop the kernel and report the system call number.
    Halt { num: u64 },
}

/// What a system call has come to.
#[derive(Debug, PartialEq, Eq, Structural, Clone, Copy)]
pub struct SyscallOutcome {
    /// The value that the system call returns to the calling thread.
    pub value: i64,
    /// The context that the CPU is to resume.
    pub resume: Context,
    /// What is left for the caller to do.
    pub action: SyscallAction,
}

/// The number of milliseconds as a span of time; a number beyond what a span
/// holds stands for the longest span.
pub open spec fn sleep_span(ms: u64) -> Time {
    Time::Milliseconds(
        if ms <= i64::MAX {
            ms as i64
        } else {
            i64::MAX
        },
    )
}

/// Whether the process table `after` is `before` with the process `pid`
/// marked dead and nothing else changed.
pub open spec fn process_killed(
    before: Map<ProcessID, PCB>,
    after: Map<ProcessID, PCB>,
    pid: ProcessID,
) -> bool {
    &&& after.dom() == before.dom()
    &&& forall|other: ProcessID|
        other != pid && before.contains_key(other) ==> #[trigger] after[other] == before[other]
    &&& before.contains_key(pid) ==> {
        &&& after[pid].is_marked_dead()
        &&& after[pid].space() == before[pid].space()
        &&& after[pid].threads() == before[pid].threads()
    }
}

/// What killing the process of the running thread and rescheduling does.
/// The idle process cannot be killed: for a thread of it the table stays as
/// it is, and the reschedule takes place all the same. Of the kernel's
/// memory nothing changes but that the frames of dropped threads go back to
/// the allocator.
pub open spec fn kill_process_post(
    before: Kernel,
    after: Kernel,
    cpu_id: int,
    saved: Context,
    next: Context,
) -> bool {
    let pid = before.scheduler.current(cpu_id).pid;
    &&& after.memory.only_freed(before.memory)
    &&& exists|killed: Map<ProcessID, PCB>|
        {
            &&& if pid == 0 {
                killed == before.processes@
            } else {
                process_killed(before.processes@, killed, pid)
            }
            &&& #[trigger] schedule_post(
                before.scheduler,
                after.scheduler,
                killed,
                after.processes@,
                cpu_id,
                saved,
                next,
            )
        }
}

/// What putting the running thread into `state` and rescheduling does. Of
/// the kernel's memory nothing changes but that the frames of dropped
/// threads go back to the allocator.
pub open spec fn leave_post(
    before: Kernel,
    after: Kernel,
    cpu_id: int,
    state: ThreadState,
    saved: Context,
    next: Context,
) -> bool {
    &&& after.memory.only_freed(before.memory)
    &&& exists|left: Scheduler|
        {
            &&& left.same_but_current(before.scheduler, cpu_id)
            &&& left.current(cpu_id) == put_away(
                before.scheduler.current(cpu_id),
                state,
                before.scheduler.current(cpu_id).context,
            )
            &&& #[trigger] schedule_post(
                left,
                after.scheduler,
                before.processes@,
                after.processes@,
                cpu_id,
                saved,
                next,
            )
        }
}

/// Hands the character to the caller for printing. Returns 0.
pub fn print_char(character: u8) -> (r: (i64, SyscallAction))
    ensures
        r.0 == 0,
        r.1 == SyscallAction::PrintChar(character),
{
    (0, SyscallAction::PrintChar(character))
}

/// Kills the process of the running thread and reschedules, so that the
/// thread is dropped. Returns 0 and the context to resume. See
/// [`kill_process_post`].
pub fn kill_process(kernel: &mut Kernel, cpu: &mut Cpu, saved: Context) -> (r: (i64, Context))
    requires
        old(kernel).wf(),
        old(kernel).runs_on(*old(cpu)),
    ensures
        final(kernel).wf(),
        final(kernel).clock == old(kernel).clock,
        final(kernel).fault_policy == old(kernel).fault_policy,
        final(cpu).is_preemptable() == old(cpu).is_preemptable(),
        final(cpu).id_spec() == old(cpu).id_spec(),
        r.0 == 0,
        kill_process_post(*old(kernel), *final(kernel), old(cpu).id_spec() as int, saved, r.1),
{
    let pid = kernel.scheduler.current_thread(cpu.id()).pid;
    if pid != 0 {
        match kernel.processes.remove(pid) {
            Some(mut pcb) => {
                pcb.kill();
                kernel.processes.insert(pid, pcb);
            },
            None => {},
        }
    }
    let ghost killed = kernel.processes@;
    proof {
        if pid != 0 {
            assert(killed.dom() =~= old(kernel).processes@.dom());
        } else {
            assert(killed =~= old(kernel).processes@);
        }
        assert forall|other: ProcessID| killed.contains_key(other) implies (#[trigger] killed[other]).wf() by {
            if other != pid {
                assert(killed[other] == old(kernel).processes@[other]);
            } else {
                assert(old(kernel).processes@[other].wf());
            }
        }
    }
    let next = schedule(kernel, cpu, saved);
    proof {
        assert(schedule_post(
            old(kernel).scheduler,
            kernel.scheduler,
            killed,
            kernel.processes@,
            old(cpu).id_spec() as int,
            saved,
            next,
        ));
    }
    (0, next)
}

/// Returns the ID of the process of the running thread.
pub fn return_pid(kernel: &Kernel, cpu: &Cpu) -> (pid: i64)
    requires
        kernel.runs_on(*cpu),
    ensures
        kernel.scheduler.current(cpu.id_spec() as int).pid <= i64::MAX ==> pid
            == kernel.scheduler.current(cpu.id_spec() as int).pid,
{
    let pid = kernel.scheduler.current_thread(cpu.id()).pid;
    #[verifier::truncate]
    (pid as i64)
}

/// Whether the `name_length` bytes from `name_ptr` on lie entirely within one
/// segment of the process of the running thread, so that the name of the
/// program can be read from there.
pub fn exec(kernel: &Kernel, cpu: &Cpu, name_ptr: VirtualAddress, name_length: usize) -> (r: (
    i64,
    SyscallAction,
))
    requires
        kernel.wf(),
        kernel.runs_on(*cpu),
    ensures
        ({
            let pid = kernel.scheduler.current(cpu.id_spec() as int).pid;
            let valid = kernel.processes@.contains_key(pid) && exists|i: int|
                0 <= i < kernel.processes@[pid].space().segments().len() && (
                #[trigger] kernel.processes@[pid].space().segments()[i]).contains_range_spec(
                    name_ptr,
                    name_length,
                );
            r == if valid {
                (0i64, SyscallAction::Exec { name_ptr, name_length })
            } else {
                (-1i64, SyscallAction::Nothing)
            }
        }),
{
    let pid = kernel.scheduler.current_thread(cpu.id()).pid;
    let name_ptr_valid = match kernel.processes.get(pid) {
        Some(pcb) => {
            assert(pcb.wf());
            pcb.address_space().contains_range(name_ptr, name_length)
        },
        None => false,
    };
    if name_ptr_valid {
        (0, SyscallAction::Exec { name_ptr, name_length })
    } else {
        (-1, SyscallAction::Nothing)
    }
}

/// The value that the `exec` system call returns once the program has been
/// loaded or not: the ID of the new process, or -1 if there is none or if the
/// ID is too large to be returned.
pub fn exec_result(loaded: Option<ProcessID>) -> (value: i64)
    ensures
        value == match loaded {
            Some(pid) => if 0 < pid <= i64::MAX {
                pid as i64
            } else {
                -1i64
            },
            None => -1i64,
        },
{
    match loaded {
        Some(process_id) => {
            if process_id > 0 && process_id as u64 <= i64::MAX as u64 {
                process_id as i64
            } else {
                -1
            }
        },
        None => -1,
    }
}

/// Puts the running thread to sleep for `ms` milliseconds from `now` on,
/// the current time as the caller has read it from the clock, and
/// reschedules. Returns 0 and the context to resume. The thread goes to the
/// sleeping list, not back to the ready list. See [`leave_post`].
pub fn sleep(kernel: &mut Kernel, cpu: &mut Cpu, saved: Context, now: Timestamp, ms: u64) -> (r: (
    i64,
    Context,
))
    requires
        old(kernel).wf(),
        old(kernel).runs_on(*old(cpu)),
    ensures
        final(kernel).wf(),
        final(kernel).clock == old(kernel).clock,
        final(kernel).fault_policy == old(kernel).fault_policy,
        final(cpu).is_preemptable() == old(cpu).is_preemptable(),
        final(cpu).id_spec() == old(cpu).id_spec(),
        r.0 == 0,
        leave_post(
            *old(kernel),
            *final(kernel),
            old(cpu).id_spec() as int,
            ThreadState::Sleeping(offset_of(now, sleep_span(ms))),
            saved,
            r.1,
        ),
{
    let mut wake_time = now;
    let span = if ms <= i64::MAX as u64 {
        ms as i64
    } else {
        i64::MAX
    };
    wake_time.offset(Time::Milliseconds(span));
    kernel.scheduler.sleep_current(cpu.id(), wake_time);
    let ghost left = kernel.scheduler;
    proof {
        assert forall|c: int| 0 <= c < kernel.scheduler.cpu_count() implies listed(
            kernel.processes@,
            #[trigger] kernel.scheduler.current(c),
        ) by {
            assert(kernel.scheduler.idle(c) == old(kernel).scheduler.idle(c));
            assert(listed(old(kernel).processes@, old(kernel).scheduler.current(c)));
        }
    }
    let next = schedule(kernel, cpu, saved);
    proof {
        assert(schedule_post(
            left,
            kernel.scheduler,
            old(kernel).processes@,
            kernel.processes@,
            old(cpu).id_spec() as int,
            saved,
            next,
        ));
    }
    (0, next)
}

/// Kills the running thread and reschedules, so that the thread is dropped.
/// Returns 0 and the context to resume. See [`leave_post`].
pub fn kill_thread(kernel: &mut Kernel, cpu: &mut Cpu, saved: Context) -> (r: (i64, Context))
    requires
        old(kernel).wf(),
        old(kernel).runs_on(*old(cpu)),
    ensures
        final(kernel).wf(),
        final(kernel).clock == old(kernel).clock,
        final(kernel).fault_policy == old(kernel).fault_policy,
        final(cpu).is_preemptable() == old(cpu).is_preemptable(),
        final(cpu).id_spec() == old(cpu).id_spec(),
        r.0 == 0,
        leave_post(
            *old(kernel),
            *final(kernel),
            old(cpu).id_spec() as int,
            ThreadState::Dead,
            saved,
            r.1,
        ),
{
    kernel.scheduler.kill_current(cpu.id());
    let ghost left = kernel.scheduler;
    proof {
        assert forall|c: int| 0 <= c < kernel.scheduler.cpu_count() implies listed(
            kernel.processes@,
            #[trigger] kernel.scheduler.current(c),
        ) by {
            assert(kernel.scheduler.idle(c) == old(kernel).scheduler.idle(c));
            assert(listed(old(kernel).processes@, old(kernel).scheduler.current(c)));
        }
    }
    let next = schedule(kernel, cpu, saved);
    proof {
        assert(schedule_post(
            left,
            kernel.scheduler,
            old(kernel).processes@,
            kernel.processes@,
            old(cpu).id_spec() as int,
            saved,
            next,
        ));
    }
    (0, next)
}

/// What creating a thread of the given priority in the process `pid` does
/// to the kernel: the thread has the smallest ID that no living thread of
/// the process has, is registered with the process, and stands, freshly
/// created, at the end of the ready list. The pages of its two stacks are mapped in the address
/// space of the process, and no other page has changed there. Of the
/// kernel's memory nothing changes but that frames were handed out.
pub open spec fn thread_created(
    before: Kernel,
    after: Kernel,
    pid: ProcessID,
    id: ThreadID,
    priority: i32,
    start_address: VirtualAddress,
    arg1: u64,
    arg2: u64,
    arg3: u64,
    arg4: u64,
    arg5: u64,
) -> bool {
    let pcb0 = before.processes@[pid];
    let pcb1 = after.processes@[pid];
    let thread = after.scheduler.ready().last();
    &&& before.processes@.contains_key(pid)
    &&& !pcb0.threads().contains(id)
    &&& forall|other: ThreadID| other < id ==> pcb0.threads().contains(other)
    &&& after.processes@.dom() == before.processes@.dom()
    &&& forall|other: ProcessID|
        other != pid && before.processes@.contains_key(other) ==> #[trigger] after.processes@[other]
            == before.processes@[other]
    &&& pcb1.threads() == pcb0.threads().push(id)
    &&& pcb1.is_marked_dead() == pcb0.is_marked_dead()
    &&& pcb1.space().segments() == pcb0.space().segments().push(
        crate::multitasking::tcb::kernel_segment(id),
    ).push(crate::multitasking::tcb::user_segment(id))
    &&& after.scheduler.ready() == before.scheduler.ready().push(thread)
    &&& after.scheduler.same_but_ready(before.scheduler)
    &&& thread.fresh_with_priority(
        priority,
        pid,
        id,
        start_address,
        arg1,
        arg2,
        arg3,
        arg4,
        arg5,
    )
    &&& after.memory.only_taken(before.memory)
    &&& stacks_mapped(thread, pcb0.space(), pcb1.space())
}

/// Whether the pages of the two stacks of the thread are mapped in the
/// address space `after`, each by a 4 KiB entry with the flags of its
/// segment, and every other page is mapped there as in `before`.
pub open spec fn stacks_mapped(thread: TCB, before: AddressSpace, after: AddressSpace) -> bool {
    &&& forall|q: crate::memory::paging::Page|
        thread.has_page(q) ==> #[trigger] after.maps_page_at(
            (q.number * crate::memory::PAGE_SIZE) as u64,
        )
    &&& forall|q: crate::memory::paging::Page|
        q.is_canonical() && !thread.has_page(q) ==> #[trigger] after.mapping(q) == before.mapping(q)
}

/// Whether the process table `after` holds the processes of `before` with
/// their threads, their segments, and every page mapped as in `before`.
pub open spec fn processes_untouched(before: Map<ProcessID, PCB>, after: Map<ProcessID, PCB>) -> bool {
    &&& after.dom() == before.dom()
    &&& forall|pid: ProcessID| #[trigger]
        before.contains_key(pid) ==> {
            &&& after[pid].threads() == before[pid].threads()
            &&& after[pid].is_marked_dead() == before[pid].is_marked_dead()
            &&& after[pid].space().segments() == before[pid].space().segments()
            &&& forall|q: crate::memory::paging::Page|
                q.is_canonical() ==> #[trigger] after[pid].space().mapping(q)
                    == before[pid].space().mapping(q)
        }
}

/// A condition under which a thread is sure to be created in the process
/// `pid`, with the ID `id`: the process exists and is not the idle process,
/// `id` is the smallest ID that no thread of the process has, and
/// [`TCB::creation_owed`] holds of it, the address space of the process and
/// the kernel's memory.
pub open spec fn thread_owed(before: Kernel, pid: ProcessID, id: ThreadID) -> bool {
    &&& pid != 0
    &&& before.processes@.contains_key(pid)
    &&& !before.processes@[pid].threads().contains(id)
    &&& forall|other: ThreadID| other < id ==> before.processes@[pid].threads().contains(other)
    &&& TCB::creation_owed(id, before.processes@[pid].space(), before.memory)
}

/// Creates a thread of the given priority in the process `pid` that starts
/// at `start_address` with the given arguments, and puts it into the ready
/// list. Returns the ID of the thread. See [`thread_created`].
///
/// The call fails with `NoProcess` exactly when there is no process `pid` or
/// it is the idle process, with `NoFreeId` when every thread ID of the
/// process is taken, and with `Stack` when a stack cannot be created; the
/// kernel then has its threads as before, and its processes with their
/// segments and pages as before. It succeeds whenever [`thread_owed`] holds
/// of an ID, and returns that ID.
pub fn create_thread_with_priority(
    kernel: &mut Kernel,
    cpu: &mut Cpu,
    pid: ProcessID,
    priority: i32,
    start_address: VirtualAddress,
    arg1: u64,
    arg2: u64,
    arg3: u64,
    arg4: u64,
    arg5: u64,
) -> (r: Result<ThreadID, CreateError>)
    requires
        old(kernel).wf(),
    ensures
        final(kernel).wf(),
        final(kernel).clock == old(kernel).clock,
        final(kernel).fault_policy == old(kernel).fault_policy,
        final(cpu).is_preemptable() == old(cpu).is_preemptable(),
        final(cpu).id_spec() == old(cpu).id_spec(),
        r == Err::<ThreadID, CreateError>(CreateError::NoProcess) <==> pid == 0 || !old(
            kernel,
        ).processes@.contains_key(pid),
        r == Err::<ThreadID, CreateError>(CreateError::NoFreeId) <==> pid != 0 && old(
            kernel,
        ).processes@.contains_key(pid) && forall|other: ThreadID|
            old(kernel).processes@[pid].threads().contains(other),
        r is Ok ==> thread_created(
            *old(kernel),
            *final(kernel),
            pid,
            r->Ok_0,
            priority,
            start_address,
            arg1,
            arg2,
            arg3,
            arg4,
            arg5,
        ),
        r is Err ==> final(kernel).scheduler == old(kernel).scheduler && processes_untouched(
            old(kernel).processes@,
            final(kernel).processes@,
        ),
        final(kernel).memory.active_table == old(kernel).memory.active_table,
        final(kernel).memory.same_stack_area(old(kernel).memory),
        r is Err && !(r matches Err(CreateError::Stack(StackError::MapFailed(_))))
            ==> final(kernel).memory == old(kernel).memory,
        forall|id: ThreadID|
            #[trigger] thread_owed(*old(kernel), pid, id) ==> r == Ok::<ThreadID, CreateError>(id),
{
    if pid == 0 {
        return Err(CreateError::NoProcess);
    }
    let mut pcb = match kernel.processes.remove(pid) {
        Some(pcb) => pcb,
        None => {
            assert(kernel.processes@ =~= old(kernel).processes@);
            return Err(CreateError::NoProcess);
        },
    };
    let ghost pcb0 = pcb;
    assert(pcb0.wf());
    let id = match pcb.find_thread_id() {
        Some(id) => id,
        None => {
            kernel.processes.insert(pid, pcb);
            assert(kernel.processes@ =~= old(kernel).processes@);
            return Err(CreateError::NoFreeId);
        },
    };
    let mut thread = match TCB::in_process_with_arguments(
        pid,
        id,
        start_address,
        &mut pcb,
        &mut kernel.memory,
        arg1,
        arg2,
        arg3,
        arg4,
        arg5,
    ) {
        Ok(thread) => thread,
        Err(error) => {
            // The stacks were taken back: the process is as it was, but for
            // page tables that the attempt has left behind.
            let ghost pcb1 = pcb;
            let ghost memory1 = kernel.memory;
            kernel.processes.insert(pid, pcb);
            proof {
                assert(kernel.processes@.dom() =~= old(kernel).processes@.dom());
                assert forall|q: crate::memory::paging::Page| q.is_canonical() implies #[trigger] pcb1.space().mapping(
                    q,
                ) == pcb0.space().mapping(q) by {
                    assert(crate::multitasking::stack::mapping_in(Some(pcb1.space()), memory1, q)
                        == crate::multitasking::stack::mapping_in(
                        Some(pcb0.space()),
                        old(kernel).memory,
                        q,
                    ));
                }
                assert forall|other: ProcessID| #[trigger]
                    old(kernel).processes@.contains_key(other) implies {
                    &&& kernel.processes@[other].threads() == old(kernel).processes@[other].threads()
                    &&& kernel.processes@[other].is_marked_dead() == old(
                        kernel,
                    ).processes@[other].is_marked_dead()
                    &&& kernel.processes@[other].space().segments() == old(
                        kernel,
                    ).processes@[other].space().segments()
                    &&& forall|q: crate::memory::paging::Page|
                        q.is_canonical() ==> #[trigger] kernel.processes@[other].space().mapping(q)
                            == old(kernel).processes@[other].space().mapping(q)
                } by {
                    if other != pid {
                        assert(kernel.processes@[other] == old(kernel).processes@[other]);
                    }
                }
                assert forall|other: ProcessID| kernel.processes@.contains_key(other) implies (
                #[trigger] kernel.processes@[other]).wf() by {
                    if other != pid {
                        assert(kernel.processes@[other] == old(kernel).processes@[other]);
                    }
                }
            }
            return Err(CreateError::Stack(error));
        },
    };
    let ghost created = pcb;
    thread.priority = priority;
    pcb.add_thread(id);
    kernel.scheduler.push_ready(thread, cpu);
    kernel.processes.insert(pid, pcb);
    proof {
        assert(kernel.processes@.dom() =~= old(kernel).processes@.dom());
        assert(kernel.scheduler.ready().last() == thread);
        assert forall|q: crate::memory::paging::Page|
            thread.has_page(q) implies #[trigger] created.space().maps_page_at(
            (q.number * crate::memory::PAGE_SIZE) as u64,
        ) by {
            if thread.kernel_stack.pages().0 <= q.number < thread.kernel_stack.pages().1 {
                assert(crate::multitasking::stack::page_covered(
                    Some(created.space()),
                    kernel.memory,
                    thread.kernel_stack.page_flags(),
                    q,
                ));
            } else {
                assert(crate::multitasking::stack::page_covered(
                    Some(created.space()),
                    kernel.memory,
                    thread.user_stack.page_flags(),
                    q,
                ));
            }
        }
        assert forall|q: crate::memory::paging::Page|
            q.is_canonical() && !thread.has_page(q) implies #[trigger] created.space().mapping(q)
            == pcb0.space().mapping(q) by {
            assert(crate::multitasking::stack::mapping_in(Some(created.space()), kernel.memory, q)
                == crate::multitasking::stack::mapping_in(
                Some(pcb0.space()),
                old(kernel).memory,
                q,
            ));
        }
        assert(stacks_mapped(thread, pcb0.space(), created.space()));
        assert(lists_kept(old(kernel).processes@, kernel.processes@)) by {
            assert forall|p: ProcessID, i: ThreadID|
                old(kernel).processes@.contains_key(p) && #[trigger] old(
                    kernel,
                ).processes@[p].threads().contains(i) implies kernel.processes@.contains_key(p)
                && kernel.processes@[p].threads().contains(i) by {
                if p == pid {
                    let k = choose|k: int|
                        0 <= k < pcb0.threads().len() && pcb0.threads()[k] == i;
                    assert(kernel.processes@[pid].threads()[k] == i);
                } else {
                    assert(kernel.processes@[p] == old(kernel).processes@[p]);
                }
            }
        }
        assert(kernel.processes@[pid].threads().last() == id);
        assert(listed(kernel.processes@, thread));
        kernel.scheduler.lemma_pushed_registered(
            old(kernel).scheduler,
            thread,
            old(kernel).processes@,
            kernel.processes@,
        );
        assert forall|other: ProcessID| kernel.processes@.contains_key(other) implies (
        #[trigger] kernel.processes@[other]).wf() by {
            if other != pid {
                assert(kernel.processes@[other] == old(kernel).processes@[other]);
            }
        }
    }
    Ok(id)
}

/// Creates a thread of the default priority in the process `pid` that
/// starts at `start_address` with the given arguments, and puts it into the
/// ready list. Returns the ID of the thread. See [`thread_created`] and
/// [`create_thread_with_priority`].
///
/// The call fails with `NoProcess` exactly when there is no process `pid` or
/// it is the idle process, with `NoFreeId` when every thread ID of the
/// process is taken, and with `Stack` when a stack cannot be created; the
/// kernel then has its threads as before, and its processes with their
/// segments and pages as before. It succeeds whenever [`thread_owed`] holds
/// of an ID, and returns that ID.
pub fn create_thread_in(
    kernel: &mut Kernel,
    cpu: &mut Cpu,
    pid: ProcessID,
    start_address: VirtualAddress,
    arg1: u64,
    arg2: u64,
    arg3: u64,
    arg4: u64,
    arg5: u64,
) -> (r: Result<ThreadID, CreateError>)
    requires
        old(kernel).wf(),
    ensures
        final(kernel).wf(),
        final(kernel).clock == old(kernel).clock,
        final(kernel).fault_policy == old(kernel).fault_policy,
        final(cpu).is_preemptable() == old(cpu).is_preemptable(),
        final(cpu).id_spec() == old(cpu).id_spec(),
        r == Err::<ThreadID, CreateError>(CreateError::NoProcess) <==> pid == 0 || !old(
            kernel,
        ).processes@.contains_key(pid),
        r == Err::<ThreadID, CreateError>(CreateError::NoFreeId) <==> pid != 0 && old(
            kernel,
        ).processes@.contains_key(pid) && forall|other: ThreadID|
            old(kernel).processes@[pid].threads().contains(other),
        r is Ok ==> thread_created(
            *old(kernel),
            *final(kernel),
            pid,
            r->Ok_0,
            DEFAULT_PRIORITY,
            start_address,
            arg1,
            arg2,
            arg3,
            arg4,
            arg5,
        ),
        r is Err ==> final(kernel).scheduler == old(kernel).scheduler && processes_untouched(
            old(kernel).processes@,
            final(kernel).processes@,
        ),
        final(kernel).memory.active_table == old(kernel).memory.active_table,
        final(kernel).memory.same_stack_area(old(kernel).memory),
        r is Err && !(r matches Err(CreateError::Stack(StackError::MapFailed(_))))
            ==> final(kernel).memory == old(kernel).memory,
        forall|id: ThreadID|
            #[trigger] thread_owed(*old(kernel), pid, id) ==> r == Ok::<ThreadID, CreateError>(id),
{
    create_thread_with_priority(
        kernel,
        cpu,
        pid,
        DEFAULT_PRIORITY,
        start_address,
        arg1,
        arg2,
        arg3,
        arg4,
        arg5,
    )
}

/// What the `create_thread` system call does, with `value` what it returns:
/// the ID of the new thread, which is created in the process of the running
/// thread as [`thread_created`] says, or -1 if no thread was created, in
/// which case no thread or process has changed. A thread is created
/// whenever [`thread_owed`] holds of an ID, and it has that ID.
pub open spec fn create_thread_post(
    before: Kernel,
    after: Kernel,
    cpu_id: int,
    start_address: VirtualAddress,
    arg1: u64,
    arg2: u64,
    arg3: u64,
    arg4: u64,
    arg5: u64,
    value: i64,
) -> bool {
    let pid = before.scheduler.current(cpu_id).pid;
    &&& -1 <= value <= ThreadID::MAX
    &&& value >= 0 ==> thread_created(
        before,
        after,
        pid,
        value as ThreadID,
        DEFAULT_PRIORITY,
        start_address,
        arg1,
        arg2,
        arg3,
        arg4,
        arg5,
    )
    &&& value == -1 ==> after.scheduler == before.scheduler && processes_untouched(
        before.processes@,
        after.processes@,
    )
    &&& after.memory.active_table == before.memory.active_table
    &&& after.memory.same_stack_area(before.memory)
    &&& pid == 0 || !before.processes@.contains_key(pid) || (forall|other: ThreadID|
        before.processes@[pid].threads().contains(other)) ==> value == -1
    &&& forall|id: ThreadID| #[trigger] thread_owed(before, pid, id) ==> value == id
}

/// Creates a thread in the process of the running thread. Returns the ID of
/// the thread, or -1 if it could not be created. See
/// [`create_thread_post`].
pub fn create_thread(
    kernel: &mut Kernel,
    cpu: &mut Cpu,
    start_address: VirtualAddress,
    arg1: u64,
    arg2: u64,
    arg3: u64,
    arg4: u64,
    arg5: u64,
) -> (value: i64)
    requires
        old(kernel).wf(),
        old(kernel).runs_on(*old(cpu)),
    ensures
        final(kernel).wf(),
        final(kernel).clock == old(kernel).clock,
        final(kernel).fault_policy == old(kernel).fault_policy,
        final(cpu).is_preemptable() == old(cpu).is_preemptable(),
        final(cpu).id_spec() == old(cpu).id_spec(),
        create_thread_post(
            *old(kernel),
            *final(kernel),
            old(cpu).id_spec() as int,
            start_address,
            arg1,
            arg2,
            arg3,
            arg4,
            arg5,
            value,
        ),
{
    let pid = kernel.scheduler.current_thread(cpu.id()).pid;
    match create_thread_in(kernel, cpu, pid, start_address, arg1, arg2, arg3, arg4, arg5) {
        Ok(id) => id as i64,
        Err(_) => -1,
    }
}

/// What a system call with a number that no system call has comes to: under
/// the policy `Halt` nothing changes and the caller is told to stop the
/// kernel; under the policy `KillProcess` the calling process is killed as
/// by [`kill_process`]. The calling thread gets -1, should it ever run on.
pub open spec fn unknown_syscall_post(
    before: Kernel,
    after: Kernel,
    cpu_id: int,
    saved: Context,
    num: u64,
    outcome: SyscallOutcome,
) -> bool {
    &&& outcome.value == -1
    &&& before.fault_policy == FaultPolicy::Halt ==> {
        &&& outcome.action == SyscallAction::Halt { num }
        &&& outcome.resume == saved
        &&& after.scheduler == before.scheduler
        &&& after.processes@ == before.processes@
    }
    &&& before.fault_policy == FaultPolicy::KillProcess ==> {
        &&& outcome.action == SyscallAction::Nothing
        &&& kill_process_post(before, after, cpu_id, saved, outcome.resume)
    }
}

/// Deals with a system call whose number is not known, as the fault policy
/// of the kernel says. See [`unknown_syscall_post`].
pub fn unknown_syscall(kernel: &mut Kernel, cpu: &mut Cpu, saved: Context, num: u64) -> (outcome:
    SyscallOutcome)
    requires
        old(kernel).wf(),
        old(kernel).runs_on(*old(cpu)),
    ensures
        final(kernel).wf(),
        final(kernel).clock == old(kernel).clock,
        final(kernel).fault_policy == old(kernel).fault_policy,
        final(cpu).is_preemptable() == old(cpu).is_preemptable(),
        final(cpu).id_spec() == old(cpu).id_spec(),
        unknown_syscall_post(
            *old(kernel),
            *final(kernel),
            old(cpu).id_spec() as int,
            saved,
            num,
            outcome,
        ),
{
    match kernel.fault_policy {
        FaultPolicy::Halt => SyscallOutcome {
            value: -1,
            resume: saved,
            action: SyscallAction::Halt { num },
        },
        FaultPolicy::KillProcess => {
            let (_, resume) = kill_process(kernel, cpu, saved);
            SyscallOutcome { value: -1, resume, action: SyscallAction::Nothing }
        },
    }
}

/// Whether nothing that a system call could change has changed.
pub open spec fn unchanged(before: Kernel, after: Kernel) -> bool {
    after.scheduler == before.scheduler && after.processes@ == before.processes@ && after.memory
        == before.memory
}

/// What the system call with the number `num` does, by number:
///
/// 0 prints the character `arg1`; 1 kills the calling process; 2 returns the
/// ID of the calling process; 3 asks for the program whose name lies at
/// `arg1`, `arg2` bytes long, to be loaded; 4 sleeps for `arg1` milliseconds
/// from the current time `now` on;
/// 5 creates a thread that starts at `arg1` with the arguments `arg2` to
/// `arg6`; 6 kills the calling thread. Any other number is unknown.
pub open spec fn syscall_post(
    before: Kernel,
    after: Kernel,
    cpu_id: int,
    saved: Context,
    now: Timestamp,
    num: u64,
    arg1: u64,
    arg2: u64,
    arg3: u64,
    arg4: u64,
    arg5: u64,
    arg6: u64,
    outcome: SyscallOutcome,
) -> bool {
    let pid = before.scheduler.current(cpu_id).pid;
    if num == 0 {
        &&& outcome == (SyscallOutcome {
            value: 0i64,
            resume: saved,
            action: SyscallAction::PrintChar((arg1 % 256) as u8),
        })
        &&& unchanged(before, after)
    } else if num == 1 {
        &&& outcome.value == 0
        &&& outcome.action == SyscallAction::Nothing
        &&& kill_process_post(before, after, cpu_id, saved, outcome.resume)
    } else if num == 2 {
        &&& pid <= i64::MAX ==> outcome.value == pid
        &&& outcome.resume == saved
        &&& outcome.action == SyscallAction::Nothing
        &&& unchanged(before, after)
    } else if num == 3 {
        let valid = arg2 <= usize::MAX && before.processes@.contains_key(pid) && exists|i: int|
            0 <= i < before.processes@[pid].space().segments().len() && (
            #[trigger] before.processes@[pid].space().segments()[i]).contains_range_spec(
                arg1,
                arg2 as usize,
            );
        &&& outcome == if valid {
            SyscallOutcome {
                value: 0i64,
                resume: saved,
                action: SyscallAction::Exec { name_ptr: arg1, name_length: arg2 as usize },
            }
        } else {
            SyscallOutcome { value: -1i64, resume: saved, action: SyscallAction::Nothing }
        }
        &&& unchanged(before, after)
    } else if num == 4 {
        &&& outcome.value == 0
        &&& outcome.action == SyscallAction::Nothing
        &&& leave_post(
            before,
            after,
            cpu_id,
            ThreadState::Sleeping(offset_of(now, sleep_span(arg1))),
            saved,
            outcome.resume,
        )
    } else if num == 5 {
        &&& outcome.resume == saved
        &&& outcome.action == SyscallAction::Nothing
        &&& create_thread_post(before, after, cpu_id, arg1, arg2, arg3, arg4, arg5, arg6, outcome.value)
    } else if num == 6 {
        &&& outcome.value == 0
        &&& outcome.action == SyscallAction::Nothing
        &&& leave_post(before, after, cpu_id, ThreadState::Dead, saved, outcome.resume)
    } else {
        unknown_syscall_post(before, after, cpu_id, saved, num, outcome)
    }
}

/// This function accepts the syscalls and calls the corresponding handlers.
/// `saved` is the context of the calling thread and `now` the current time;
/// the outcome holds the value that the call returns, the context that the
/// CPU is to resume, and what is left for the caller to do. See
/// [`syscall_post`].
pub fn syscall_handler(
    kernel: &mut Kernel,
    cpu: &mut Cpu,
    saved: Context,
    now: Timestamp,
    num: u64,
    arg1: u64,
    arg2: u64,
    arg3: u64,
    arg4: u64,
    arg5: u64,
    arg6: u64,
) -> (outcome: SyscallOutcome)
    requires
        old(kernel).wf(),
        old(kernel).runs_on(*old(cpu)),
    ensures
        final(kernel).wf(),
        final(kernel).clock == old(kernel).clock,
        final(kernel).fault_policy == old(kernel).fault_policy,
        final(cpu).is_preemptable() == old(cpu).is_preemptable(),
        final(cpu).id_spec() == old(cpu).id_spec(),
        syscall_post(
            *old(kernel),
            *final(kernel),
            old(cpu).id_spec() as int,
            saved,
            now,
            num,
            arg1,
            arg2,
            arg3,
            arg4,
            arg5,
            arg6,
            outcome,
        ),
{
    match num {
        0 => {
            let (value, action) = print_char((arg1 % 256) as u8);
            SyscallOutcome { value, resume: saved, action }
        },
        1 => {
            let (value, resume) = kill_process(kernel, cpu, saved);
            SyscallOutcome { value, resume, action: SyscallAction::Nothing }
        },
        2 => SyscallOutcome {
            value: return_pid(kernel, cpu),
            resume: saved,
            action: SyscallAction::Nothing,
        },
        3 => {
            if arg2 <= usize::MAX as u64 {
                let (value, action) = exec(kernel, cpu, arg1, arg2 as usize);
                SyscallOutcome { value, resume: saved, action }
            } else {
                SyscallOutcome { value: -1, resume: saved, action: SyscallAction::Nothing }
            }
        },
        4 => {
            let (value, resume) = sleep(kernel, cpu, saved, now, arg1);
            SyscallOutcome { value, resume, action: SyscallAction::Nothing }
        },
        5 => SyscallOutcome {
            value: create_thread(kernel, cpu, arg1, arg2, arg3, arg4, arg5, arg6),
            resume: saved,
            action: SyscallAction::Nothing,
        },
        6 => {
            let (value, resume) = kill_thread(kernel, cpu, saved);
            SyscallOutcome { value, resume, action: SyscallAction::Nothing }
        },
        _ => unknown_syscall(kernel, cpu, saved, num),
    }
}

} // verus!
