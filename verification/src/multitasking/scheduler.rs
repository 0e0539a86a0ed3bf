//! The scheduler: the ready list, the sleeping list, and the threads that run
//! on each CPU.

use vstd::prelude::*;
use crate::arch::context::Context;
use crate::memory::MemoryController;
use crate::multitasking::pcb::{ProcessList, PCB};
use crate::multitasking::tcb::{SleepTimeSortedTCB, ThreadState, TCB};
use crate::multitasking::ProcessID;
use crate::sync::preemptable_mutex::PreemptableMutex;
use crate::sync::time::Timestamp;
use crate::sync::Cpu;

verus! {

/// Whether the thread at `index` is the one that `ReadyList::pop` takes: no
/// thread has a higher priority, and every thread before it has a lower one.
pub open spec fn is_next_ready(threads: Seq<TCB>, index: int) -> bool {
    &&& 0 <= index < threads.len()
    &&& forall|j: int| 0 <= j < threads.len() ==> (#[trigger] threads[j]).priority <= threads[index].priority
    &&& forall|j: int| 0 <= j < index ==> (#[trigger] threads[j]).priority < threads[index].priority
}

/// The index of the thread that `ReadyList::pop` takes.
pub open spec fn next_ready(threads: Seq<TCB>) -> int {
    choose|index: int| is_next_ready(threads, index)
}

/// At most one index is the next.
pub proof fn lemma_next_ready_unique(threads: Seq<TCB>, a: int, b: int)
    requires
        is_next_ready(threads, a),
        is_next_ready(threads, b),
    ensures
        a == b,
{
    if a < b {
        assert(threads[a].priority < threads[b].priority);
        assert(threads[b].priority <= threads[a].priority);
    } else if b < a {
        assert(threads[b].priority < threads[a].priority);
        assert(threads[a].priority <= threads[b].priority);
    }
}

/// The threads that are ready to run, with the highest priority first out.
/// Among threads of one priority the one pushed first is first out.
///
/// The list is a plain vector that is searched on every pop. The binary
/// heap of the standard library has no specification that the verifier
/// knows, and it leaves the order among equal priorities open; the vector
/// makes "first out" a statement that can be proved.
pub struct ReadyList {
    threads: Vec<TCB>,
}

impl View for ReadyList {
    type V = Seq<TCB>;

    /// The threads in the order in which they were pushed.
    closed spec fn view(&self) -> Seq<TCB> {
        self.threads@
    }
}

/// Every thread can stand in a list of the scheduler.
pub open spec fn ready_wf(threads: Seq<TCB>) -> bool {
    forall|i: int| 0 <= i < threads.len() ==> (#[trigger] threads[i]).queueable()
}

/// Every thread sleeps and can stand in a list of the scheduler.
pub open spec fn sleeping_wf(threads: Seq<SleepTimeSortedTCB>) -> bool {
    forall|i: int|
        0 <= i < threads.len() ==> (#[trigger] threads[i]).0.queueable()
            && threads[i].0.state is Sleeping
}

impl ReadyList {
    /// The stacks of every thread lie within their regions.
    pub open spec fn wf(&self) -> bool {
        ready_wf(self@)
    }

    /// An empty list.
    pub fn new() -> (list: ReadyList)
        ensures
            list@ == Seq::<TCB>::empty(),
            list.wf(),
    {
        ReadyList { threads: Vec::new() }
    }

    /// The number of threads in the list.
    pub fn len(&self) -> (len: usize)
        ensures
            len == self@.len(),
    {
        self.threads.len()
    }

    /// Whether the list is empty.
    pub fn is_empty(&self) -> (empty: bool)
        ensures
            empty == (self@.len() == 0),
    {
        self.threads.len() == 0
    }

    /// Adds the thread to the list.
    pub fn push(&mut self, thread: TCB)
        ensures
            final(self)@ == old(self)@.push(thread),
            old(self).wf() && thread.queueable() ==> final(self).wf(),
    {
        self.threads.push(thread);
        proof {
            if old(self).wf() && thread.queueable() {
                assert forall|i: int| 0 <= i < self@.len() implies (#[trigger] self@[i]).queueable() by {
                    if i < old(self)@.len() {
                        assert(self@[i] == old(self)@[i]);
                    }
                }
            }
        }
    }

    /// The priority of the thread that `pop` would take.
    pub fn peek_priority(&self) -> (priority: Option<i32>)
        ensures
            self@.len() == 0 ==> priority is None,
            self@.len() > 0 ==> priority == Some(self@[next_ready(self@)].priority)
                && is_next_ready(self@, next_ready(self@)),
    {
        if self.threads.len() == 0 {
            return None;
        }
        let best = self.next_index();
        Some(self.threads[best].priority)
    }

    fn next_index(&self) -> (best: usize)
        requires
            self@.len() > 0,
        ensures
            is_next_ready(self@, best as int),
            best == next_ready(self@),
    {
        let mut best: usize = 0;
        let mut i: usize = 1;
        while i < self.threads.len()
            invariant
                1 <= i <= self.threads@.len(),
                best < i,
                forall|j: int| 0 <= j < i ==> (#[trigger] self.threads@[j]).priority
                    <= self.threads@[best as int].priority,
                forall|j: int| 0 <= j < best ==> (#[trigger] self.threads@[j]).priority
                    < self.threads@[best as int].priority,
            decreases self.threads@.len() - i,
        {
            if self.threads[i].priority > self.threads[best].priority {
                best = i;
            }
            i += 1;
        }
        proof {
            assert(is_next_ready(self@, best as int));
            lemma_next_ready_unique(self@, best as int, next_ready(self@));
        }
        best
    }

    /// Takes the thread with the highest priority out of the list; among
    /// several of that priority, the one that was pushed first.
    pub fn pop(&mut self) -> (thread: Option<TCB>)
        ensures
            old(self)@.len() == 0 ==> thread is None && final(self)@ == old(self)@,
            old(self)@.len() > 0 ==> {
                &&& is_next_ready(old(self)@, next_ready(old(self)@))
                &&& thread == Some(old(self)@[next_ready(old(self)@)])
                &&& final(self)@ == old(self)@.remove(next_ready(old(self)@))
            },
            old(self).wf() ==> final(self).wf(),
            old(self).wf() && thread is Some ==> thread.unwrap().queueable(),
    {
        if self.threads.len() == 0 {
            return None;
        }
        let best = self.next_index();
        let thread = self.threads.remove(best);
        proof {
            if old(self).wf() {
                assert forall|i: int| 0 <= i < self@.len() implies (#[trigger] self@[i]).queueable() by {
                    if i < best {
                        assert(self@[i] == old(self)@[i]);
                    } else {
                        assert(self@[i] == old(self)@[i + 1]);
                    }
                }
            }
        }
        Some(thread)
    }
}

/// Whether the thread at `index` is the one that `SleepingList::pop` takes:
/// no thread wakes earlier, and every thread before it wakes later.
pub open spec fn is_next_waking(threads: Seq<SleepTimeSortedTCB>, index: int) -> bool {
    &&& 0 <= index < threads.len()
    &&& forall|j: int|
        0 <= j < threads.len() ==> (#[trigger] threads[j]).wake_time().microseconds
            >= threads[index].wake_time().microseconds
    &&& forall|j: int|
        0 <= j < index ==> (#[trigger] threads[j]).wake_time().microseconds
            > threads[index].wake_time().microseconds
}

/// The index of the thread that `SleepingList::pop` takes.
pub open spec fn next_waking(threads: Seq<SleepTimeSortedTCB>) -> int {
    choose|index: int| is_next_waking(threads, index)
}

/// At most one index is the next.
pub proof fn lemma_next_waking_unique(threads: Seq<SleepTimeSortedTCB>, a: int, b: int)
    requires
        is_next_waking(threads, a),
        is_next_waking(threads, b),
    ensures
        a == b,
{
    if a < b {
        assert(threads[a].wake_time().microseconds > threads[b].wake_time().microseconds);
        assert(threads[a].wake_time().microseconds >= threads[b].wake_time().microseconds);
        assert(threads[b].wake_time().microseconds >= threads[a].wake_time().microseconds);
    } else if b < a {
        assert(threads[b].wake_time().microseconds > threads[a].wake_time().microseconds);
        assert(threads[a].wake_time().microseconds >= threads[b].wake_time().microseconds);
    }
}

/// The threads that sleep, with the earliest wake time first out. Among
/// threads of one wake time the one pushed first is first out. Like the
/// ready list it is a plain vector that is searched on every pop.
pub struct SleepingList {
    threads: Vec<SleepTimeSortedTCB>,
}

impl View for SleepingList {
    type V = Seq<SleepTimeSortedTCB>;

    /// The threads in the order in which they were pushed.
    closed spec fn view(&self) -> Seq<SleepTimeSortedTCB> {
        self.threads@
    }
}

impl SleepingList {
    /// Every thread sleeps, and its stacks lie within their regions.
    pub open spec fn wf(&self) -> bool {
        sleeping_wf(self@)
    }

    /// An empty list.
    pub fn new() -> (list: SleepingList)
        ensures
            list@ == Seq::<SleepTimeSortedTCB>::empty(),
            list.wf(),
    {
        SleepingList { threads: Vec::new() }
    }

    /// The number of threads in the list.
    pub fn len(&self) -> (len: usize)
        ensures
            len == self@.len(),
    {
        self.threads.len()
    }

    /// Adds the thread, which must be sleeping, to the list.
    pub fn push(&mut self, thread: SleepTimeSortedTCB)
        requires
            thread.0.state is Sleeping,
        ensures
            final(self)@ == old(self)@.push(thread),
            old(self).wf() && thread.0.queueable() ==> final(self).wf(),
    {
        self.threads.push(thread);
    }

    fn next_index(&self) -> (best: usize)
        requires
            self.wf(),
            self@.len() > 0,
        ensures
            is_next_waking(self@, best as int),
            best == next_waking(self@),
    {
        let mut best: usize = 0;
        let mut i: usize = 1;
        while i < self.threads.len()
            invariant
                self.wf(),
                1 <= i <= self.threads@.len(),
                best < i,
                forall|j: int|
                    0 <= j < i ==> (#[trigger] self.threads@[j]).wake_time().microseconds
                        >= self.threads@[best as int].wake_time().microseconds,
                forall|j: int|
                    0 <= j < best ==> (#[trigger] self.threads@[j]).wake_time().microseconds
                        > self.threads@[best as int].wake_time().microseconds,
            decreases self.threads@.len() - i,
        {
            assert(self@[i as int].0.state is Sleeping);
            assert(self@[best as int].0.state is Sleeping);
            if self.threads[i].get_sleep_time().microseconds
                < self.threads[best].get_sleep_time().microseconds {
                best = i;
            }
            i += 1;
        }
        proof {
            assert(is_next_waking(self@, best as int));
            lemma_next_waking_unique(self@, best as int, next_waking(self@));
        }
        best
    }

    /// The earliest wake time in the list.
    pub fn peek(&self) -> (time: Option<Timestamp>)
        requires
            self.wf(),
        ensures
            self@.len() == 0 ==> time is None,
            self@.len() > 0 ==> time == Some(self@[next_waking(self@)].wake_time())
                && is_next_waking(self@, next_waking(self@)),
    {
        if self.threads.len() == 0 {
            return None;
        }
        let best = self.next_index();
        assert(self@[best as int].0.state is Sleeping);
        Some(self.threads[best].get_sleep_time())
    }

    /// Takes the thread with the earliest wake time out of the list; among
    /// several of that wake time, the one that was pushed first.
    pub fn pop(&mut self) -> (thread: Option<SleepTimeSortedTCB>)
        requires
            old(self).wf(),
        ensures
            final(self).wf(),
            old(self)@.len() == 0 ==> thread is None && final(self)@ == old(self)@,
            old(self)@.len() > 0 ==> {
                &&& is_next_waking(old(self)@, next_waking(old(self)@))
                &&& thread == Some(old(self)@[next_waking(old(self)@)])
                &&& final(self)@ == old(self)@.remove(next_waking(old(self)@))
                &&& thread.unwrap().0.queueable()
                &&& thread.unwrap().0.state is Sleeping
            },
    {
        if self.threads.len() == 0 {
            return None;
        }
        let best = self.next_index();
        let thread = self.threads.remove(best);
        proof {
            assert forall|i: int| 0 <= i < self@.len() implies (#[trigger] self@[i]).0.queueable()
                && self@[i].0.state is Sleeping by {
                if i < best {
                    assert(self@[i] == old(self)@[i]);
                } else {
                    assert(self@[i] == old(self)@[i + 1]);
                }
            }
        }
        Some(thread)
    }
}

/// Whether the two are different threads: threads of different processes,
/// or threads with different IDs.
pub open spec fn apart(a: TCB, b: TCB) -> bool {
    a.pid != b.pid || a.id != b.id
}

/// Whether `thread` is none of the threads.
pub open spec fn absent(threads: Seq<TCB>, thread: TCB) -> bool {
    forall|i: int| 0 <= i < threads.len() ==> apart(#[trigger] threads[i], thread)
}

/// Whether `thread` is none of the sleeping threads.
pub open spec fn absent_asleep(threads: Seq<SleepTimeSortedTCB>, thread: TCB) -> bool {
    forall|i: int| 0 <= i < threads.len() ==> apart((#[trigger] threads[i]).0, thread)
}

/// Whether no thread stands twice among the threads.
pub open spec fn distinct(threads: Seq<TCB>) -> bool {
    forall|i: int, j: int|
        0 <= i < j < threads.len() ==> apart(#[trigger] threads[i], #[trigger] threads[j])
}

/// Whether no thread stands twice among the sleeping threads.
pub open spec fn distinct_asleep(threads: Seq<SleepTimeSortedTCB>) -> bool {
    forall|i: int, j: int|
        0 <= i < j < threads.len() ==> apart((#[trigger] threads[i]).0, (#[trigger] threads[j]).0)
}

/// Whether the thread, unless it is an idle thread, is on the thread list of
/// its process.
pub open spec fn listed(processes: Map<ProcessID, PCB>, thread: TCB) -> bool {
    thread.pid != 0 ==> processes.contains_key(thread.pid)
        && processes[thread.pid].threads().contains(thread.id)
}

/// Whether every thread that is on the thread list of a process in `before`
/// is on the list of that process in `after`.
pub open spec fn lists_kept(before: Map<ProcessID, PCB>, after: Map<ProcessID, PCB>) -> bool {
    forall|pid: ProcessID, id: crate::multitasking::ThreadID|
        before.contains_key(pid) && #[trigger] before[pid].threads().contains(id)
            ==> after.contains_key(pid) && after[pid].threads().contains(id)
}

/// The permit to read what a lock protects without taking the lock. Only
/// the scheduler can make one: it alone knows the moments at which no other
/// CPU touches what it reads.
pub struct LockBypass {
    permit: (),
}

impl LockBypass {
    /// The permit.
    fn new() -> LockBypass {
        LockBypass { permit: () }
    }
}

/// The scheduler of the kernel: the two lists, each behind its own lock, and
/// for each CPU the thread that runs on it and, while another thread runs
/// there, its parked idle thread.
pub struct Scheduler {
    ready_list: PreemptableMutex<ReadyList>,
    sleeping_list: PreemptableMutex<SleepingList>,
    current_threads: Vec<TCB>,
    idle_threads: Vec<Option<TCB>>,
}

/// The thread as it is put away when it stops running: with the context it
/// was interrupted in, and in the given state.
pub open spec fn put_away(thread: TCB, state: ThreadState, saved: Context) -> TCB {
    TCB {
        id: thread.id,
        pid: thread.pid,
        kernel_stack: thread.kernel_stack,
        user_stack: thread.user_stack,
        state,
        priority: thread.priority,
        context: saved,
    }
}

impl Scheduler {
    /// The ready list, in the order in which the threads were pushed.
    pub closed spec fn ready(&self) -> Seq<TCB> {
        self.ready_list.value()@
    }

    /// The sleeping list, in the order in which the threads were pushed.
    pub closed spec fn sleeping(&self) -> Seq<SleepTimeSortedTCB> {
        self.sleeping_list.value()@
    }

    /// The number of CPUs.
    pub closed spec fn cpu_count(&self) -> nat {
        self.current_threads@.len()
    }

    /// The thread that runs on the CPU.
    pub closed spec fn current(&self, cpu: int) -> TCB {
        self.current_threads@[cpu]
    }

    /// The idle thread of the CPU, while it is parked.
    pub closed spec fn idle(&self, cpu: int) -> Option<TCB> {
        self.idle_threads@[cpu]
    }

    /// Neither list is locked, and there is an idle slot for each CPU.
    pub closed spec fn at_rest(&self) -> bool {
        &&& !self.ready_list.is_locked()
        &&& !self.sleeping_list.is_locked()
        &&& self.idle_threads@.len() == self.current_threads@.len()
    }

    /// On the CPU either the idle thread runs or it is parked, and the stacks
    /// of both threads lie within their regions.
    pub open spec fn cpu_wf(&self, cpu: int) -> bool {
        &&& self.current(cpu).wf()
        &&& self.idle(cpu) is None ==> self.current(cpu).pid == 0
        &&& self.idle(cpu) is Some ==> self.idle(cpu).unwrap().wf() && self.idle(cpu).unwrap().pid
            == 0 && self.idle(cpu).unwrap().state == ThreadState::Ready && self.current(cpu).pid
            != 0
    }

    /// Whether a thread stands in one place only: no thread stands twice in
    /// the ready list or twice in the sleeping list, none stands in both,
    /// the thread that runs on a CPU stands in neither, and no thread of a
    /// process runs on two CPUs.
    pub open spec fn each_once(&self) -> bool {
        &&& distinct(self.ready())
        &&& distinct_asleep(self.sleeping())
        &&& forall|i: int|
            0 <= i < self.ready().len() ==> absent_asleep(
                self.sleeping(),
                #[trigger] self.ready()[i],
            )
        &&& forall|cpu: int|
            0 <= cpu < self.cpu_count() ==> absent(self.ready(), #[trigger] self.current(cpu))
                && absent_asleep(self.sleeping(), self.current(cpu))
        &&& forall|cpu: int, other: int|
            0 <= cpu < self.cpu_count() && 0 <= other < self.cpu_count() && cpu != other
                && self.current(cpu).pid != 0 ==> apart(
                #[trigger] self.current(cpu),
                #[trigger] self.current(other),
            )
    }

    /// Whether the thread stands nowhere in the scheduler.
    pub open spec fn lacks(&self, thread: TCB) -> bool {
        &&& absent(self.ready(), thread)
        &&& absent_asleep(self.sleeping(), thread)
        &&& forall|cpu: int|
            0 <= cpu < self.cpu_count() ==> apart(#[trigger] self.current(cpu), thread)
    }

    /// Whether every thread of a process that stands in the scheduler is on
    /// the thread list of its process.
    pub open spec fn registered(&self, processes: Map<ProcessID, PCB>) -> bool {
        &&& forall|i: int| 0 <= i < self.ready().len() ==> listed(processes, #[trigger] self.ready()[i])
        &&& forall|i: int|
            0 <= i < self.sleeping().len() ==> listed(processes, (#[trigger] self.sleeping()[i]).0)
        &&& forall|cpu: int|
            0 <= cpu < self.cpu_count() ==> listed(processes, #[trigger] self.current(cpu))
    }

    /// Between two operations the scheduler is at rest, every thread it holds
    /// has its stacks within their regions, on each CPU either the idle
    /// thread runs or it is parked, and every thread stands in one place
    /// only.
    pub open spec fn wf(&self) -> bool {
        &&& self.at_rest()
        &&& ready_wf(self.ready())
        &&& sleeping_wf(self.sleeping())
        &&& forall|cpu: int| 0 <= cpu < self.cpu_count() ==> #[trigger] self.cpu_wf(cpu)
        &&& self.each_once()
    }

    /// A scheduler for as many CPUs as there are idle threads: on each CPU its
    /// idle thread runs, and both lists are empty.
    pub fn new(idle_threads: Vec<TCB>) -> (scheduler: Scheduler)
        requires
            forall|i: int|
                0 <= i < idle_threads@.len() ==> (#[trigger] idle_threads@[i]).wf()
                    && idle_threads@[i].pid == 0,
        ensures
            scheduler.wf(),
            scheduler.cpu_count() == idle_threads@.len(),
            scheduler.ready() == Seq::<TCB>::empty(),
            scheduler.sleeping() == Seq::<SleepTimeSortedTCB>::empty(),
            forall|cpu: int|
                0 <= cpu < idle_threads@.len() ==> scheduler.idle(cpu) is None
                    && #[trigger] scheduler.current(cpu) == put_away(
                    idle_threads@[cpu],
                    ThreadState::Running,
                    idle_threads@[cpu].context,
                ),
    {
        let mut current_threads = idle_threads;
        let mut parked: Vec<Option<TCB>> = Vec::new();
        let mut i: usize = 0;
        while i < current_threads.len()
            invariant
                i <= current_threads@.len(),
                current_threads@.len() == idle_threads@.len(),
                parked@.len() == i,
                forall|j: int| 0 <= j < i ==> (#[trigger] parked@[j]) is None,
                forall|j: int|
                    0 <= j < i ==> #[trigger] current_threads@[j] == put_away(
                        idle_threads@[j],
                        ThreadState::Running,
                        idle_threads@[j].context,
                    ),
                forall|j: int|
                    i <= j < current_threads@.len() ==> #[trigger] current_threads@[j]
                        == idle_threads@[j],
            decreases current_threads@.len() - i,
        {
            current_threads[i].state = ThreadState::Running;
            parked.push(None);
            i += 1;
        }
        let scheduler = Scheduler {
            ready_list: PreemptableMutex::new(ReadyList::new()),
            sleeping_list: PreemptableMutex::new(SleepingList::new()),
            current_threads,
            idle_threads: parked,
        };
        proof {
            assert forall|cpu: int| 0 <= cpu < scheduler.cpu_count() implies #[trigger] scheduler.cpu_wf(
                cpu,
            ) by {
                assert(idle_threads@[cpu].wf());
                assert(scheduler.current(cpu) == put_away(
                    idle_threads@[cpu],
                    ThreadState::Running,
                    idle_threads@[cpu].context,
                ));
            }
        }
        scheduler
    }

    /// The number of CPUs.
    pub fn cpus(&self) -> (count: usize)
        ensures
            count == self.cpu_count(),
    {
        self.current_threads.len()
    }

    /// The thread that runs on the CPU.
    pub fn current_thread(&self, cpu_id: usize) -> (thread: &TCB)
        requires
            cpu_id < self.cpu_count(),
        ensures
            *thread == self.current(cpu_id as int),
    {
        &self.current_threads[cpu_id]
    }

    /// The number of threads in the ready list.
    pub fn ready_count(&self) -> (count: usize)
        ensures
            count == self.ready().len(),
    {
        self.ready_list.without_locking(&LockBypass::new()).len()
    }

    /// The number of threads in the sleeping list.
    pub fn sleeping_count(&self) -> (count: usize)
        ensures
            count == self.sleeping().len(),
    {
        self.sleeping_list.without_locking(&LockBypass::new()).len()
    }

    /// Whether the scheduler differs from `other` in nothing but the ready
    /// list.
    pub open spec fn same_but_ready(&self, other: Scheduler) -> bool {
        &&& self.sleeping() == other.sleeping()
        &&& self.cpu_count() == other.cpu_count()
        &&& forall|cpu: int|
            0 <= cpu < self.cpu_count() ==> #[trigger] self.current(cpu) == other.current(cpu)
                && self.idle(cpu) == other.idle(cpu)
    }

    /// Whether the scheduler differs from `other` in nothing but the thread
    /// that runs on the CPU.
    pub open spec fn same_but_current(&self, other: Scheduler, cpu_id: int) -> bool {
        &&& self.ready() == other.ready()
        &&& self.sleeping() == other.sleeping()
        &&& self.cpu_count() == other.cpu_count()
        &&& forall|cpu: int|
            0 <= cpu < self.cpu_count() ==> #[trigger] self.idle(cpu) == other.idle(cpu) && (cpu
                != cpu_id ==> self.current(cpu) == other.current(cpu))
    }

    /// A scheduler with the same lists, in which on each CPU a thread with
    /// the same process and ID runs, holds every thread once if the other
    /// does.
    pub proof fn lemma_same_threads(&self, other: Scheduler)
        requires
            other.each_once(),
            self.ready() == other.ready(),
            self.sleeping() == other.sleeping(),
            self.cpu_count() == other.cpu_count(),
            forall|cpu: int|
                0 <= cpu < self.cpu_count() ==> (#[trigger] self.current(cpu)).pid == other.current(
                    cpu,
                ).pid && self.current(cpu).id == other.current(cpu).id,
        ensures
            self.each_once(),
    {
        assert forall|cpu: int| 0 <= cpu < self.cpu_count() implies absent(
            self.ready(),
            #[trigger] self.current(cpu),
        ) && absent_asleep(self.sleeping(), self.current(cpu)) by {
            assert(absent(other.ready(), other.current(cpu)));
            assert(absent_asleep(other.sleeping(), other.current(cpu)));
        }
        assert forall|cpu: int, d: int|
            0 <= cpu < self.cpu_count() && 0 <= d < self.cpu_count() && cpu != d
                && self.current(cpu).pid != 0 implies apart(
            #[trigger] self.current(cpu),
            #[trigger] self.current(d),
        ) by {
            assert(apart(other.current(cpu), other.current(d)));
        }
    }

    /// Moving a thread from the sleeping list to the end of the ready list
    /// keeps every thread in one place, and on the thread list of its
    /// process.
    pub proof fn lemma_moved_to_ready(
        &self,
        other: Scheduler,
        index: int,
        thread: TCB,
        processes: Map<ProcessID, PCB>,
    )
        requires
            other.each_once(),
            0 <= index < other.sleeping().len(),
            self.sleeping() == other.sleeping().remove(index),
            self.ready() == other.ready().push(thread),
            thread.pid == other.sleeping()[index].0.pid,
            thread.id == other.sleeping()[index].0.id,
            self.cpu_count() == other.cpu_count(),
            forall|cpu: int|
                0 <= cpu < self.cpu_count() ==> #[trigger] self.current(cpu) == other.current(cpu),
        ensures
            self.each_once(),
            other.registered(processes) ==> self.registered(processes),
    {
        let ready0 = other.ready();
        let ready1 = self.ready();
        let sleeping0 = other.sleeping();
        let sleeping1 = self.sleeping();
        let moved = sleeping0[index].0;
        assert forall|k: int| 0 <= k < sleeping1.len() implies #[trigger] sleeping1[k] == sleeping0[if k
            < index {
            k
        } else {
            k + 1
        }] by {}
        assert forall|i: int, j: int| 0 <= i < j < ready1.len() implies apart(
            #[trigger] ready1[i],
            #[trigger] ready1[j],
        ) by {
            assert(ready1[i] == ready0[i]);
            if j < ready0.len() {
                assert(ready1[j] == ready0[j]);
            } else {
                assert(absent_asleep(sleeping0, ready0[i]));
                assert(apart(sleeping0[index].0, ready0[i]));
            }
        }
        assert forall|i: int, j: int| 0 <= i < j < sleeping1.len() implies apart(
            (#[trigger] sleeping1[i]).0,
            (#[trigger] sleeping1[j]).0,
        ) by {
            let a = if i < index { i } else { i + 1 };
            let b = if j < index { j } else { j + 1 };
            assert(sleeping1[i] == sleeping0[a]);
            assert(sleeping1[j] == sleeping0[b]);
            assert(apart(sleeping0[a].0, sleeping0[b].0));
        }
        assert forall|i: int| 0 <= i < ready1.len() implies absent_asleep(
            sleeping1,
            #[trigger] ready1[i],
        ) by {
            assert forall|k: int| 0 <= k < sleeping1.len() implies apart(
                (#[trigger] sleeping1[k]).0,
                ready1[i],
            ) by {
                let from = if k < index { k } else { k + 1 };
                assert(sleeping1[k] == sleeping0[from]);
                if i < ready0.len() {
                    assert(ready1[i] == ready0[i]);
                    assert(absent_asleep(sleeping0, ready0[i]));
                    assert(apart(sleeping0[from].0, ready0[i]));
                } else {
                    if from < index {
                        assert(apart(sleeping0[from].0, sleeping0[index].0));
                    } else {
                        assert(apart(sleeping0[index].0, sleeping0[from].0));
                    }
                }
            }
        }
        assert forall|cpu: int| 0 <= cpu < self.cpu_count() implies absent(
            ready1,
            #[trigger] self.current(cpu),
        ) && absent_asleep(sleeping1, self.current(cpu)) by {
            assert(self.current(cpu) == other.current(cpu));
            assert(absent(ready0, other.current(cpu)));
            assert(absent_asleep(sleeping0, other.current(cpu)));
            assert forall|k: int| 0 <= k < ready1.len() implies apart(
                #[trigger] ready1[k],
                self.current(cpu),
            ) by {
                if k < ready0.len() {
                    assert(ready1[k] == ready0[k]);
                } else {
                    assert(apart(sleeping0[index].0, other.current(cpu)));
                }
            }
            assert forall|k: int| 0 <= k < sleeping1.len() implies apart(
                (#[trigger] sleeping1[k]).0,
                self.current(cpu),
            ) by {
                let from = if k < index { k } else { k + 1 };
                assert(sleeping1[k] == sleeping0[from]);
                assert(apart(sleeping0[from].0, other.current(cpu)));
            }
        }
        assert forall|cpu: int, d: int|
            0 <= cpu < self.cpu_count() && 0 <= d < self.cpu_count() && cpu != d
                && self.current(cpu).pid != 0 implies apart(
            #[trigger] self.current(cpu),
            #[trigger] self.current(d),
        ) by {
            assert(apart(other.current(cpu), other.current(d)));
        }
        if other.registered(processes) {
            assert forall|i: int| 0 <= i < ready1.len() implies listed(
                processes,
                #[trigger] ready1[i],
            ) by {
                if i < ready0.len() {
                    assert(ready1[i] == ready0[i]);
                } else {
                    assert(listed(processes, sleeping0[index].0));
                }
            }
            assert forall|i: int| 0 <= i < sleeping1.len() implies listed(
                processes,
                (#[trigger] sleeping1[i]).0,
            ) by {
                let from = if i < index { i } else { i + 1 };
                assert(sleeping1[i] == sleeping0[from]);
                assert(listed(processes, sleeping0[from].0));
            }
            assert forall|cpu: int| 0 <= cpu < self.cpu_count() implies listed(
                processes,
                #[trigger] self.current(cpu),
            ) by {
                assert(listed(processes, other.current(cpu)));
            }
        }
    }

    /// Taking a thread out of the ready list keeps every thread in one
    /// place, and the thread that was taken out then stands nowhere.
    pub proof fn lemma_popped(&self, other: Scheduler, index: int, processes: Map<ProcessID, PCB>)
        requires
            other.each_once(),
            0 <= index < other.ready().len(),
            self.ready() == other.ready().remove(index),
            self.sleeping() == other.sleeping(),
            self.cpu_count() == other.cpu_count(),
            forall|cpu: int|
                0 <= cpu < self.cpu_count() ==> #[trigger] self.current(cpu) == other.current(cpu),
        ensures
            self.each_once(),
            self.lacks(other.ready()[index]),
            other.registered(processes) ==> self.registered(processes) && listed(
                processes,
                other.ready()[index],
            ),
            forall|thread: TCB| other.lacks(thread) ==> self.lacks(thread),
    {
        let ready0 = other.ready();
        let ready1 = self.ready();
        let popped = ready0[index];
        assert forall|k: int| 0 <= k < ready1.len() implies #[trigger] ready1[k] == ready0[if k
            < index {
            k
        } else {
            k + 1
        }] by {}
        assert forall|i: int, j: int| 0 <= i < j < ready1.len() implies apart(
            #[trigger] ready1[i],
            #[trigger] ready1[j],
        ) by {
            let a = if i < index { i } else { i + 1 };
            let b = if j < index { j } else { j + 1 };
            assert(ready1[i] == ready0[a] && ready1[j] == ready0[b]);
            assert(apart(ready0[a], ready0[b]));
        }
        assert forall|i: int| 0 <= i < ready1.len() implies absent_asleep(
            self.sleeping(),
            #[trigger] ready1[i],
        ) by {
            let a = if i < index { i } else { i + 1 };
            assert(ready1[i] == ready0[a]);
            assert(absent_asleep(other.sleeping(), ready0[a]));
        }
        assert forall|k: int| 0 <= k < ready1.len() implies apart(#[trigger] ready1[k], popped) by {
            let a = if k < index { k } else { k + 1 };
            assert(ready1[k] == ready0[a]);
            if a < index {
                assert(apart(ready0[a], ready0[index]));
            } else {
                assert(apart(ready0[index], ready0[a]));
            }
        }
        assert(absent_asleep(other.sleeping(), ready0[index]));
        assert forall|cpu: int| 0 <= cpu < self.cpu_count() implies absent(
            ready1,
            #[trigger] self.current(cpu),
        ) && absent_asleep(self.sleeping(), self.current(cpu)) && apart(self.current(cpu), popped) by {
            assert(self.current(cpu) == other.current(cpu));
            assert(absent(ready0, other.current(cpu)));
            assert(absent_asleep(other.sleeping(), other.current(cpu)));
            assert(apart(ready0[index], other.current(cpu)));
            assert forall|k: int| 0 <= k < ready1.len() implies apart(
                #[trigger] ready1[k],
                self.current(cpu),
            ) by {
                let a = if k < index { k } else { k + 1 };
                assert(ready1[k] == ready0[a]);
                assert(apart(ready0[a], other.current(cpu)));
            }
        }
        assert forall|cpu: int, d: int|
            0 <= cpu < self.cpu_count() && 0 <= d < self.cpu_count() && cpu != d
                && self.current(cpu).pid != 0 implies apart(
            #[trigger] self.current(cpu),
            #[trigger] self.current(d),
        ) by {
            assert(apart(other.current(cpu), other.current(d)));
        }
        if other.registered(processes) {
            assert forall|i: int| 0 <= i < ready1.len() implies listed(
                processes,
                #[trigger] ready1[i],
            ) by {
                let a = if i < index { i } else { i + 1 };
                assert(ready1[i] == ready0[a]);
                assert(listed(processes, ready0[a]));
            }
            assert forall|cpu: int| 0 <= cpu < self.cpu_count() implies listed(
                processes,
                #[trigger] self.current(cpu),
            ) by {
                assert(listed(processes, other.current(cpu)));
            }
            assert(listed(processes, ready0[index]));
        }
        assert forall|thread: TCB| other.lacks(thread) implies self.lacks(thread) by {
            assert forall|k: int| 0 <= k < ready1.len() implies apart(#[trigger] ready1[k], thread) by {
                let a = if k < index { k } else { k + 1 };
                assert(ready1[k] == ready0[a]);
                assert(apart(ready0[a], thread));
            }
            assert forall|cpu: int| 0 <= cpu < self.cpu_count() implies apart(
                #[trigger] self.current(cpu),
                thread,
            ) by {
                assert(apart(other.current(cpu), thread));
            }
        }
    }

    /// When a thread that stands nowhere in the scheduler is dropped, every
    /// thread of the scheduler stays on the thread list of its process.
    pub proof fn lemma_registered_after_destroy(
        &self,
        dropped: TCB,
        processes0: Map<ProcessID, PCB>,
        processes1: Map<ProcessID, PCB>,
        memory0: MemoryController,
        memory1: MemoryController,
    )
        requires
            self.registered(processes0),
            self.lacks(dropped),
            dropped.destroy_post(processes0, processes1, memory0, memory1),
        ensures
            self.registered(processes1),
    {
        assert forall|i: int| 0 <= i < self.ready().len() implies listed(
            processes1,
            #[trigger] self.ready()[i],
        ) by {
            assert(listed(processes0, self.ready()[i]));
            assert(apart(self.ready()[i], dropped));
            lemma_listed_after_destroy(dropped, self.ready()[i], processes0, processes1, memory0, memory1);
        }
        assert forall|i: int| 0 <= i < self.sleeping().len() implies listed(
            processes1,
            (#[trigger] self.sleeping()[i]).0,
        ) by {
            assert(listed(processes0, self.sleeping()[i].0));
            assert(apart(self.sleeping()[i].0, dropped));
            lemma_listed_after_destroy(
                dropped,
                self.sleeping()[i].0,
                processes0,
                processes1,
                memory0,
                memory1,
            );
        }
        assert forall|cpu: int| 0 <= cpu < self.cpu_count() implies listed(
            processes1,
            #[trigger] self.current(cpu),
        ) by {
            assert(listed(processes0, self.current(cpu)));
            assert(apart(self.current(cpu), dropped));
            lemma_listed_after_destroy(
                dropped,
                self.current(cpu),
                processes0,
                processes1,
                memory0,
                memory1,
            );
        }
    }

    /// The scheduler after a reschedule holds every thread once, if the
    /// scheduler `mid` did, in which the thread `out` still ran on the CPU
    /// and the thread that runs now stood nowhere: the thread `out` has left
    /// the CPU and stands at the end of one list at most.
    pub proof fn lemma_switched(
        &self,
        mid: Scheduler,
        cpu_id: int,
        out: TCB,
        requeued: bool,
        asleep: bool,
    )
        requires
            mid.each_once(),
            ready_wf(mid.ready()),
            sleeping_wf(mid.sleeping()),
            0 <= cpu_id < mid.cpu_count(),
            self.cpu_count() == mid.cpu_count(),
            !apart(mid.current(cpu_id), out),
            self.current(cpu_id).pid == 0 || mid.lacks(self.current(cpu_id)),
            forall|cpu: int|
                0 <= cpu < self.cpu_count() && cpu != cpu_id ==> #[trigger] self.current(cpu)
                    == mid.current(cpu),
            !(requeued && asleep),
            requeued || asleep ==> out.pid != 0,
            self.ready().len() == mid.ready().len() + if requeued { 1int } else { 0int },
            forall|i: int| 0 <= i < mid.ready().len() ==> #[trigger] self.ready()[i] == mid.ready()[i],
            requeued ==> !apart(self.ready()[mid.ready().len() as int], out),
            self.sleeping().len() == mid.sleeping().len() + if asleep { 1int } else { 0int },
            forall|i: int|
                0 <= i < mid.sleeping().len() ==> #[trigger] self.sleeping()[i] == mid.sleeping()[i],
            asleep ==> !apart(self.sleeping()[mid.sleeping().len() as int].0, out),
        ensures
            self.each_once(),
    {
        let ready0 = mid.ready();
        let ready1 = self.ready();
        let sleeping0 = mid.sleeping();
        let sleeping1 = self.sleeping();
        let running = self.current(cpu_id);
        assert(absent(ready0, mid.current(cpu_id)));
        assert(absent_asleep(sleeping0, mid.current(cpu_id)));
        assert forall|i: int, j: int| 0 <= i < j < ready1.len() implies apart(
            #[trigger] ready1[i],
            #[trigger] ready1[j],
        ) by {
            assert(ready1[i] == ready0[i]);
            if j < ready0.len() {
                assert(ready1[j] == ready0[j]);
                assert(apart(ready0[i], ready0[j]));
            } else {
                assert(apart(ready0[i], mid.current(cpu_id)));
            }
        }
        assert forall|i: int, j: int| 0 <= i < j < sleeping1.len() implies apart(
            (#[trigger] sleeping1[i]).0,
            (#[trigger] sleeping1[j]).0,
        ) by {
            assert(sleeping1[i] == sleeping0[i]);
            if j < sleeping0.len() {
                assert(sleeping1[j] == sleeping0[j]);
                assert(apart(sleeping0[i].0, sleeping0[j].0));
            } else {
                assert(apart(sleeping0[i].0, mid.current(cpu_id)));
            }
        }
        assert forall|i: int| 0 <= i < ready1.len() implies absent_asleep(
            sleeping1,
            #[trigger] ready1[i],
        ) by {
            assert forall|k: int| 0 <= k < sleeping1.len() implies apart(
                (#[trigger] sleeping1[k]).0,
                ready1[i],
            ) by {
                if i < ready0.len() {
                    assert(ready1[i] == ready0[i]);
                    assert(absent_asleep(sleeping0, ready0[i]));
                    if k < sleeping0.len() {
                        assert(sleeping1[k] == sleeping0[k]);
                        assert(apart(sleeping0[k].0, ready0[i]));
                    } else {
                        assert(apart(ready0[i], mid.current(cpu_id)));
                    }
                } else {
                    assert(k < sleeping0.len());
                    assert(sleeping1[k] == sleeping0[k]);
                    assert(apart(sleeping0[k].0, mid.current(cpu_id)));
                }
            }
        }
        assert forall|cpu: int| 0 <= cpu < self.cpu_count() implies absent(
            ready1,
            #[trigger] self.current(cpu),
        ) && absent_asleep(sleeping1, self.current(cpu)) by {
            let thread = self.current(cpu);
            if cpu != cpu_id {
                assert(thread == mid.current(cpu));
                assert(absent(ready0, mid.current(cpu)));
                assert(absent_asleep(sleeping0, mid.current(cpu)));
                if out.pid != 0 {
                    assert(mid.current(cpu_id).pid != 0);
                    assert(apart(mid.current(cpu_id), mid.current(cpu)));
                }
            } else if thread.pid != 0 {
                assert(mid.lacks(thread));
                assert(apart(mid.current(cpu_id), thread));
            }
            assert forall|k: int| 0 <= k < ready1.len() implies apart(#[trigger] ready1[k], thread) by {
                if k < ready0.len() {
                    assert(ready1[k] == ready0[k]);
                    assert(ready0[k].queueable());
                    if cpu != cpu_id {
                        assert(apart(ready0[k], mid.current(cpu)));
                    } else if thread.pid != 0 {
                        assert(apart(ready0[k], thread));
                    }
                }
            }
            assert forall|k: int| 0 <= k < sleeping1.len() implies apart(
                (#[trigger] sleeping1[k]).0,
                thread,
            ) by {
                if k < sleeping0.len() {
                    assert(sleeping1[k] == sleeping0[k]);
                    assert(sleeping0[k].0.queueable());
                    if cpu != cpu_id {
                        assert(apart(sleeping0[k].0, mid.current(cpu)));
                    } else if thread.pid != 0 {
                        assert(apart(sleeping0[k].0, thread));
                    }
                }
            }
        }
        assert forall|cpu: int, d: int|
            0 <= cpu < self.cpu_count() && 0 <= d < self.cpu_count() && cpu != d
                && self.current(cpu).pid != 0 implies apart(
            #[trigger] self.current(cpu),
            #[trigger] self.current(d),
        ) by {
            if cpu != cpu_id && d != cpu_id {
                assert(apart(mid.current(cpu), mid.current(d)));
            } else if cpu == cpu_id {
                assert(mid.lacks(self.current(cpu_id)));
                assert(apart(mid.current(d), self.current(cpu_id)));
            } else {
                if self.current(cpu_id).pid != 0 {
                    assert(mid.lacks(self.current(cpu_id)));
                    assert(apart(mid.current(cpu), self.current(cpu_id)));
                }
            }
        }
    }

    /// After a thread that is on the thread list of its process has joined
    /// the ready list, every thread of the scheduler is on the thread list
    /// of its process, if that was so before and no list has lost a thread.
    pub proof fn lemma_pushed_registered(
        &self,
        other: Scheduler,
        thread: TCB,
        processes0: Map<ProcessID, PCB>,
        processes1: Map<ProcessID, PCB>,
    )
        requires
            other.registered(processes0),
            lists_kept(processes0, processes1),
            listed(processes1, thread),
            self.ready() == other.ready().push(thread),
            self.same_but_ready(other),
        ensures
            self.registered(processes1),
    {
        assert forall|i: int| 0 <= i < self.ready().len() implies listed(
            processes1,
            #[trigger] self.ready()[i],
        ) by {
            if i < other.ready().len() {
                let held = other.ready()[i];
                assert(self.ready()[i] == held);
                assert(listed(processes0, held));
                if held.pid != 0 {
                    assert(processes0[held.pid].threads().contains(held.id));
                }
            }
        }
        assert forall|i: int| 0 <= i < self.sleeping().len() implies listed(
            processes1,
            (#[trigger] self.sleeping()[i]).0,
        ) by {
            let held = other.sleeping()[i].0;
            assert(listed(processes0, held));
            if held.pid != 0 {
                assert(processes0[held.pid].threads().contains(held.id));
            }
        }
        assert forall|cpu: int| 0 <= cpu < self.cpu_count() implies listed(
            processes1,
            #[trigger] self.current(cpu),
        ) by {
            let held = other.current(cpu);
            assert(self.current(cpu) == held);
            assert(listed(processes0, held));
            if held.pid != 0 {
                assert(processes0[held.pid].threads().contains(held.id));
            }
        }
    }

    /// Puts the thread, which stands nowhere in the scheduler yet, into the
    /// ready list, under the lock of the list. The CPU's preemption is
    /// afterwards as it was before.
    pub fn push_ready(&mut self, thread: TCB, cpu: &mut Cpu)
        requires
            old(self).wf(),
            thread.queueable(),
            old(self).lacks(thread),
        ensures
            final(self).wf(),
            final(self).ready() == old(self).ready().push(thread),
            final(self).same_but_ready(*old(self)),
            final(cpu).is_preemptable() == old(cpu).is_preemptable(),
            final(cpu).id_spec() == old(cpu).id_spec(),
    {
        let guard = self.ready_list.lock(cpu);
        self.ready_list.get_mut(&guard).push(thread);
        self.ready_list.unlock(guard, cpu);
        proof {
            assert forall|cpu: int| 0 <= cpu < self.cpu_count() implies #[trigger] self.cpu_wf(
                cpu,
            ) by {
                assert(old(self).cpu_wf(cpu));
            }
            let ready0 = old(self).ready();
            let ready1 = self.ready();
            assert forall|i: int, j: int| 0 <= i < j < ready1.len() implies apart(
                #[trigger] ready1[i],
                #[trigger] ready1[j],
            ) by {
                assert(ready1[i] == ready0[i]);
                if j < ready0.len() {
                    assert(ready1[j] == ready0[j]);
                }
            }
            assert forall|i: int| 0 <= i < ready1.len() implies absent_asleep(
                self.sleeping(),
                #[trigger] ready1[i],
            ) by {
                if i < ready0.len() {
                    assert(ready1[i] == ready0[i]);
                }
            }
            assert forall|cpu: int| 0 <= cpu < self.cpu_count() implies absent(
                ready1,
                #[trigger] self.current(cpu),
            ) && absent_asleep(self.sleeping(), self.current(cpu)) by {
                assert(self.current(cpu) == old(self).current(cpu));
                assert(absent(ready0, old(self).current(cpu)));
                assert forall|k: int| 0 <= k < ready1.len() implies apart(
                    #[trigger] ready1[k],
                    self.current(cpu),
                ) by {
                    if k < ready0.len() {
                        assert(ready1[k] == ready0[k]);
                    }
                }
            }
            assert forall|cpu: int, d: int|
                0 <= cpu < self.cpu_count() && 0 <= d < self.cpu_count() && cpu != d
                && self.current(cpu).pid != 0 implies apart(
                #[trigger] self.current(cpu),
                #[trigger] self.current(d),
            ) by {
                assert(apart(old(self).current(cpu), old(self).current(d)));
            }
        }
    }

    /// Marks the thread that runs on the CPU as dead. It keeps running until
    /// the next reschedule, which drops it.
    pub fn kill_current(&mut self, cpu_id: usize)
        requires
            old(self).wf(),
            cpu_id < old(self).cpu_count(),
        ensures
            final(self).wf(),
            final(self).same_but_current(*old(self), cpu_id as int),
            final(self).current(cpu_id as int) == put_away(
                old(self).current(cpu_id as int),
                ThreadState::Dead,
                old(self).current(cpu_id as int).context,
            ),
    {
        self.current_threads[cpu_id].kill();
        proof {
            assert forall|cpu: int| 0 <= cpu < self.cpu_count() implies #[trigger] self.cpu_wf(
                cpu,
            ) by {
                assert(old(self).cpu_wf(cpu));
            }
            self.lemma_same_threads(*old(self));
        }
    }

    /// Puts the thread that runs on the CPU to sleep until `wake_time`. It
    /// keeps running until the next reschedule, which moves it to the sleeping
    /// list.
    pub fn sleep_current(&mut self, cpu_id: usize, wake_time: Timestamp)
        requires
            old(self).wf(),
            cpu_id < old(self).cpu_count(),
        ensures
            final(self).wf(),
            final(self).same_but_current(*old(self), cpu_id as int),
            final(self).current(cpu_id as int) == put_away(
                old(self).current(cpu_id as int),
                ThreadState::Sleeping(wake_time),
                old(self).current(cpu_id as int).context,
            ),
    {
        self.current_threads[cpu_id].state = ThreadState::Sleeping(wake_time);
        proof {
            assert forall|cpu: int| 0 <= cpu < self.cpu_count() implies #[trigger] self.cpu_wf(
                cpu,
            ) by {
                assert(old(self).cpu_wf(cpu));
            }
            self.lemma_same_threads(*old(self));
        }
    }

    /// Whether the scheduler differs from `other` in the two lists at most.
    pub open spec fn same_cpus(&self, other: Scheduler) -> bool {
        &&& self.cpu_count() == other.cpu_count()
        &&& forall|cpu: int|
            0 <= cpu < self.cpu_count() ==> #[trigger] self.current(cpu) == other.current(cpu)
                && self.idle(cpu) == other.idle(cpu)
    }

    /// Wakes the threads whose time has come: every thread of the sleeping
    /// list whose wake time is not after `now` is moved to the ready list,
    /// the earliest first, and set ready unless it is dead. See
    /// [`wake_post`]. The CPU's preemption is afterwards as it was before.
    pub fn wake_due(&mut self, now: Timestamp, processes: &ProcessList, cpu: &mut Cpu)
        requires
            old(self).wf(),
        ensures
            wake_post(*old(self), *final(self), now, processes@),
            old(self).registered(processes@) ==> final(self).registered(processes@),
            final(cpu).is_preemptable() == old(cpu).is_preemptable(),
            final(cpu).id_spec() == old(cpu).id_spec(),
    {
        let ghost ready0 = self.ready();
        let ghost sleeping0 = self.sleeping();
        let ghost later = wakes_after(now);
        let ghost mut origins: Seq<int> = Seq::empty();
        let ghost mut places: Seq<int> = Seq::new(sleeping0.len(), |i: int| i);
        let sleeping_guard = self.sleeping_list.lock(cpu);
        let mut due = match self.sleeping_list.get(&sleeping_guard).peek() {
            Some(time) => time.microseconds <= now.microseconds,
            None => false,
        };
        proof {
            assert(self.ready() =~= ready0 + woken_threads(sleeping0, origins, processes@));
            if !due && self.sleeping().len() > 0 {
                let first = next_waking(self.sleeping());
                assert forall|i: int| 0 <= i < self.sleeping().len() implies (#[trigger] self.sleeping()[i]).wake_time().microseconds
                    > now.microseconds by {
                    assert(self.sleeping()[i].wake_time().microseconds
                        >= self.sleeping()[first].wake_time().microseconds);
                }
            }
            assert forall|cpu: int| 0 <= cpu < self.cpu_count() implies #[trigger] self.current(
                cpu,
            ) == old(self).current(cpu) && self.idle(cpu) == old(self).idle(cpu) by {}
            assert forall|j: int| 0 <= j < sleeping0.len() implies places.contains(j) by {
                assert(places[j] == j);
            }
            self.lemma_same_threads(*old(self));
        }
        while due
            invariant
                self.sleeping_list.is_locked(),
                !self.ready_list.is_locked(),
                self.idle_threads@.len() == self.current_threads@.len(),
                sleeping_guard.saved().is_enabled() == old(cpu).is_preemptable(),
                !cpu.is_preemptable(),
                cpu.id_spec() == old(cpu).id_spec(),
                ready_wf(self.ready()),
                sleeping_wf(self.sleeping()),
                self.same_cpus(*old(self)),
                self.each_once(),
                old(self).registered(processes@) ==> self.registered(processes@),
                ready0 == old(self).ready(),
                sleeping0 == old(self).sleeping(),
                later == wakes_after(now),
                self.ready() == ready0 + woken_threads(sleeping0, origins, processes@),
                self.sleeping().filter(later) == sleeping0.filter(later),
                places.len() == self.sleeping().len(),
                forall|i: int|
                    0 <= i < places.len() ==> 0 <= #[trigger] places[i] < sleeping0.len()
                        && self.sleeping()[i] == sleeping0[places[i]],
                forall|i: int, j: int|
                    0 <= i < j < places.len() ==> #[trigger] places[i] < #[trigger] places[j],
                forall|j: int|
                    0 <= j < sleeping0.len() ==> places.contains(j) || #[trigger] origins.contains(j),
                forall|k: int|
                    0 <= k < origins.len() ==> 0 <= #[trigger] origins[k] < sleeping0.len()
                        && sleeping0[origins[k]].wake_time().microseconds <= now.microseconds,
                forall|a: int, b: int|
                    0 <= a < b < origins.len() ==> wakes_before(
                        sleeping0,
                        #[trigger] origins[a],
                        #[trigger] origins[b],
                    ),
                forall|a: int, i: int|
                    0 <= a < origins.len() && 0 <= i < places.len() ==> wakes_before(
                        sleeping0,
                        #[trigger] origins[a],
                        #[trigger] places[i],
                    ),
                due ==> self.sleeping().len() > 0 && is_next_waking(
                    self.sleeping(),
                    next_waking(self.sleeping()),
                ) && self.sleeping()[next_waking(self.sleeping())].wake_time().microseconds
                    <= now.microseconds,
                !due ==> forall|i: int|
                    0 <= i < self.sleeping().len() ==> (#[trigger] self.sleeping()[i]).wake_time().microseconds
                        > now.microseconds,
            decreases self.sleeping().len(),
        {
            let ghost sleeping_before = self.sleeping();
            let ghost ready_before = self.ready();
            let ghost index = next_waking(sleeping_before);
            let ghost before = *self;
            let sleeper = self.sleeping_list.get_mut(&sleeping_guard).pop();
            assert(sleeper is Some);
            let mut thread = match sleeper {
                Some(sleeper) => sleeper.0,
                None => {
                    // The list was not empty: its earliest thread was due.
                    return ;
                },
            };
            let ghost asleep = thread;
            thread.set_ready(processes);
            let ready_guard = self.ready_list.lock(cpu);
            self.ready_list.get_mut(&ready_guard).push(thread);
            self.ready_list.unlock(ready_guard, cpu);
            due = match self.sleeping_list.get(&sleeping_guard).peek() {
                Some(time) => time.microseconds <= now.microseconds,
                None => false,
            };
            proof {
                let sleeping_now = self.sleeping();
                let ready_now = self.ready();
                let places_before = places;
                let origins_before = origins;
                let origin = places_before[index];
                assert forall|cpu: int| 0 <= cpu < self.cpu_count() implies #[trigger] self.current(
                    cpu,
                ) == old(self).current(cpu) && self.idle(cpu) == old(self).idle(cpu) by {
                    assert(before.current(cpu) == old(self).current(cpu));
                }
                assert(sleeping_now == sleeping_before.remove(index));
                assert(ready_now == ready_before.push(thread));
                self.lemma_moved_to_ready(before, index, thread, processes@);
                places = places_before.remove(index);
                origins = origins_before.push(origin);
                assert(sleeping0[origin].0 == asleep);
                assert(thread == woken(sleeping0[origin], processes@));
                assert(ready_now =~= ready0 + woken_threads(sleeping0, origins, processes@)) by {
                    assert forall|k: int| 0 <= k < origins_before.len() implies woken_threads(
                        sleeping0,
                        origins,
                        processes@,
                    )[k] == woken_threads(sleeping0, origins_before, processes@)[k] by {
                        assert(origins[k] == origins_before[k]);
                    }
                }
                lemma_filter_remove(sleeping_before, index, later);
                assert forall|j: int| 0 <= j < sleeping0.len() implies places.contains(j)
                    || #[trigger] origins.contains(j) by {
                    if origins_before.contains(j) {
                        let k = choose|k: int| 0 <= k < origins_before.len() && origins_before[k] == j;
                        assert(origins[k] == j);
                    } else {
                        let k = choose|k: int| 0 <= k < places_before.len() && places_before[k] == j;
                        if k < index {
                            assert(places[k] == j);
                        } else if k == index {
                            assert(origins[origins_before.len() as int] == j);
                        } else {
                            assert(places[k - 1] == j);
                        }
                    }
                }
                assert forall|a: int, b: int| 0 <= a < b < origins.len() implies wakes_before(
                    sleeping0,
                    #[trigger] origins[a],
                    #[trigger] origins[b],
                ) by {
                    assert(origins[a] == origins_before[a]);
                    if b < origins_before.len() {
                        assert(origins[b] == origins_before[b]);
                    } else {
                        assert(wakes_before(sleeping0, origins_before[a], places_before[index]));
                    }
                }
                assert forall|a: int, i: int|
                    0 <= a < origins.len() && 0 <= i < places.len() implies wakes_before(
                    sleeping0,
                    #[trigger] origins[a],
                    #[trigger] places[i],
                ) by {
                    let from = if i < index {
                        i
                    } else {
                        i + 1
                    };
                    assert(places[i] == places_before[from]);
                    if a < origins_before.len() {
                        assert(origins[a] == origins_before[a]);
                        assert(wakes_before(sleeping0, origins_before[a], places_before[from]));
                    } else {
                        assert(sleeping_before[from] == sleeping0[places_before[from]]);
                        assert(sleeping_before[index] == sleeping0[places_before[index]]);
                        assert(sleeping_before[from].wake_time().microseconds
                            >= sleeping_before[index].wake_time().microseconds);
                        if from < index {
                            assert(sleeping_before[from].wake_time().microseconds
                                > sleeping_before[index].wake_time().microseconds);
                        } else {
                            assert(places_before[index] < places_before[from]);
                        }
                    }
                }
                if !due && sleeping_now.len() > 0 {
                    let first = next_waking(sleeping_now);
                    assert forall|i: int| 0 <= i < sleeping_now.len() implies (#[trigger] sleeping_now[i]).wake_time().microseconds
                        > now.microseconds by {
                        assert(sleeping_now[i].wake_time().microseconds
                            >= sleeping_now[first].wake_time().microseconds);
                    }
                }
            }
        }
        let ghost at_end = *self;
        self.sleeping_list.unlock(sleeping_guard, cpu);
        proof {
            assert forall|cpu: int| 0 <= cpu < self.cpu_count() implies #[trigger] self.current(
                cpu,
            ) == old(self).current(cpu) && self.idle(cpu) == old(self).idle(cpu) by {
                assert(at_end.current(cpu) == old(self).current(cpu));
            }
            assert forall|cpu: int| 0 <= cpu < self.cpu_count() implies #[trigger] self.cpu_wf(
                cpu,
            ) by {
                assert(old(self).cpu_wf(cpu));
                assert(self.current(cpu) == old(self).current(cpu));
            }
            assert(self.sleeping() == at_end.sleeping());
            assert(self.ready() == at_end.ready());
            self.lemma_same_threads(at_end);
            if old(self).registered(processes@) {
                assert(at_end.registered(processes@));
                assert forall|cpu: int| 0 <= cpu < self.cpu_count() implies listed(
                    processes@,
                    #[trigger] self.current(cpu),
                ) by {
                    assert(listed(processes@, at_end.current(cpu)));
                }
            }
            lemma_filter_all(self.sleeping(), later);
            assert forall|j: int|
                0 <= j < sleeping0.len() && (#[trigger] sleeping0[j]).wake_time().microseconds
                    <= now.microseconds implies origins.contains(j) by {
                if places.contains(j) {
                    let k = choose|k: int| 0 <= k < places.len() && places[k] == j;
                    assert(self.sleeping()[k] == sleeping0[places[k]]);
                }
            }
            assert(is_wake_order(old(self).sleeping(), origins, now));
            assert(woken_from(*old(self), *self, origins, now, processes@));
        }
    }

    /// Chooses the thread that runs next on the CPU and puts away the thread
    /// that ran until now, whose context the caller saved in `saved`. Returns
    /// the context to resume. See [`schedule_post`].
    ///
    /// The ready list is searched under its lock for the thread of the
    /// highest priority that is not dead; dead threads that are found on the
    /// way are dropped. Dropping them gives frames back to the allocator and
    /// touches nothing else of the kernel's memory. The CPU's preemption is
    /// afterwards as it was before.
    pub fn schedule_next_thread(
        &mut self,
        cpu: &mut Cpu,
        processes: &mut ProcessList,
        memory: &mut MemoryController,
        saved: Context,
    ) -> (next: Context)
        requires
            old(self).wf(),
            old(processes).wf(),
            old(memory).wf(),
            old(cpu).id_spec() < old(self).cpu_count(),
            old(processes)@.contains_key(0),
            !old(processes)@[0].is_marked_dead(),
        ensures
            final(processes).wf(),
            final(memory).wf(),
            final(memory).only_freed(*old(memory)),
            old(self).registered(old(processes)@) ==> final(self).registered(final(processes)@),
            final(cpu).is_preemptable() == old(cpu).is_preemptable(),
            final(cpu).id_spec() == old(cpu).id_spec(),
            schedule_post(
                *old(self),
                *final(self),
                old(processes)@,
                final(processes)@,
                old(cpu).id_spec() as int,
                saved,
                next,
            ),
    {
        let cpu_id = cpu.id();
        let ghost ready0 = self.ready();
        let ghost processes0 = processes@;
        let ghost out = self.current(cpu_id as int);
        assert(old(self).cpu_wf(cpu_id as int));
        self.current_threads[cpu_id].context = saved;
        let guard = self.ready_list.lock(cpu);
        let mut chosen: Option<TCB> = None;
        let mut searching = true;
        let ghost known = old(self).registered(processes0);
        let ghost mut places: Seq<int> = Seq::new(ready0.len(), |i: int| i);
        let ghost mut popped: Seq<int> = Seq::empty();
        proof {
            assert forall|k: int| 0 <= k < ready0.len() implies places.contains(k) by {
                assert(places[k] == k);
            }
            self.lemma_same_threads(*old(self));
            if known {
                assert forall|c: int| 0 <= c < self.cpu_count() implies listed(
                    processes0,
                    #[trigger] self.current(c),
                ) by {
                    assert(listed(processes0, old(self).current(c)));
                }
            }
        }
        while searching
            invariant
                ready0 == old(self).ready(),
                places.len() == self.ready().len(),
                forall|i: int|
                    0 <= i < places.len() ==> 0 <= #[trigger] places[i] < ready0.len()
                        && self.ready()[i] == ready0[places[i]],
                forall|i: int, j: int|
                    0 <= i < j < places.len() ==> #[trigger] places[i] < #[trigger] places[j],
                forall|k: int|
                    0 <= k < ready0.len() ==> places.contains(k) || #[trigger] popped.contains(k),
                forall|a: int| 0 <= a < popped.len() ==> 0 <= #[trigger] popped[a] < ready0.len(),
                forall|a: int, i: int|
                    0 <= a < popped.len() && 0 <= i < places.len() ==> popped_before(
                        ready0,
                        #[trigger] popped[a],
                        #[trigger] places[i],
                    ),
                forall|a: int, b: int|
                    0 <= a < b < popped.len() ==> popped_before(
                        ready0,
                        #[trigger] popped[a],
                        #[trigger] popped[b],
                    ),
                chosen is None ==> forall|a: int|
                    0 <= a < popped.len() ==> ready0[#[trigger] popped[a]].dead_in(processes0),
                chosen is Some ==> popped.len() > 0 && chosen.unwrap() == ready0[popped.last()]
                    && !ready0[popped.last()].dead_in(processes0) && forall|a: int|
                    0 <= a < popped.len() - 1 ==> ready0[#[trigger] popped[a]].dead_in(processes0),
                self.each_once(),
                chosen is Some ==> self.lacks(chosen.unwrap()),
                known ==> self.registered(processes@),
                known ==> others_untouched(processes0, processes@),
                known && chosen is Some ==> listed(processes@, chosen.unwrap()),
                self.ready_list.is_locked(),
                !self.sleeping_list.is_locked(),
                self.idle_threads@ == old(self).idle_threads@,
                self.current_threads@ == old(self).current_threads@.update(
                    cpu_id as int,
                    put_away(out, out.state, saved),
                ),
                self.sleeping() == old(self).sleeping(),
                guard.saved().is_enabled() == old(cpu).is_preemptable(),
                !cpu.is_preemptable(),
                cpu.id_spec() == old(cpu).id_spec(),
                cpu_id == cpu.id_spec(),
                processes.wf(),
                memory.wf(),
                memory.only_freed(*old(memory)),
                survivors(processes0, processes@),
                ready_wf(self.ready()),
                forall|i: int|
                    0 <= i < self.ready().len() ==> ready0.contains(#[trigger] self.ready()[i]),
                chosen is Some ==> {
                    &&& !searching
                    &&& chosen.unwrap().queueable()
                    &&& !chosen.unwrap().dead_in(processes@)
                    &&& ready0.contains(chosen.unwrap())
                    &&& forall|i: int|
                        0 <= i < self.ready().len() ==> (#[trigger] self.ready()[i]).priority
                            <= chosen.unwrap().priority
                },
                chosen is None && !searching ==> self.ready().len() == 0,
                forall|k: int|
                    0 <= k < ready0.len() && !(#[trigger] ready0[k]).dead_in(processes0)
                        ==> self.ready().contains(ready0[k]) || chosen == Some(ready0[k]),
                forall|k: int|
                    0 <= k < ready0.len() && (#[trigger] ready0[k]).dead_in(processes0)
                        ==> self.ready().contains(ready0[k]) || gone(processes@, ready0[k]),
            decreases self.ready().len() + (if searching { 1int } else { 0int }),
        {
            let ghost before = self.ready();
            let ghost entered = *self;
            match self.ready_list.get_mut(&guard).pop() {
                None => {
                    searching = false;
                    proof {
                        self.lemma_same_threads(entered);
                        if known {
                            assert(entered.registered(processes@));
                            assert(self.ready() == entered.ready());
                            assert(self.sleeping() == entered.sleeping());
                            assert forall|c: int| 0 <= c < self.cpu_count() implies listed(
                                processes@,
                                #[trigger] self.current(c),
                            ) by {
                                assert(listed(processes@, entered.current(c)));
                            }
                        }
                    }
                },
                Some(thread) => {
                    proof {
                        let index = next_ready(before);
                        self.lemma_popped(entered, index, processes@);
                        lemma_survivors_dead(processes0, processes@, thread);
                        let places_before = places;
                        let popped_before_now = popped;
                        let origin = places_before[index];
                        places = places_before.remove(index);
                        popped = popped_before_now.push(origin);
                        assert(ready0[origin] == thread);
                        assert forall|k: int| 0 <= k < ready0.len() implies places.contains(k)
                            || #[trigger] popped.contains(k) by {
                            if popped_before_now.contains(k) {
                                let a = choose|a: int|
                                    0 <= a < popped_before_now.len() && popped_before_now[a] == k;
                                assert(popped[a] == k);
                            } else {
                                let i = choose|i: int|
                                    0 <= i < places_before.len() && places_before[i] == k;
                                if i < index {
                                    assert(places[i] == k);
                                } else if i == index {
                                    assert(popped[popped_before_now.len() as int] == k);
                                } else {
                                    assert(places[i - 1] == k);
                                }
                            }
                        }
                        assert forall|a: int, i: int|
                            0 <= a < popped.len() && 0 <= i < places.len() implies popped_before(
                            ready0,
                            #[trigger] popped[a],
                            #[trigger] places[i],
                        ) by {
                            let from = if i < index { i } else { i + 1 };
                            assert(places[i] == places_before[from]);
                            if a < popped_before_now.len() {
                                assert(popped[a] == popped_before_now[a]);
                                assert(popped_before(
                                    ready0,
                                    popped_before_now[a],
                                    places_before[from],
                                ));
                            } else {
                                assert(before[from] == ready0[places_before[from]]);
                                assert(before[index] == ready0[places_before[index]]);
                                assert(before[from].priority <= before[index].priority);
                                if from < index {
                                    assert(before[from].priority < before[index].priority);
                                } else {
                                    assert(places_before[index] < places_before[from]);
                                }
                            }
                        }
                        assert forall|a: int, b: int| 0 <= a < b < popped.len() implies popped_before(
                            ready0,
                            #[trigger] popped[a],
                            #[trigger] popped[b],
                        ) by {
                            assert(popped[a] == popped_before_now[a]);
                            if b < popped_before_now.len() {
                                assert(popped[b] == popped_before_now[b]);
                            } else {
                                assert(popped_before(
                                    ready0,
                                    popped_before_now[a],
                                    places_before[index],
                                ));
                            }
                        }
                        assert forall|a: int| 0 <= a < popped.len() - 1 implies ready0[
                            #[trigger] popped[a]
                        ].dead_in(processes0) by {
                            assert(popped[a] == popped_before_now[a]);
                        }
                    }
                    proof {
                        let index = next_ready(before);
                        assert forall|k: int|
                            0 <= k < ready0.len() && !(#[trigger] ready0[k]).dead_in(processes0)
                                && ready0[k] != thread implies self.ready().contains(ready0[k]) by {
                            let p = choose|p: int| 0 <= p < before.len() && before[p] == ready0[k];
                            if p < index {
                                assert(self.ready()[p] == ready0[k]);
                            } else {
                                assert(self.ready()[p - 1] == ready0[k]);
                            }
                        }
                        assert(ready0.contains(before[index]));
                        assert forall|i: int| 0 <= i < self.ready().len() implies ready0.contains(
                            #[trigger] self.ready()[i],
                        ) && self.ready()[i].priority <= thread.priority by {
                            if i < index {
                                assert(self.ready()[i] == before[i]);
                            } else {
                                assert(self.ready()[i] == before[i + 1]);
                            }
                        }
                    }
                    proof {
                        let index = next_ready(before);
                        assert forall|k: int|
                            0 <= k < ready0.len() && (#[trigger] ready0[k]).dead_in(processes0)
                                && ready0[k] != thread implies self.ready().contains(ready0[k])
                            || gone(processes@, ready0[k]) by {
                            if before.contains(ready0[k]) {
                                let p = choose|p: int| 0 <= p < before.len() && before[p] == ready0[k];
                                if p < index {
                                    assert(self.ready()[p] == ready0[k]);
                                } else {
                                    assert(self.ready()[p - 1] == ready0[k]);
                                }
                            }
                        }
                    }
                    if thread.is_dead(processes) {
                        let ghost table = processes@;
                        let ghost held = *memory;
                        thread.destroy(processes, memory);
                        proof {
                            lemma_survivors_destroy(
                                processes0,
                                table,
                                processes@,
                                thread,
                                held,
                                *memory,
                            );
                            memory.lemma_only_freed_twice(held, *old(memory));
                            if known {
                                self.lemma_registered_after_destroy(
                                    thread,
                                    table,
                                    processes@,
                                    held,
                                    *memory,
                                );
                                lemma_others_untouched(
                                    processes0,
                                    table,
                                    processes@,
                                    thread,
                                    held,
                                    *memory,
                                );
                            }
                        }
                    } else {
                        chosen = Some(thread);
                        searching = false;
                    }
                },
            }
        }
        let ghost ready_mid = self.ready();
        let ghost processes_mid = processes@;
        let ghost mid = *self;
        let out_is_idle = self.current_threads[cpu_id].pid == 0;
        let mut incoming = match chosen {
            Some(thread) => thread,
            None => {
                if out_is_idle {
                    // Nothing else can run: the idle thread goes on.
                    self.current_threads[cpu_id].state = ThreadState::Running;
                    self.ready_list.unlock(guard, cpu);
                    proof {
                        assert forall|other: int|
                            0 <= other < self.cpu_count() implies #[trigger] self.cpu_wf(other) by {
                            assert(old(self).cpu_wf(other));
                        }
                        self.lemma_same_threads(mid);
                        if known {
                            assert forall|c: int| 0 <= c < self.cpu_count() implies listed(
                                processes@,
                                #[trigger] self.current(c),
                            ) by {
                                assert(listed(processes@, mid.current(c)));
                            }
                        }
                        assert forall|k: int| 0 <= k < ready0.len() implies (
                        #[trigger] ready0[k]).dead_in(processes0) by {
                            assert(places.contains(k) || popped.contains(k));
                            let a = choose|a: int| 0 <= a < popped.len() && popped[a] == k;
                            assert(ready0[popped[a]].dead_in(processes0));
                        }
                        assert(ready_kept(
                            ready0,
                            self.ready(),
                            places,
                            0,
                            self.current(cpu_id as int),
                            processes0,
                        ));
                    }
                    return self.current_threads[cpu_id].context;
                }
                match self.idle_threads[cpu_id].take() {
                    Some(idle) => idle,
                    None => {
                        // A thread of a process runs, so the idle thread is parked.
                        self.ready_list.unlock(guard, cpu);
                        proof {
                            self.lemma_same_threads(mid);
                        }
                        return saved;
                    },
                }
            },
        };
        incoming.set_running(processes);
        let ghost running = incoming;
        core::mem::swap(&mut self.current_threads[cpu_id], &mut incoming);
        let mut outgoing = incoming;
        assert(outgoing == put_away(out, out.state, saved));
        let ghost left = outgoing;
        let ghost mut dropped = false;
        let ghost mut requeued_now = false;
        let ghost mut asleep_now = false;
        let ghost memory_mid = *memory;
        if out_is_idle {
            outgoing.state = ThreadState::Ready;
            self.idle_threads[cpu_id] = Some(outgoing);
        } else if outgoing.is_dead(processes) {
            let ghost table = processes@;
            let ghost held = *memory;
            outgoing.destroy(processes, memory);
            proof {
                dropped = true;
                lemma_survivors_destroy(processes0, table, processes@, outgoing, held, *memory);
                memory.lemma_only_freed_twice(held, *old(memory));
                if known {
                    assert(listed(table, mid.current(cpu_id as int)));
                    lemma_others_untouched(processes0, table, processes@, outgoing, held, *memory);
                }
                assert(!running.dead_in(processes@));
                lemma_survivors_dead(table, processes@, outgoing);
            }
        } else {
            match outgoing.state {
                ThreadState::Sleeping(_) => {
                    let sleeping_guard = self.sleeping_list.lock(cpu);
                    self.sleeping_list.get_mut(&sleeping_guard).push(SleepTimeSortedTCB(outgoing));
                    self.sleeping_list.unlock(sleeping_guard, cpu);
                    proof {
                        asleep_now = true;
                    }
                },
                _ => {
                    outgoing.state = ThreadState::Ready;
                    self.ready_list.get_mut(&guard).push(outgoing);
                    proof {
                        requeued_now = true;
                    }
                },
            }
        }
        self.ready_list.unlock(guard, cpu);
        proof {
            let chosen_now = self.current(cpu_id as int);
            assert(chosen_now == running);
            assert(mid.current(cpu_id as int) == left);
            if chosen is Some {
                assert(mid.lacks(chosen.unwrap()));
                assert(absent(mid.ready(), running));
                assert(absent_asleep(mid.sleeping(), running));
                assert forall|c: int| 0 <= c < mid.cpu_count() implies apart(
                    #[trigger] mid.current(c),
                    running,
                ) by {
                    assert(apart(mid.current(c), chosen.unwrap()));
                }
                assert(mid.lacks(running));
            } else {
                assert(running.pid == 0);
            }
            assert forall|c: int|
                0 <= c < self.cpu_count() && c != cpu_id implies #[trigger] self.current(c)
                == mid.current(c) by {}
            self.lemma_switched(mid, cpu_id as int, left, requeued_now, asleep_now);
            let took = if chosen is Some {
                popped.last()
            } else {
                0
            };
            assert forall|i: int| 0 <= i < places.len() implies self.ready()[i] == ready0[
                #[trigger] places[i]
            ] by {
                assert(self.ready()[i] == ready_mid[i]);
            }
            if chosen is Some {
                assert(chosen_now == put_away(
                    ready0[took],
                    ThreadState::Running,
                    ready0[took].context,
                ));
                assert forall|k: int|
                    0 <= k < ready0.len() && !(#[trigger] ready0[k]).dead_in(processes0) && k
                        != took implies popped_before(ready0, took, k) by {
                    if popped.contains(k) {
                        let a = choose|a: int| 0 <= a < popped.len() && popped[a] == k;
                        assert(ready0[popped[a]].dead_in(processes0));
                    } else {
                        let i = choose|i: int| 0 <= i < places.len() && places[i] == k;
                        assert(popped_before(ready0, popped[popped.len() - 1], places[i]));
                    }
                }
                assert forall|k: int| 0 <= k < ready0.len() implies (#[trigger] places.contains(k)
                    <==> k != took && !(ready0[k].dead_in(processes0) && popped_before(
                    ready0,
                    k,
                    took,
                ))) by {
                    if places.contains(k) {
                        let i = choose|i: int| 0 <= i < places.len() && places[i] == k;
                        assert(popped_before(ready0, popped[popped.len() - 1], places[i]));
                    } else {
                        assert(popped.contains(k));
                        let a = choose|a: int| 0 <= a < popped.len() && popped[a] == k;
                        if a < popped.len() - 1 {
                            assert(ready0[popped[a]].dead_in(processes0));
                            assert(popped_before(ready0, popped[a], popped[popped.len() - 1]));
                        }
                    }
                }
            } else {
                assert forall|k: int| 0 <= k < ready0.len() implies (#[trigger] ready0[k]).dead_in(
                    processes0,
                ) by {
                    assert(places.contains(k) || popped.contains(k));
                    let a = choose|a: int| 0 <= a < popped.len() && popped[a] == k;
                    assert(ready0[popped[a]].dead_in(processes0));
                }
            }
            assert(ready_kept(ready0, self.ready(), places, took, chosen_now, processes0));
            if known {
                assert(mid.registered(processes_mid));
                assert forall|i: int| 0 <= i < self.ready().len() implies listed(
                    processes_mid,
                    #[trigger] self.ready()[i],
                ) by {
                    if i < mid.ready().len() {
                        assert(self.ready()[i] == mid.ready()[i]);
                        assert(listed(processes_mid, mid.ready()[i]));
                    } else {
                        assert(listed(processes_mid, mid.current(cpu_id as int)));
                    }
                }
                assert forall|i: int| 0 <= i < self.sleeping().len() implies listed(
                    processes_mid,
                    (#[trigger] self.sleeping()[i]).0,
                ) by {
                    if i < mid.sleeping().len() {
                        assert(self.sleeping()[i] == mid.sleeping()[i]);
                        assert(listed(processes_mid, mid.sleeping()[i].0));
                    } else {
                        assert(listed(processes_mid, mid.current(cpu_id as int)));
                    }
                }
                assert forall|c: int| 0 <= c < self.cpu_count() implies listed(
                    processes_mid,
                    #[trigger] self.current(c),
                ) by {
                    if c != cpu_id {
                        assert(listed(processes_mid, mid.current(c)));
                    }
                }
                assert(self.registered(processes_mid));
                if dropped {
                    assert(absent(mid.ready(), mid.current(cpu_id as int)));
                    assert(absent_asleep(mid.sleeping(), mid.current(cpu_id as int)));
                    assert forall|i: int| 0 <= i < self.ready().len() implies apart(
                        #[trigger] self.ready()[i],
                        left,
                    ) by {
                        assert(self.ready()[i] == mid.ready()[i]);
                        assert(apart(mid.ready()[i], mid.current(cpu_id as int)));
                    }
                    assert forall|i: int| 0 <= i < self.sleeping().len() implies apart(
                        (#[trigger] self.sleeping()[i]).0,
                        left,
                    ) by {
                        assert(self.sleeping()[i] == mid.sleeping()[i]);
                        assert(apart(mid.sleeping()[i].0, mid.current(cpu_id as int)));
                    }
                    assert forall|c: int| 0 <= c < self.cpu_count() implies apart(
                        #[trigger] self.current(c),
                        left,
                    ) by {
                        if c != cpu_id {
                            assert(apart(mid.current(cpu_id as int), mid.current(c)));
                        } else if running.pid != 0 {
                            assert(apart(mid.current(cpu_id as int), running));
                        }
                    }
                    assert(self.lacks(left));
                    self.lemma_registered_after_destroy(
                        left,
                        processes_mid,
                        processes@,
                        memory_mid,
                        *memory,
                    );
                }
            }
            assert forall|other: int| 0 <= other < self.cpu_count() implies #[trigger] self.cpu_wf(
                other,
            ) by {
                assert(old(self).cpu_wf(other));
            }
            let requeued = out.pid != 0 && !out.dead_in(processes@) && !(out.state is Sleeping);
            let kept = self.ready().len() - if requeued { 1int } else { 0int };
            assert(kept == ready_mid.len());
            assert forall|i: int| 0 <= i < kept implies (#[trigger] self.ready()[i]).priority
                <= chosen_now.priority && ready0.contains(self.ready()[i]) by {
                assert(self.ready()[i] == ready_mid[i]);
            }
            assert forall|i: int| 0 <= i < self.ready().len() implies (#[trigger] self.ready()[i]).queueable() by {
                if i < ready_mid.len() {
                    assert(self.ready()[i] == ready_mid[i]);
                }
            }
            if chosen_now.pid != 0 {
                let j = choose|j: int| 0 <= j < ready0.len() && ready0[j] == chosen.unwrap();
                assert(chosen_now == put_away(ready0[j], ThreadState::Running, ready0[j].context));
            }
            assert forall|k: int|
                0 <= k < ready0.len() && (#[trigger] ready0[k]).dead_in(processes0)
                    implies self.ready().contains(ready0[k]) || gone(processes@, ready0[k]) by {
                if ready_mid.contains(ready0[k]) {
                    let p = choose|p: int| 0 <= p < ready_mid.len() && ready_mid[p] == ready0[k];
                    assert(self.ready()[p] == ready0[k]);
                }
            }
            assert forall|k: int|
                0 <= k < ready0.len() && !(#[trigger] ready0[k]).dead_in(processes0)
                    implies self.ready().contains(ready0[k]) || chosen_now == put_away(
                ready0[k],
                ThreadState::Running,
                ready0[k].context,
            ) by {
                if ready_mid.contains(ready0[k]) {
                    let p = choose|p: int| 0 <= p < ready_mid.len() && ready_mid[p] == ready0[k];
                    assert(self.ready()[p] == ready0[k]);
                }
            }
        }
        self.current_threads[cpu_id].context
    }
}

/// When a thread is dropped, every other thread that was on the thread list
/// of its process is on it still.
pub proof fn lemma_listed_after_destroy(
    dropped: TCB,
    thread: TCB,
    processes0: Map<ProcessID, PCB>,
    processes1: Map<ProcessID, PCB>,
    memory0: MemoryController,
    memory1: MemoryController,
)
    requires
        dropped.destroy_post(processes0, processes1, memory0, memory1),
        listed(processes0, thread),
        apart(thread, dropped),
    ensures
        listed(processes1, thread),
{
    if thread.pid != 0 {
        if thread.pid != dropped.pid {
            assert(processes1.contains_key(thread.pid) == processes0.contains_key(thread.pid));
            assert(processes1[thread.pid] == processes0[thread.pid]);
        } else {
            assert(processes0[dropped.pid].threads().contains(thread.id));
            assert(thread.id != dropped.id);
        }
    }
}

/// Whether the process table `after` has come from `before` by dropping
/// threads: the idle process is there and alive, no process has joined, no
/// thread has joined a process, and every process that is left is marked
/// dead exactly if it was before.
pub open spec fn survivors(before: Map<ProcessID, PCB>, after: Map<ProcessID, PCB>) -> bool {
    &&& after.contains_key(0)
    &&& !after[0].is_marked_dead()
    &&& forall|pid: ProcessID| #[trigger]
        after.contains_key(pid) ==> before.contains_key(pid) && after[pid].is_marked_dead()
            == before[pid].is_marked_dead()
    &&& forall|pid: ProcessID|
        before.contains_key(pid) && !(#[trigger] before[pid]).is_marked_dead()
            ==> after.contains_key(pid)
    &&& forall|pid: ProcessID, id: crate::multitasking::ThreadID|
        after.contains_key(pid) && #[trigger] after[pid].threads().contains(id)
            ==> before[pid].threads().contains(id)
}

/// Whether every process of `after` that has lost no thread since `before`
/// is as it was in `before`.
pub open spec fn others_untouched(before: Map<ProcessID, PCB>, after: Map<ProcessID, PCB>) -> bool {
    forall|pid: ProcessID| #[trigger]
        after.contains_key(pid) && after[pid].threads() == before[pid].threads() ==> after[pid]
            == before[pid]
}

/// When a thread that is on the thread list of its process is dropped, the
/// processes that have lost no thread are as they were.
pub proof fn lemma_others_untouched(
    first: Map<ProcessID, PCB>,
    before: Map<ProcessID, PCB>,
    after: Map<ProcessID, PCB>,
    thread: TCB,
    memory0: MemoryController,
    memory1: MemoryController,
)
    requires
        survivors(first, before),
        others_untouched(first, before),
        thread.destroy_post(before, after, memory0, memory1),
        thread.pid != 0,
        listed(before, thread),
    ensures
        others_untouched(first, after),
{
    assert forall|pid: ProcessID| #[trigger]
        after.contains_key(pid) && after[pid].threads() == first[pid].threads() implies after[pid]
        == first[pid] by {
        if pid != thread.pid {
            assert(before.contains_key(pid));
            assert(after[pid] == before[pid]);
        } else {
            assert(before[pid].threads().contains(thread.id));
            assert(first[pid].threads().contains(thread.id));
            assert(!after[pid].threads().contains(thread.id));
        }
    }
}

/// Whether the thread is off the thread list of its process, if the process
/// is there.
pub open spec fn gone(processes: Map<ProcessID, PCB>, thread: TCB) -> bool {
    processes.contains_key(thread.pid) ==> !processes[thread.pid].threads().contains(thread.id)
}

/// Among survivors a thread is dead exactly if it was dead before: dropping
/// threads neither kills a thread nor revives one.
pub proof fn lemma_survivors_dead(before: Map<ProcessID, PCB>, after: Map<ProcessID, PCB>, thread: TCB)
    requires
        survivors(before, after),
    ensures
        thread.dead_in(after) == thread.dead_in(before),
{
    if after.contains_key(thread.pid) {
        assert(before.contains_key(thread.pid));
    } else if before.contains_key(thread.pid) {
        assert(before[thread.pid].is_marked_dead());
    }
}

/// Dropping a thread keeps the survivors.
pub proof fn lemma_survivors_destroy(
    first: Map<ProcessID, PCB>,
    before: Map<ProcessID, PCB>,
    after: Map<ProcessID, PCB>,
    thread: TCB,
    memory0: MemoryController,
    memory1: MemoryController,
)
    requires
        survivors(first, before),
        thread.destroy_post(before, after, memory0, memory1),
    ensures
        survivors(first, after),
        forall|other: TCB| !other.dead_in(before) ==> !other.dead_in(after),
        gone(after, thread),
        forall|other: TCB| gone(before, other) ==> gone(after, other),
{
    assert forall|pid: ProcessID, id: crate::multitasking::ThreadID|
        after.contains_key(pid) && #[trigger] after[pid].threads().contains(id)
            implies first[pid].threads().contains(id) by {
        assert(before.contains_key(pid));
        if pid == thread.pid && id != thread.id {
            assert(before[pid].threads().contains(id));
        }
        assert(before[pid].threads().contains(id));
    }
    assert forall|other: TCB| gone(before, other) implies gone(after, other) by {
        if after.contains_key(other.pid) {
            assert(before.contains_key(other.pid));
            if after[other.pid].threads().contains(other.id) {
                if other.pid == thread.pid && other.id != thread.id {
                    assert(before[other.pid].threads().contains(other.id));
                }
            }
        }
    }
    assert forall|pid: ProcessID| #[trigger] after.contains_key(pid) implies first.contains_key(pid)
        && after[pid].is_marked_dead() == first[pid].is_marked_dead() by {
        if pid != thread.pid {
            assert(before.contains_key(pid));
        } else {
            assert(before.contains_key(pid));
        }
    }
    assert forall|pid: ProcessID|
        first.contains_key(pid) && !(#[trigger] first[pid]).is_marked_dead()
            implies after.contains_key(pid) by {
        assert(before.contains_key(pid));
    }
}

/// What a reschedule does on the CPU `cpu_id`, from the scheduler `before`
/// to the scheduler `after`, with `saved` the context of the thread that ran
/// and `next` the context that is resumed.
///
/// The thread that runs afterwards is running, is not dead, and has `next` as
/// its context. It is the idle thread of the CPU only if no thread is left in
/// the ready list from before; otherwise it was in the ready list, and no
/// thread that is left there from before has a higher priority. No thread
/// that was ready and is not dead is lost: it runs now or is still ready. A
/// dead thread that was ready is still in the list or was dropped, and is
/// then off the thread list of its process. Which threads stay, and that
/// they keep their order, is said by [`ready_kept`]. Where every thread of
/// the scheduler is on the thread list of its process, a process that has
/// lost no thread is as it was.
///
/// The thread that ran until now is put away with the saved context: the
/// idle thread is parked; a dead thread is dropped; a sleeping thread joins
/// the sleeping list; any other thread is set ready and joins the end of the
/// ready list. Where nothing but the idle thread can run, it goes on running.
pub open spec fn schedule_post(
    before: Scheduler,
    after: Scheduler,
    processes0: Map<ProcessID, PCB>,
    processes1: Map<ProcessID, PCB>,
    cpu_id: int,
    saved: Context,
    next: Context,
) -> bool {
    let out = before.current(cpu_id);
    let chosen = after.current(cpu_id);
    let alive = out.pid != 0 && !out.dead_in(processes1);
    let requeued = alive && !(out.state is Sleeping);
    let kept = after.ready().len() - if requeued { 1int } else { 0int };
    &&& after.wf()
    &&& after.cpu_count() == before.cpu_count()
    &&& forall|cpu: int|
        0 <= cpu < after.cpu_count() && cpu != cpu_id ==> #[trigger] after.current(cpu)
            == before.current(cpu) && after.idle(cpu) == before.idle(cpu)
    &&& survivors(processes0, processes1)
    &&& before.registered(processes0) ==> others_untouched(processes0, processes1)
    &&& next == chosen.context
    &&& chosen.state == ThreadState::Running
    &&& !chosen.dead_in(processes1)
    &&& kept >= 0
    &&& forall|i: int|
        0 <= i < kept ==> (#[trigger] after.ready()[i]).priority <= chosen.priority
            && before.ready().contains(after.ready()[i])
    &&& chosen.pid == 0 ==> kept == 0
    &&& forall|k: int|
        0 <= k < before.ready().len() && !(#[trigger] before.ready()[k]).dead_in(processes0)
            ==> after.ready().contains(before.ready()[k]) || chosen == put_away(
            before.ready()[k],
            ThreadState::Running,
            before.ready()[k].context,
        )
    &&& forall|k: int|
        0 <= k < before.ready().len() && (#[trigger] before.ready()[k]).dead_in(processes0)
            ==> after.ready().contains(before.ready()[k]) || gone(processes1, before.ready()[k])
    &&& out.pid != 0 && out.dead_in(processes1) ==> gone(processes1, out)
    &&& chosen.pid != 0 ==> exists|j: int|
        0 <= j < before.ready().len() && chosen == put_away(
            #[trigger] before.ready()[j],
            ThreadState::Running,
            before.ready()[j].context,
        )
    &&& requeued ==> after.ready()[kept] == put_away(out, ThreadState::Ready, saved)
    &&& exists|places: Seq<int>, took: int|
        places.len() == kept && #[trigger] ready_kept(
            before.ready(),
            after.ready(),
            places,
            took,
            chosen,
            processes0,
        )
    &&& after.sleeping() == if alive && out.state is Sleeping {
        before.sleeping().push(SleepTimeSortedTCB(put_away(out, out.state, saved)))
    } else {
        before.sleeping()
    }
    &&& out.pid == 0 && chosen.pid != 0 ==> after.idle(cpu_id) == Some(
        put_away(out, ThreadState::Ready, saved),
    )
    &&& out.pid == 0 && chosen.pid == 0 ==> chosen == put_away(out, ThreadState::Running, saved)
        && after.idle(cpu_id) == before.idle(cpu_id)
}

/// Whether, of two threads of the ready list, the thread at `first` is
/// taken out before the thread at `second`: it has the higher priority, or
/// the same priority and stands before the other.
pub open spec fn popped_before(ready: Seq<TCB>, first: int, second: int) -> bool {
    ready[first].priority > ready[second].priority || (ready[first].priority
        == ready[second].priority && first < second)
}

/// Whether the ready list `ready1` begins with what a reschedule has left
/// of the ready list `ready0`, in the order it had; `places` holds the
/// places that those threads had in `ready0`, and `took` the place of the
/// thread `chosen` that runs now, if it is a thread of a process.
///
/// The thread at `took` is the first thread that is not dead, in the order
/// in which the threads are taken out. The dead threads that are taken out
/// before it are dropped, and every other thread stays. If every thread is
/// dead, all are dropped, and an idle thread runs.
pub open spec fn ready_kept(
    ready0: Seq<TCB>,
    ready1: Seq<TCB>,
    places: Seq<int>,
    took: int,
    chosen: TCB,
    processes0: Map<ProcessID, PCB>,
) -> bool {
    &&& places.len() <= ready1.len()
    &&& forall|i: int|
        0 <= i < places.len() ==> 0 <= #[trigger] places[i] < ready0.len() && ready1[i]
            == ready0[places[i]]
    &&& forall|i: int, j: int|
        0 <= i < j < places.len() ==> #[trigger] places[i] < #[trigger] places[j]
    &&& chosen.pid == 0 ==> places.len() == 0 && forall|k: int|
        0 <= k < ready0.len() ==> (#[trigger] ready0[k]).dead_in(processes0)
    &&& chosen.pid != 0 ==> {
        &&& 0 <= took < ready0.len()
        &&& chosen == put_away(ready0[took], ThreadState::Running, ready0[took].context)
        &&& !ready0[took].dead_in(processes0)
        &&& forall|k: int|
            0 <= k < ready0.len() && !(#[trigger] ready0[k]).dead_in(processes0) && k != took
                ==> popped_before(ready0, took, k)
        &&& forall|k: int|
            0 <= k < ready0.len() ==> (#[trigger] places.contains(k) <==> k != took && !(
            ready0[k].dead_in(processes0) && popped_before(ready0, k, took)))
    }
}

/// A reschedule runs the thread of the highest priority that is ready and not
/// dead: if any thread of the ready list is not dead, the thread that runs
/// afterwards is a thread of a process, and no thread of the ready list that
/// is not dead has a higher priority.
pub proof fn lemma_highest_priority_runs(
    before: Scheduler,
    after: Scheduler,
    processes0: Map<ProcessID, PCB>,
    processes1: Map<ProcessID, PCB>,
    cpu_id: int,
    saved: Context,
    next: Context,
    place: int,
)
    requires
        schedule_post(before, after, processes0, processes1, cpu_id, saved, next),
        0 <= place < before.ready().len(),
        !before.ready()[place].dead_in(processes0),
    ensures
        after.current(cpu_id).pid != 0,
        before.ready()[place].priority <= after.current(cpu_id).priority,
        next == after.current(cpu_id).context,
{
    let chosen = after.current(cpu_id);
    let (places, took) = choose|places: Seq<int>, took: int| #[trigger]
        ready_kept(before.ready(), after.ready(), places, took, chosen, processes0);
    assert(ready_kept(before.ready(), after.ready(), places, took, chosen, processes0));
    if chosen.pid == 0 {
        assert(before.ready()[place].dead_in(processes0));
    } else if place != took {
        assert(popped_before(before.ready(), took, place));
    }
}

/// The thread as it is after waking: ready, unless it is dead.
pub open spec fn woken(sleeper: SleepTimeSortedTCB, processes: Map<ProcessID, PCB>) -> TCB {
    put_away(
        sleeper.0,
        if sleeper.0.dead_in(processes) {
            sleeper.0.state
        } else {
            ThreadState::Ready
        },
        sleeper.0.context,
    )
}

/// The test whether a sleeping thread wakes after `now`.
pub open spec fn wakes_after(now: Timestamp) -> spec_fn(SleepTimeSortedTCB) -> bool {
    |sleeper: SleepTimeSortedTCB| sleeper.wake_time().microseconds > now.microseconds
}

/// Whether, of two threads of the sleeping list, the thread at `first` is
/// taken out before the thread at `second`: it wakes earlier, or at the same
/// time and stands before the other.
pub open spec fn wakes_before(sleeping: Seq<SleepTimeSortedTCB>, first: int, second: int) -> bool {
    sleeping[first].wake_time().microseconds < sleeping[second].wake_time().microseconds || (
    sleeping[first].wake_time().microseconds == sleeping[second].wake_time().microseconds && first
        < second)
}

/// Whether `origins` holds the places of the threads of the sleeping list
/// that are due at `now`, in the order in which they wake: every place in
/// it is that of a due thread, the place of every due thread is in it, and
/// each place stands after the places of the threads that are taken out
/// before its thread, so that none stands twice.
pub open spec fn is_wake_order(sleeping: Seq<SleepTimeSortedTCB>, origins: Seq<int>, now: Timestamp) -> bool {
    &&& forall|k: int|
        0 <= k < origins.len() ==> 0 <= #[trigger] origins[k] < sleeping.len()
            && sleeping[origins[k]].wake_time().microseconds <= now.microseconds
    &&& forall|j: int|
        0 <= j < sleeping.len() && (#[trigger] sleeping[j]).wake_time().microseconds
            <= now.microseconds ==> origins.contains(j)
    &&& forall|a: int, b: int|
        0 <= a < b < origins.len() ==> wakes_before(sleeping, #[trigger] origins[a], #[trigger] origins[b])
}

/// The threads at the places `origins` of the sleeping list, as they are
/// after waking.
pub open spec fn woken_threads(
    sleeping: Seq<SleepTimeSortedTCB>,
    origins: Seq<int>,
    processes: Map<ProcessID, PCB>,
) -> Seq<TCB> {
    Seq::new(origins.len(), |k: int| woken(sleeping[origins[k]], processes))
}

/// Whether the threads at the places `origins` are the threads that waking
/// at `now` has moved: they are the due threads in the order in which they
/// wake, and the ready list holds them, woken, behind the threads that were
/// ready.
pub open spec fn woken_from(
    before: Scheduler,
    after: Scheduler,
    origins: Seq<int>,
    now: Timestamp,
    processes: Map<ProcessID, PCB>,
) -> bool {
    &&& is_wake_order(before.sleeping(), origins, now)
    &&& after.ready() == before.ready() + woken_threads(before.sleeping(), origins, processes)
}

/// What waking the due threads does, from the scheduler `before` to the
/// scheduler `after`.
///
/// The sleeping list is the list from before without the threads whose wake
/// time is not after `now`; the others keep their order. The ready list is
/// the list from before and behind it the due threads, each once, woken, in
/// the order of their wake times and, among threads of one wake time, of
/// their places in the sleeping list. Nothing changes on any CPU.
pub open spec fn wake_post(
    before: Scheduler,
    after: Scheduler,
    now: Timestamp,
    processes: Map<ProcessID, PCB>,
) -> bool {
    &&& after.wf()
    &&& after.same_cpus(before)
    &&& after.sleeping() == before.sleeping().filter(wakes_after(now))
    &&& exists|origins: Seq<int>| #[trigger] woken_from(before, after, origins, now, processes)
}

/// Waking moves every due thread and no other: a thread of the sleeping list
/// whose wake time is not after `now` stands, woken, in the ready list
/// behind the threads that were ready; a thread whose wake time is after
/// `now` is still sleeping; and no thread that is left sleeping is due.
pub proof fn lemma_wake_moves_due(
    before: Scheduler,
    after: Scheduler,
    now: Timestamp,
    processes: Map<ProcessID, PCB>,
    place: int,
)
    requires
        wake_post(before, after, now, processes),
        0 <= place < before.sleeping().len(),
    ensures
        before.sleeping()[place].wake_time().microseconds <= now.microseconds ==> exists|k: int|
            before.ready().len() <= k < after.ready().len() && #[trigger] after.ready()[k] == woken(
                before.sleeping()[place],
                processes,
            ),
        before.sleeping()[place].wake_time().microseconds > now.microseconds
            ==> after.sleeping().contains(before.sleeping()[place]),
        forall|i: int|
            0 <= i < after.sleeping().len() ==> (#[trigger] after.sleeping()[i]).wake_time().microseconds
                > now.microseconds,
{
    let sleeping = before.sleeping();
    let test = wakes_after(now);
    assert forall|i: int| 0 <= i < after.sleeping().len() implies (#[trigger] after.sleeping()[i]).wake_time().microseconds
        > now.microseconds by {
        sleeping.lemma_filter_pred(test, i);
    }
    if sleeping[place].wake_time().microseconds > now.microseconds {
        sleeping.lemma_filter_contains(test, place);
    } else {
        let origins = choose|origins: Seq<int>| woken_from(before, after, origins, now, processes);
        assert(origins.contains(place));
        let at = choose|at: int| 0 <= at < origins.len() && origins[at] == place;
        let k = before.ready().len() + at;
        assert(after.ready()[k] == woken_threads(sleeping, origins, processes)[at]);
    }
}

/// Taking a thread that fails the test out of a list leaves the threads that
/// pass the test as they were.
pub proof fn lemma_filter_remove(
    list: Seq<SleepTimeSortedTCB>,
    index: int,
    test: spec_fn(SleepTimeSortedTCB) -> bool,
)
    requires
        0 <= index < list.len(),
        !test(list[index]),
    ensures
        list.remove(index).filter(test) == list.filter(test),
{
    let head = list.subrange(0, index);
    let tail = list.subrange(index + 1, list.len() as int);
    let one = seq![list[index]];
    assert(list =~= head + one + tail);
    assert(list.remove(index) =~= head + tail);
    Seq::filter_distributes_over_add(head, tail, test);
    Seq::filter_distributes_over_add(head + one, tail, test);
    Seq::filter_distributes_over_add(head, one, test);
    assert(one.filter(test) =~= Seq::<SleepTimeSortedTCB>::empty()) by {
        reveal_with_fuel(Seq::filter, 2);
        assert(one.drop_last().len() == 0);
    }
    assert(head.filter(test) + one.filter(test) =~= head.filter(test));
}

/// A list whose threads all pass the test is what passes the test.
pub proof fn lemma_filter_all(list: Seq<SleepTimeSortedTCB>, test: spec_fn(SleepTimeSortedTCB) -> bool)
    requires
        forall|i: int| 0 <= i < list.len() ==> test(#[trigger] list[i]),
    ensures
        list.filter(test) == list,
    decreases list.len(),
{
    reveal_with_fuel(Seq::filter, 1);
    if list.len() > 0 {
        let front = list.drop_last();
        assert forall|i: int| 0 <= i < front.len() implies test(#[trigger] front[i]) by {
            assert(front[i] == list[i]);
        }
        lemma_filter_all(front, test);
        assert(front.push(list.last()) =~= list);
    } else {
        assert(list.filter(test) =~= list);
    }
}

} // verus!
