//! Process control blocks and the table of all processes.

use vstd::prelude::*;
use std::collections::BTreeMap;
use crate::memory::address_space::AddressSpace;
use crate::multitasking::{ProcessID, ThreadID};

verus! {

/// A process: an address space and the threads that live in it.
pub struct PCB {
    address_space: AddressSpace,
    threads: Vec<ThreadID>,
    dead: bool,
}

impl PCB {
    /// The address space of the process.
    pub closed spec fn space(&self) -> AddressSpace {
        self.address_space
    }

    /// The IDs of the living threads of the process.
    pub closed spec fn threads(&self) -> Seq<ThreadID> {
        self.threads@
    }

    /// Whether the process is marked dead.
    pub closed spec fn is_marked_dead(&self) -> bool {
        self.dead
    }

    /// The address space is well formed and no thread ID is listed twice.
    pub open spec fn wf(&self) -> bool {
        self.space().wf() && self.threads().no_duplicates()
    }

    /// The process can be taken out of the process table: no thread is left
    /// and the process is marked dead.
    pub open spec fn droppable(&self) -> bool {
        self.threads().len() == 0 && self.is_marked_dead()
    }

    /// A living process in the given address space whose only thread has the
    /// ID 0.
    pub fn new(address_space: AddressSpace) -> (pcb: PCB)
        ensures
            pcb.space() == address_space,
            pcb.threads() == seq![0u16],
            !pcb.is_marked_dead(),
            address_space.wf() ==> pcb.wf(),
    {
        let mut threads = Vec::new();
        threads.push(0);
        PCB { address_space, threads, dead: false }
    }

    /// The process of the idle threads: it lives in an address space of its own
    /// that maps nothing, has no thread registered, and never dies.
    pub fn idle_pcb() -> (pcb: PCB)
        ensures
            pcb.wf(),
            pcb.threads() == Seq::<ThreadID>::empty(),
            !pcb.is_marked_dead(),
    {
        PCB { address_space: AddressSpace::new(), threads: Vec::new(), dead: false }
    }

    /// The address space of the process.
    pub fn address_space(&self) -> (space: &AddressSpace)
        ensures
            *space == self.space(),
    {
        &self.address_space
    }

    /// The address space of the process, to be changed.
    pub fn address_space_mut(&mut self) -> (space: &mut AddressSpace)
        ensures
            *space == old(self).space(),
            final(self).space() == *final(space),
            final(self).threads() == old(self).threads(),
            final(self).is_marked_dead() == old(self).is_marked_dead(),
    {
        &mut self.address_space
    }

    /// The number of living threads.
    pub fn thread_count(&self) -> (count: usize)
        ensures
            count == self.threads().len(),
    {
        self.threads.len()
    }

    /// Whether the process is marked dead.
    pub fn is_dead(&self) -> (dead: bool)
        ensures
            dead == self.is_marked_dead(),
    {
        self.dead
    }

    /// Marks the process dead. Its threads count as dead from now on; what
    /// they hold is released as the scheduler drops them one by one.
    pub fn kill(&mut self)
        ensures
            final(self).is_marked_dead(),
            final(self).space() == old(self).space(),
            final(self).threads() == old(self).threads(),
    {
        self.dead = true;
    }

    /// Whether the process can be taken out of the process table.
    pub fn is_droppable(&self) -> (droppable: bool)
        ensures
            droppable == self.droppable(),
    {
        self.threads.len() == 0 && self.dead
    }

    /// Whether a living thread has the ID.
    pub fn has_thread(&self, id: ThreadID) -> (r: bool)
        ensures
            r == self.threads().contains(id),
    {
        let mut i: usize = 0;
        while i < self.threads.len()
            invariant
                i <= self.threads@.len(),
                forall|j: int| 0 <= j < i ==> self.threads@[j] != id,
            decreases self.threads@.len() - i,
        {
            if self.threads[i] == id {
                return true;
            }
            i += 1;
        }
        false
    }

    /// The smallest thread ID that no living thread has, or `None` if every
    /// ID is taken.
    pub fn find_thread_id(&self) -> (id: Option<ThreadID>)
        ensures
            match id {
                Some(id) => !self.threads().contains(id) && forall|other: ThreadID|
                    other < id ==> self.threads().contains(other),
                None => forall|other: ThreadID| self.threads().contains(other),
            },
    {
        let mut id: ThreadID = 0;
        loop
            invariant
                forall|other: ThreadID| other < id ==> self.threads().contains(other),
            decreases ThreadID::MAX - id,
        {
            if !self.has_thread(id) {
                return Some(id);
            }
            if id == ThreadID::MAX {
                return None;
            }
            id += 1;
        }
    }

    /// Registers a living thread under the ID. An ID that is registered
    /// already is not registered twice.
    pub fn add_thread(&mut self, id: ThreadID)
        ensures
            final(self).space() == old(self).space(),
            final(self).is_marked_dead() == old(self).is_marked_dead(),
            final(self).threads() == if old(self).threads().contains(id) {
                old(self).threads()
            } else {
                old(self).threads().push(id)
            },
            old(self).wf() ==> final(self).wf(),
    {
        if !self.has_thread(id) {
            self.threads.push(id);
            proof {
                assert forall|i: int, j: int|
                    0 <= i < self.threads@.len() && 0 <= j < self.threads@.len() && i
                        != j && old(self).threads@.no_duplicates() implies self.threads@[i]
                    != self.threads@[j] by {
                    if i < old(self).threads@.len() {
                        assert(old(self).threads@.contains(self.threads@[i]));
                    }
                    if j < old(self).threads@.len() {
                        assert(old(self).threads@.contains(self.threads@[j]));
                    }
                }
            }
        }
    }

    /// Takes the thread with the ID off the list of living threads. Returns
    /// whether the ID was on the list.
    pub fn remove_thread(&mut self, id: ThreadID) -> (removed: bool)
        requires
            old(self).wf(),
        ensures
            final(self).wf(),
            final(self).space() == old(self).space(),
            final(self).is_marked_dead() == old(self).is_marked_dead(),
            removed == old(self).threads().contains(id),
            !final(self).threads().contains(id),
            forall|other: ThreadID|
                other != id ==> final(self).threads().contains(other) == old(
                    self,
                ).threads().contains(other),
            final(self).threads().len() == old(self).threads().len() - if removed {
                1int
            } else {
                0int
            },
    {
        let mut i: usize = 0;
        while i < self.threads.len()
            invariant
                *self == *old(self),
                self.wf(),
                i <= self.threads@.len(),
                forall|j: int| 0 <= j < i ==> self.threads@[j] != id,
            decreases self.threads@.len() - i,
        {
            if self.threads[i] == id {
                self.threads.remove(i);
                proof {
                    let before = old(self).threads@;
                    let after = self.threads@;
                    assert(after == before.remove(i as int));
                    assert(before.contains(id));
                    assert forall|a: int, b: int|
                        0 <= a < after.len() && 0 <= b < after.len() && a != b implies after[a]
                        != after[b] by {
                        let a0 = if a < i { a } else { a + 1 };
                        let b0 = if b < i { b } else { b + 1 };
                        assert(after[a] == before[a0] && after[b] == before[b0]);
                    }
                    assert forall|other: ThreadID| other != id implies after.contains(other)
                        == before.contains(other) by {
                        if before.contains(other) {
                            let k = choose|k: int| 0 <= k < before.len() && before[k] == other;
                            let k1 = if k < i { k } else { k - 1 };
                            assert(after[k1] == other);
                        }
                        if after.contains(other) {
                            let k = choose|k: int| 0 <= k < after.len() && after[k] == other;
                            let k0 = if k < i { k } else { k + 1 };
                            assert(before[k0] == other);
                        }
                    }
                    if after.contains(id) {
                        let k = choose|k: int| 0 <= k < after.len() && after[k] == id;
                        let k0 = if k < i { k } else { k + 1 };
                        assert(before[k0] == id);
                    }
                }
                return true;
            }
            i += 1;
        }
        false
    }
}

/// The table of all processes, by process ID. The ID 0 is that of the idle
/// process.
pub struct ProcessList {
    processes: BTreeMap<ProcessID, PCB>,
}

impl View for ProcessList {
    type V = Map<ProcessID, PCB>;

    closed spec fn view(&self) -> Map<ProcessID, PCB> {
        self.processes@
    }
}

impl ProcessList {
    /// Every process in the table is well formed.
    pub open spec fn wf(&self) -> bool {
        forall|pid: ProcessID| self@.contains_key(pid) ==> (#[trigger] self@[pid]).wf()
    }

    /// A table that holds the idle process alone.
    pub fn new() -> (list: ProcessList)
        ensures
            list.wf(),
            list@.dom() == set![0usize],
            list@[0].threads() == Seq::<ThreadID>::empty(),
            !list@[0].is_marked_dead(),
    {
        let mut processes = BTreeMap::new();
        processes.insert(0, PCB::idle_pcb());
        let list = ProcessList { processes };
        assert(list@.dom() =~= set![0usize]);
        list
    }

    /// Whether a process has the ID.
    pub fn contains(&self, pid: ProcessID) -> (r: bool)
        ensures
            r == self@.contains_key(pid),
    {
        self.processes.contains_key(&pid)
    }

    /// The process with the ID.
    pub fn get(&self, pid: ProcessID) -> (pcb: Option<&PCB>)
        ensures
            pcb is Some <==> self@.contains_key(pid),
            pcb is Some ==> *pcb.unwrap() == self@[pid],
    {
        self.processes.get(&pid)
    }

    /// Puts the process into the table under the ID and returns the process
    /// that had the ID before, if there was one.
    pub fn insert(&mut self, pid: ProcessID, pcb: PCB) -> (previous: Option<PCB>)
        ensures
            final(self)@ == old(self)@.insert(pid, pcb),
            previous is Some <==> old(self)@.contains_key(pid),
            previous is Some ==> previous.unwrap() == old(self)@[pid],
    {
        self.processes.insert(pid, pcb)
    }

    /// Takes the process with the ID out of the table.
    pub fn remove(&mut self, pid: ProcessID) -> (pcb: Option<PCB>)
        ensures
            final(self)@ == old(self)@.remove(pid),
            pcb is Some <==> old(self)@.contains_key(pid),
            pcb is Some ==> pcb.unwrap() == old(self)@[pid],
    {
        self.processes.remove(&pid)
    }

    /// The smallest positive process ID that no process has, or `None` if
    /// every ID is taken.
    pub fn find_pid(&self) -> (pid: Option<ProcessID>)
        ensures
            match pid {
                Some(pid) => pid >= 1 && !self@.contains_key(pid) && forall|other: ProcessID|
                    1 <= other < pid ==> self@.contains_key(other),
                None => forall|other: ProcessID| 1 <= other ==> self@.contains_key(other),
            },
    {
        let mut pid: ProcessID = 1;
        loop
            invariant
                pid >= 1,
                forall|other: ProcessID| 1 <= other < pid ==> self@.contains_key(other),
            decreases usize::MAX - pid,
        {
            if !self.contains(pid) {
                return Some(pid);
            }
            if pid == usize::MAX {
                return None;
            }
            pid += 1;
        }
    }
}

} // verus!
