//! Stacks: bounded regions of an address space that grow downward, one page at
//! a time.

use vstd::prelude::*;
use crate::memory::address_space::{
    admits, lemma_without_pushed, without_segment, AddressSpace, Segment, SegmentType,
};
use crate::memory::paging::table::Mapping;
use crate::memory::paging::{is_canonical, Page};
use crate::memory::{FrameAllocator, MapError, MemoryController, PageFlags, VirtualAddress, PAGE_SIZE};

verus! {

/// The kinds of stack that exist. Only full descending stacks are supported.
#[derive(Debug, PartialEq, Eq, Structural, Clone, Copy)]
pub enum StackType {
    /// The value currently pointed to is used and the stack grows downward.
    FullDescending,
}

/// Who may access a stack.
#[derive(Debug, PartialEq, Eq, Structural, Clone, Copy)]
pub enum AccessType {
    /// The stack can be accessed by usermode code.
    UserAccessible,
    /// The stack can only be accessed by the kernel.
    KernelOnly,
}

/// Why a stack, or the stacks of a thread, could not be created.
#[derive(Debug, PartialEq, Eq, Structural, Clone, Copy)]
pub enum StackError {
    /// The region of a stack overlaps a segment of the address space. This is
    /// what creating a thread answers where a region is taken; `Stack::new`
    /// itself demands a region that is free.
    SegmentOverlap,
    /// A page of the initial size could not be mapped.
    MapFailed(MapError),
}

/// A stack. Its region ends at the top address, which never moves; the bottom
/// address moves down as the stack grows and up as it shrinks.
#[derive(Debug)]
pub struct Stack {
    top_address: VirtualAddress,
    bottom_address: VirtualAddress,
    max_size: usize,
    /// The first value of the stack pointer.
    pub base_stack_pointer: VirtualAddress,
    access_type: AccessType,
}

/// What the page is mapped to in the address space that a stack operation
/// works on: the given one, or the kernel's active table where none is given.
pub open spec fn mapping_in(space: Option<AddressSpace>, memory: MemoryController, page: Page) -> Option<
    Mapping,
> {
    match space {
        Some(space) => space.mapping(page),
        None => memory.active_table.mapping(page),
    }
}

/// Whether the page is mapped as a page of a stack with the given flags: by a
/// 4 KiB entry that carries the flags of the segment around it or, where no
/// address space is given, the flags themselves.
pub open spec fn page_covered(
    space: Option<AddressSpace>,
    memory: MemoryController,
    flags: PageFlags,
    page: Page,
) -> bool {
    match space {
        Some(space) => space.maps_page_at((page.number * PAGE_SIZE) as u64),
        None => memory.maps_page_with((page.number * PAGE_SIZE) as u64, flags),
    }
}

/// Whether a stack operation has newly mapped the page: the page was
/// unmapped before, and is covered now.
pub open spec fn newly_mapped(
    space0: Option<AddressSpace>,
    memory0: MemoryController,
    space1: Option<AddressSpace>,
    memory1: MemoryController,
    flags: PageFlags,
    page: Page,
) -> bool {
    &&& page_covered(space1, memory1, flags, page)
    &&& mapping_in(space0, memory0, page) is None
}

/// Whether a stack operation has newly mapped a page of the space it began
/// in: the page was usable and unmapped before, and is covered now.
pub open spec fn newly_covered(
    space0: Option<AddressSpace>,
    memory0: MemoryController,
    space1: Option<AddressSpace>,
    memory1: MemoryController,
    flags: PageFlags,
    page: Page,
) -> bool {
    &&& page_covered(space1, memory1, flags, page)
    &&& page_usable(space0, page)
    &&& mapping_in(space0, memory0, page) is None
}

/// Whether a stack operation has let go of the page: a page that was mapped by
/// a 4 KiB entry is unmapped, any other page is as it was.
pub open spec fn released(
    space0: Option<AddressSpace>,
    memory0: MemoryController,
    space1: Option<AddressSpace>,
    memory1: MemoryController,
    page: Page,
) -> bool {
    let before = mapping_in(space0, memory0, page);
    let after = mapping_in(space1, memory1, page);
    if before is Some && before.unwrap().level == 1 {
        after is None
    } else {
        after == before
    }
}

/// Whether the frame of the page, which a stack operation has unmapped, is
/// free: if the page was mapped by a 4 KiB entry to a frame that the allocator
/// had handed out, the allocator has that frame back.
pub open spec fn frame_freed(
    space0: Option<AddressSpace>,
    memory0: MemoryController,
    memory1: MemoryController,
    page: Page,
) -> bool {
    let before = mapping_in(space0, memory0, page);
    before is Some && before.unwrap().level == 1
        && memory0.frame_allocator.allocated_frames().contains(before.unwrap().frame.number)
        ==> memory1.frame_allocator.free_frames().contains(before.unwrap().frame.number)
}

/// The flags that the pages of a stack of the kernel are mapped with:
/// readable and writable, and not for user mode.
pub open spec fn kernel_page_flags() -> PageFlags {
    PageFlags { readable: true, writable: true, user_accessible: false, no_cache: false }
}

/// Whether the page has an address and, where an address space is given, lies
/// in one of its segments.
pub open spec fn page_usable(space: Option<AddressSpace>, page: Page) -> bool {
    &&& page.number * PAGE_SIZE <= u64::MAX
    &&& is_canonical((page.number * PAGE_SIZE) as u64)
    &&& space matches Some(space) ==> space.in_segment((page.number * PAGE_SIZE) as u64)
}

/// The address space behind the reference, as it is now.
pub open spec fn now(space: Option<&mut AddressSpace>) -> Option<AddressSpace> {
    match space {
        Some(space) => Some(*space),
        None => None,
    }
}

/// The segments of the address space, if one is given.
pub open spec fn segments_of(space: Option<AddressSpace>) -> Seq<Segment> {
    match space {
        Some(space) => space.segments(),
        None => Seq::empty(),
    }
}

impl Stack {
    /// The top address.
    pub closed spec fn top(&self) -> int {
        self.top_address as int
    }

    /// The bottom address.
    pub closed spec fn bottom(&self) -> int {
        self.bottom_address as int
    }

    /// The largest size that the stack may reach.
    pub closed spec fn limit(&self) -> int {
        self.max_size as int
    }

    /// Who may access the stack.
    pub closed spec fn access(&self) -> AccessType {
        self.access_type
    }

    /// The first value of the stack pointer.
    pub closed spec fn base(&self) -> int {
        self.base_stack_pointer as int
    }

    /// The first address of the region of the stack.
    pub closed spec fn region_start(&self) -> VirtualAddress {
        (self.top_address - self.max_size) as u64
    }

    /// The size of the region of the stack.
    pub closed spec fn region_size(&self) -> usize {
        self.max_size
    }

    /// The region of the stack, in numbers: the addresses fit 64 bits and
    /// the limit fits a `usize`, and in a stack within its region so does the
    /// size.
    pub proof fn lemma_region(&self)
        ensures
            0 <= self.top() <= u64::MAX,
            0 <= self.bottom() <= u64::MAX,
            0 <= self.base() <= u64::MAX,
            0 <= self.limit() <= usize::MAX,
            self.region_size() == self.limit(),
            self.wf() ==> self.region_start() == self.top() - self.limit(),
            self.wf() ==> 0 <= self.top() - self.bottom() <= usize::MAX,
    {
    }

    /// The stack lies within its region: `top - max_size <= bottom <= top`.
    pub open spec fn wf(&self) -> bool {
        self.top() - self.limit() <= self.bottom() <= self.top() && self.limit() <= self.top()
    }

    /// The flags that the pages of the stack are mapped with.
    pub open spec fn page_flags(&self) -> PageFlags {
        PageFlags {
            readable: true,
            writable: true,
            user_accessible: self.access() == AccessType::UserAccessible,
            no_cache: false,
        }
    }

    /// The numbers of the first page of the stack and of the first page above
    /// it: the stack has mapped the pages from the first up to, and without,
    /// the second.
    pub open spec fn pages(&self) -> (int, int) {
        (self.bottom() / PAGE_SIZE as int, self.top() / PAGE_SIZE as int)
    }

    /// Whether the two stacks differ in the bottom address at most.
    pub open spec fn same_region(&self, other: Stack) -> bool {
        &&& self.top() == other.top()
        &&& self.limit() == other.limit()
        &&& self.access() == other.access()
        &&& self.base() == other.base()
    }

    /// The bottom address that growing by `amount` aims at.
    pub open spec fn grow_target(&self, amount: usize) -> int {
        if self.bottom() - amount >= self.top() - self.limit() {
            self.bottom() - amount
        } else {
            self.top() - self.limit()
        }
    }

    /// The bottom address that shrinking by `amount` leads to.
    pub open spec fn shrink_target(&self, amount: usize) -> int {
        if self.bottom() + amount <= self.top() {
            self.bottom() + amount
        } else {
            self.top()
        }
    }

    /// What growing by `amount` does, from the stack `self` in the space
    /// `space0` to the stack `grown` in the space `space1`.
    ///
    /// The pages are mapped from the highest down. On success the bottom is at
    /// the target. On failure it is just above the page that could not be
    /// mapped, and the error says of that page what went wrong. Either way the
    /// pages between the new and the old bottom, which were all unmapped, are
    /// now mapped, and no other page has changed. Where an address space is
    /// given, the kernel's active table is as it was.
    pub open spec fn grow_post(
        &self,
        grown: Stack,
        amount: usize,
        space0: Option<AddressSpace>,
        space1: Option<AddressSpace>,
        memory0: MemoryController,
        memory1: MemoryController,
        r: Result<(), MapError>,
    ) -> bool {
        let target = self.grow_target(amount);
        let low = grown.pages().0;
        let high = self.pages().0;
        let failed = Page { number: (low - 1) as u64 };
        &&& grown.wf()
        &&& grown.same_region(*self)
        &&& memory1.same_stack_area(memory0)
        &&& segments_of(space1) == segments_of(space0)
        &&& r is Ok ==> grown.bottom() == target
        &&& r is Err ==> target <= grown.bottom() <= self.bottom() && target / PAGE_SIZE as int <= low
            - 1 < high
        &&& forall|q: Page|
            low <= q.number < high ==> #[trigger] newly_covered(
                space0,
                memory0,
                space1,
                memory1,
                self.page_flags(),
                q,
            )
        &&& forall|q: Page|
            q.is_canonical() && !(low <= q.number < high) ==> #[trigger] mapping_in(
                space1,
                memory1,
                q,
            ) == mapping_in(space0, memory0, q)
        &&& memory1.frame_allocator.free_frames().subset_of(memory0.frame_allocator.free_frames())
        &&& space0 is Some ==> memory1.active_table == memory0.active_table
        &&& r matches Err(error) ==> self.failure_post(failed, error, space0, memory0, memory1)
        &&& self.grow_owed(amount, space0, memory0) ==> r is Ok
        &&& r is Ok ==> memory1.frame_allocator.free_frames().len() + 4 * (high - low)
            >= memory0.frame_allocator.free_frames().len()
    }

    /// A condition under which growing by `amount` is sure to succeed: every
    /// page down to the target has an address, lies in a segment where an
    /// address space is given, and is unmapped, and four frames are free for
    /// each of them.
    pub open spec fn grow_owed(
        &self,
        amount: usize,
        space0: Option<AddressSpace>,
        memory0: MemoryController,
    ) -> bool {
        let low = self.grow_target(amount) / PAGE_SIZE as int;
        let high = self.pages().0;
        &&& forall|q: Page|
            low <= q.number < high ==> #[trigger] page_usable(space0, q) && mapping_in(
                space0,
                memory0,
                q,
            ) is None
        &&& memory0.frame_allocator.free_frames().len() >= 4 * (high - low)
    }

    /// What the error says of the page that could not be mapped.
    pub open spec fn failure_post(
        &self,
        failed: Page,
        error: MapError,
        space0: Option<AddressSpace>,
        memory0: MemoryController,
        memory1: MemoryController,
    ) -> bool {
        &&& error == MapError::NotCanonical ==> !(failed.number * PAGE_SIZE <= u64::MAX
            && is_canonical((failed.number * PAGE_SIZE) as u64))
        &&& error == MapError::NotInSegment ==> !page_usable(space0, failed)
        &&& error == MapError::AlreadyMapped ==> mapping_in(space0, memory0, failed) is Some
        &&& error == MapError::OutOfMemory ==> memory1.frame_allocator.free_frames().len() <= 3
    }

    /// What shrinking by `amount` does, from the stack `self` in the space
    /// `space0` to the stack `shrunk` in the space `space1`: the bottom is at
    /// the target, no page between the old and the new bottom is mapped by a
    /// 4 KiB entry any more, the frames of those pages are free, and no other
    /// page has changed. No frame is handed out or lost. Where an address
    /// space is given, the kernel's active table is as it was.
    pub open spec fn shrink_post(
        &self,
        shrunk: Stack,
        amount: usize,
        space0: Option<AddressSpace>,
        space1: Option<AddressSpace>,
        memory0: MemoryController,
        memory1: MemoryController,
    ) -> bool {
        let low = self.pages().0;
        let high = shrunk.pages().0;
        &&& shrunk.wf()
        &&& shrunk.same_region(*self)
        &&& memory1.same_stack_area(memory0)
        &&& segments_of(space1) == segments_of(space0)
        &&& shrunk.bottom() == self.shrink_target(amount)
        &&& forall|q: Page|
            q.is_canonical() && low <= q.number < high ==> #[trigger] released(
                space0,
                memory0,
                space1,
                memory1,
                q,
            )
        &&& forall|q: Page|
            q.is_canonical() && !(low <= q.number < high) ==> #[trigger] mapping_in(
                space1,
                memory1,
                q,
            ) == mapping_in(space0, memory0, q)
        &&& forall|q: Page|
            q.is_canonical() && low <= q.number < high ==> #[trigger] frame_freed(
                space0,
                memory0,
                memory1,
                q,
            )
        &&& memory1.frames_returned(memory0)
        &&& space0 is Some ==> memory1.active_table == memory0.active_table
    }

    /// The top address.
    pub fn top_address(&self) -> (address: VirtualAddress)
        ensures
            address == self.top(),
    {
        self.top_address
    }

    /// The bottom address.
    pub fn bottom_address(&self) -> (address: VirtualAddress)
        ensures
            address == self.bottom(),
    {
        self.bottom_address
    }

    /// The first value of the stack pointer.
    pub fn base_stack_pointer(&self) -> (address: VirtualAddress)
        ensures
            address == self.base(),
    {
        self.base_stack_pointer
    }

    /// The largest size that the stack may reach.
    pub fn max_size(&self) -> (size: usize)
        ensures
            size == self.limit(),
    {
        self.max_size
    }

    /// Who may access the stack.
    pub fn access_type(&self) -> (access: AccessType)
        ensures
            access == self.access(),
    {
        self.access_type
    }

    /// The number of bytes between the bottom and the top.
    pub fn size(&self) -> (size: usize)
        requires
            self.wf(),
        ensures
            size == self.top() - self.bottom(),
    {
        (self.top_address - self.bottom_address) as usize
    }

    fn flags(&self) -> (flags: PageFlags)
        ensures
            flags == self.page_flags(),
    {
        let user_accessible = match self.access_type {
            AccessType::UserAccessible => true,
            AccessType::KernelOnly => false,
        };
        PageFlags { readable: true, writable: true, user_accessible, no_cache: false }
    }

    /// Grows the stack by `amount` bytes, or as far as its maximum size allows,
    /// and maps the pages that it newly covers. See [`Stack::grow_post`].
    pub fn grow(
        &mut self,
        amount: usize,
        mut address_space: Option<&mut AddressSpace>,
        memory: &mut MemoryController,
    ) -> (r: Result<(), MapError>)
        requires
            old(self).wf(),
            old(memory).wf(),
            address_space matches Some(space) ==> space.wf(),
        ensures
            final(memory).wf(),
            address_space matches Some(space) ==> final(space).wf(),
            ({
                let space0 = now(address_space);
                let space1 = match address_space {
                    Some(space) => Some(*final(space)),
                    None => None,
                };
                old(self).grow_post(
                    *final(self),
                    amount,
                    space0,
                    space1,
                    *old(memory),
                    *final(memory),
                    r,
                )
            }),
    {
        let lowest = self.top_address - self.max_size as u64;
        let new_bottom = if self.bottom_address - lowest >= amount as u64 {
            self.bottom_address - amount as u64
        } else {
            lowest
        };
        let flags = self.flags();
        let first_page_to_map = new_bottom / PAGE_SIZE;
        let last_page_to_map = self.bottom_address / PAGE_SIZE;
        let ghost given = address_space;
        let ghost space0 = now(address_space);
        let ghost memory0 = *memory;
        proof {
            memory.frame_allocator.lemma_disjoint();
        }
        let mut page_num = last_page_to_map;
        let mut failure: Option<MapError> = None;
        while page_num > first_page_to_map && failure.is_none()
            invariant
                *self == *old(self),
                self.wf(),
                flags == self.page_flags(),
                memory.wf(),
                memory.same_stack_area(memory0),
                given is Some ==> memory.active_table == memory0.active_table,
                first_page_to_map <= page_num <= last_page_to_map,
                last_page_to_map == self.bottom() / PAGE_SIZE as int,
                first_page_to_map == new_bottom / PAGE_SIZE,
                new_bottom == self.grow_target(amount),
                address_space is Some == given is Some,
                given matches Some(s0) ==> address_space matches Some(s) && *final(s) == *final(s0)
                    && s.wf() && space0 == Some(*s0),
                given is None ==> space0 is None,
                segments_of(now(address_space)) == segments_of(space0),
                forall|q: Page|
                    page_num <= q.number < last_page_to_map ==> #[trigger] newly_covered(
                        space0,
                        memory0,
                        now(address_space),
                        *memory,
                        flags,
                        q,
                    ),
                forall|q: Page|
                    q.is_canonical() && !(page_num <= q.number < last_page_to_map)
                        ==> #[trigger] mapping_in(now(address_space), *memory, q) == mapping_in(
                        space0,
                        memory0,
                        q,
                    ),
                memory.frame_allocator.free_frames().subset_of(
                    memory0.frame_allocator.free_frames(),
                ),
                memory.frame_allocator.free_frames().finite(),
                memory0.frame_allocator.free_frames().finite(),
                failure is None ==> memory.frame_allocator.free_frames().len() + 4 * (
                last_page_to_map - page_num) >= memory0.frame_allocator.free_frames().len(),
                failure is Some ==> !self.grow_owed(amount, space0, memory0),
                failure is Some ==> page_num > first_page_to_map && self.failure_post(
                    Page { number: (page_num - 1) as u64 },
                    failure.unwrap(),
                    space0,
                    memory0,
                    *memory,
                ),
            decreases page_num + (if failure is None { 1int } else { 0int }),
        {
            let address = (page_num - 1) * PAGE_SIZE;
            let ghost page = Page { number: (page_num - 1) as u64 };
            let ghost space_before = now(address_space);
            let ghost memory_before = *memory;
            let mapped = match address_space {
                Some(ref mut space) => space.map_page(address, &mut memory.frame_allocator),
                None => memory.map_page(address, flags),
            };
            let ghost space_after = now(address_space);
            proof {
                memory.frame_allocator.lemma_disjoint();
                vstd::set_lib::lemma_len_subset(
                    memory.frame_allocator.free_frames(),
                    memory_before.frame_allocator.free_frames(),
                );
                assert(crate::memory::paging::page_of(address) == page);
                assert(page.is_canonical() ==> mapping_in(space_before, memory_before, page)
                    == mapping_in(space0, memory0, page));
                assert forall|q: Page| q.is_canonical() && q != page implies #[trigger] mapping_in(
                    space_after,
                    *memory,
                    q,
                ) == mapping_in(space_before, memory_before, q) by {}
                assert forall|q: Page|
                    page_num <= q.number < last_page_to_map implies #[trigger] newly_covered(
                    space0,
                    memory0,
                    space_after,
                    *memory,
                    flags,
                    q,
                ) by {
                    assert(newly_covered(space0, memory0, space_before, memory_before, flags, q));
                    assert(crate::memory::paging::page_of((q.number * PAGE_SIZE) as u64) == q);
                    assert(q.is_canonical());
                    assert(mapping_in(space_after, *memory, q) == mapping_in(
                        space_before,
                        memory_before,
                        q,
                    ));
                }
            }
            proof {
                if space0 is Some {
                    assert(space_before.unwrap().segments() == space0.unwrap().segments());
                    assert(space_before.unwrap().in_segment(address) == space0.unwrap().in_segment(
                        address,
                    ));
                }
            }
            match mapped {
                Err(error) => {
                    failure = Some(error);
                    proof {
                        assert forall|q: Page| #[trigger]
                            mapping_in(space_after, *memory, q) == mapping_in(
                                space_before,
                                memory_before,
                                q,
                            ) by {}
                        if self.grow_owed(amount, space0, memory0) {
                            let low = self.grow_target(amount) / PAGE_SIZE as int;
                            let high = self.pages().0;
                            assert(low == first_page_to_map);
                            assert(high == last_page_to_map);
                            assert(low <= page.number < high);
                            assert(page_usable(space0, page));
                            assert(mapping_in(space0, memory0, page) is None);
                            assert(memory_before.frame_allocator.free_frames().len() >= 4);
                        }
                    }
                },
                Ok(()) => {
                    proof {
                        assert(page_covered(space_after, *memory, flags, page));
                        assert(page_usable(space0, page));
                        assert(mapping_in(space0, memory0, page) is None);
                        assert(newly_covered(space0, memory0, space_after, *memory, flags, page));
                    }
                    page_num -= 1;
                },
            }
        }
        match failure {
            Some(error) => {
                if page_num < last_page_to_map {
                    self.bottom_address = page_num * PAGE_SIZE;
                }
                assert(self.pages().0 == page_num);
                return Err(error);
            },
            None => {},
        }
        self.bottom_address = new_bottom;
        Ok(())
    }

    /// Shrinks the stack by `amount` bytes, or down to nothing, and unmaps the
    /// pages that it no longer covers; their frames go back to the allocator.
    /// See [`Stack::shrink_post`]. The caller flushes the pages' TLB entries.
    pub fn shrink(
        &mut self,
        amount: usize,
        mut address_space: Option<&mut AddressSpace>,
        memory: &mut MemoryController,
    )
        requires
            old(self).wf(),
            old(memory).wf(),
            address_space matches Some(space) ==> space.wf(),
        ensures
            final(memory).wf(),
            address_space matches Some(space) ==> final(space).wf(),
            ({
                let space0 = now(address_space);
                let space1 = match address_space {
                    Some(space) => Some(*final(space)),
                    None => None,
                };
                old(self).shrink_post(
                    *final(self),
                    amount,
                    space0,
                    space1,
                    *old(memory),
                    *final(memory),
                )
            }),
    {
        let new_bottom = if self.top_address - self.bottom_address >= amount as u64 {
            self.bottom_address + amount as u64
        } else {
            self.top_address
        };
        let first_page_to_unmap = self.bottom_address / PAGE_SIZE;
        let last_page_to_unmap = new_bottom / PAGE_SIZE;
        let ghost given = address_space;
        let ghost space0 = now(address_space);
        let ghost memory0 = *memory;
        let mut page_num = first_page_to_unmap;
        while page_num < last_page_to_unmap
            invariant
                *self == *old(self),
                self.wf(),
                memory.wf(),
                memory.same_stack_area(memory0),
                given is Some ==> memory.active_table == memory0.active_table,
                first_page_to_unmap <= page_num <= last_page_to_unmap,
                last_page_to_unmap * PAGE_SIZE <= u64::MAX,
                address_space is Some == given is Some,
                given matches Some(s0) ==> address_space matches Some(s) && *final(s) == *final(s0)
                    && s.wf() && space0 == Some(*s0),
                given is None ==> space0 is None,
                segments_of(now(address_space)) == segments_of(space0),
                forall|q: Page|
                    q.is_canonical() && first_page_to_unmap <= q.number < page_num
                        ==> #[trigger] released(space0, memory0, now(address_space), *memory, q),
                forall|q: Page|
                    q.is_canonical() && !(first_page_to_unmap <= q.number < page_num)
                        ==> #[trigger] mapping_in(now(address_space), *memory, q) == mapping_in(
                        space0,
                        memory0,
                        q,
                    ),
                memory0.frame_allocator.free_frames().subset_of(
                    memory.frame_allocator.free_frames(),
                ),
                memory.frame_allocator.allocated_frames().subset_of(
                    memory0.frame_allocator.allocated_frames(),
                ),
                forall|n: u64|
                    memory0.frame_allocator.allocated_frames().contains(n)
                        && !memory.frame_allocator.allocated_frames().contains(n)
                        ==> #[trigger] memory.frame_allocator.free_frames().contains(n),
                forall|q: Page|
                    q.is_canonical() && first_page_to_unmap <= q.number < page_num
                        ==> #[trigger] frame_freed(space0, memory0, *memory, q),
            decreases last_page_to_unmap - page_num,
        {
            let address = page_num * PAGE_SIZE;
            let ghost page = Page { number: page_num };
            let ghost space_before = now(address_space);
            let ghost memory_before = *memory;
            match address_space {
                Some(ref mut space) => {
                    space.unmap_page(address, &mut memory.frame_allocator);
                },
                None => {
                    memory.unmap_page(address);
                },
            }
            let ghost space_after = now(address_space);
            proof {
                assert(crate::memory::paging::page_of(address) == page);
                assert forall|q: Page| q.is_canonical() && q != page implies #[trigger] mapping_in(
                    space_after,
                    *memory,
                    q,
                ) == mapping_in(space_before, memory_before, q) by {}
                assert forall|n: u64|
                    memory0.frame_allocator.allocated_frames().contains(n)
                        && !memory.frame_allocator.allocated_frames().contains(n)
                        implies #[trigger] memory.frame_allocator.free_frames().contains(n) by {
                    if !memory_before.frame_allocator.allocated_frames().contains(n) {
                        assert(memory_before.frame_allocator.free_frames().contains(n));
                    }
                }
                assert forall|q: Page|
                    q.is_canonical() && first_page_to_unmap <= q.number < page_num
                        + 1 implies #[trigger] frame_freed(space0, memory0, *memory, q) by {
                    if q.number == page_num {
                        assert(q == page);
                        assert(mapping_in(space_before, memory_before, q) == mapping_in(
                            space0,
                            memory0,
                            q,
                        ));
                    } else {
                        assert(frame_freed(space0, memory0, memory_before, q));
                    }
                }
                assert forall|q: Page|
                    q.is_canonical() && first_page_to_unmap <= q.number < page_num
                        + 1 implies #[trigger] released(space0, memory0, space_after, *memory, q) by {
                    if q.number == page_num {
                        assert(q == page);
                        assert(mapping_in(space_before, memory_before, q) == mapping_in(
                            space0,
                            memory0,
                            q,
                        ));
                    } else {
                        assert(released(space0, memory0, space_before, memory_before, q));
                        assert(mapping_in(space_after, *memory, q) == mapping_in(
                            space_before,
                            memory_before,
                            q,
                        ));
                    }
                }
            }
            page_num += 1;
        }
        self.bottom_address = new_bottom;
    }

    /// Resizes the stack to `new_size` bytes, or as near to it as the maximum
    /// size allows: a larger size grows the stack as [`Stack::grow`] does, any
    /// other size shrinks it as [`Stack::shrink`] does, which never fails.
    pub fn resize(
        &mut self,
        new_size: usize,
        address_space: Option<&mut AddressSpace>,
        memory: &mut MemoryController,
    ) -> (r: Result<(), MapError>)
        requires
            old(self).wf(),
            old(memory).wf(),
            address_space matches Some(space) ==> space.wf(),
        ensures
            final(memory).wf(),
            address_space matches Some(space) ==> final(space).wf(),
            ({
                let space0 = now(address_space);
                let space1 = match address_space {
                    Some(space) => Some(*final(space)),
                    None => None,
                };
                let size = old(self).top() - old(self).bottom();
                if new_size > size {
                    old(self).grow_post(
                        *final(self),
                        (new_size - size) as usize,
                        space0,
                        space1,
                        *old(memory),
                        *final(memory),
                        r,
                    )
                } else {
                    r is Ok && old(self).shrink_post(
                        *final(self),
                        (size - new_size) as usize,
                        space0,
                        space1,
                        *old(memory),
                        *final(memory),
                    )
                }
            }),
    {
        let current_size = self.top_address - self.bottom_address;
        if new_size as u64 > current_size {
            self.grow((new_size as u64 - current_size) as usize, address_space, memory)
        } else {
            self.shrink((current_size - new_size as u64) as usize, address_space, memory);
            Ok(())
        }
    }

    /// The stack that `new` starts from: empty, with its top at the end of the
    /// region of `max_size` bytes from `start_address` on.
    pub closed spec fn empty_at(
        max_size: usize,
        start_address: VirtualAddress,
        access_type: AccessType,
    ) -> Stack {
        Stack {
            top_address: (start_address + max_size) as u64,
            bottom_address: (start_address + max_size) as u64,
            max_size,
            base_stack_pointer: (start_address + max_size) as u64,
            access_type,
        }
    }

    /// The empty stack is what its arguments say.
    pub proof fn lemma_empty_at(max_size: usize, start_address: VirtualAddress, access_type: AccessType)
        requires
            start_address + max_size <= u64::MAX,
        ensures
            ({
                let stack = Stack::empty_at(max_size, start_address, access_type);
                &&& stack.wf()
                &&& stack.top() == start_address + max_size
                &&& stack.bottom() == stack.top()
                &&& stack.base() == stack.top()
                &&& stack.limit() == max_size
                &&& stack.access() == access_type
            }),
    {
    }

    /// The segment that a stack of the region registers with an address space.
    pub open spec fn segment_of(max_size: usize, start_address: VirtualAddress, access_type: AccessType) -> Segment {
        Segment {
            start: start_address,
            size: max_size,
            flags: PageFlags {
                readable: true,
                writable: true,
                user_accessible: access_type == AccessType::UserAccessible,
                no_cache: false,
            },
            segment_type: SegmentType::MemoryOnly,
        }
    }

    /// What creating a stack does, in the space `space0`, which becomes
    /// `space1`; see [`Stack::new`]. Where an address space is given, the
    /// kernel's active table is as it was.
    pub open spec fn new_post(
        r: Result<Stack, StackError>,
        initial_size: usize,
        max_size: usize,
        start_address: VirtualAddress,
        access_type: AccessType,
        space0: Option<AddressSpace>,
        space1: Option<AddressSpace>,
        memory0: MemoryController,
        memory1: MemoryController,
    ) -> bool {
        let segment = Stack::segment_of(max_size, start_address, access_type);
        let empty = Stack::empty_at(max_size, start_address, access_type);
        let stack = r->Ok_0;
        &&& memory1.same_stack_area(memory0)
        &&& space0 is Some ==> memory1.active_table == memory0.active_table
        &&& r != Err::<Stack, StackError>(StackError::SegmentOverlap)
        &&& r is Ok ==> memory1.frame_allocator.free_frames().subset_of(
            memory0.frame_allocator.free_frames(),
        )
        &&& Stack::new_owed(initial_size, max_size, start_address, access_type, space0, memory0)
            ==> r is Ok
        &&& r is Ok ==> memory1.frame_allocator.free_frames().len() + 4 * (stack.pages().1
            - stack.pages().0) >= memory0.frame_allocator.free_frames().len()
        &&& r is Ok ==> {
            &&& stack.wf()
            &&& stack.same_region(empty)
            &&& stack.bottom() == empty.grow_target(initial_size)
            &&& space0 is Some ==> segments_of(space1) == segments_of(space0).push(segment)
            &&& forall|q: Page|
                stack.pages().0 <= q.number < stack.pages().1 ==> #[trigger] newly_mapped(
                    space0,
                    memory0,
                    space1,
                    memory1,
                    stack.page_flags(),
                    q,
                )
            &&& forall|q: Page|
                q.is_canonical() && !(stack.pages().0 <= q.number < stack.pages().1)
                    ==> #[trigger] mapping_in(space1, memory1, q) == mapping_in(
                    space0,
                    memory0,
                    q,
                )
        }
        &&& r is Err ==> {
            &&& segments_of(space1) == segments_of(space0)
            &&& forall|q: Page|
                q.is_canonical() ==> #[trigger] mapping_in(space1, memory1, q) == mapping_in(
                    space0,
                    memory0,
                    q,
                )
        }
    }

    /// A condition under which creating a stack is sure to succeed: the region
    /// overlaps no segment, every page of the initial size lies in the region,
    /// has a canonical address and is unmapped, and four frames are free for
    /// each of them.
    pub open spec fn new_owed(
        initial_size: usize,
        max_size: usize,
        start_address: VirtualAddress,
        access_type: AccessType,
        space0: Option<AddressSpace>,
        memory0: MemoryController,
    ) -> bool {
        let empty = Stack::empty_at(max_size, start_address, access_type);
        let low = empty.grow_target(initial_size) / PAGE_SIZE as int;
        let high = empty.pages().0;
        &&& space0 is Some ==> admits(
            segments_of(space0),
            Stack::segment_of(max_size, start_address, access_type),
        )
        &&& forall|q: Page|
            low <= q.number < high ==> (#[trigger] mapping_in(space0, memory0, q)) is None
                && start_address <= q.number * PAGE_SIZE && is_canonical(
                (q.number * PAGE_SIZE) as u64,
            )
        &&& memory0.frame_allocator.free_frames().len() >= 4 * (high - low)
    }

    /// What giving up the stack `self` does, in the space `space0`, which
    /// becomes `space1`; see [`Stack::release`]. No frame is handed out or
    /// lost. Where an address space is given, the kernel's active table is as
    /// it was.
    pub open spec fn release_post(
        &self,
        after: Stack,
        space0: Option<AddressSpace>,
        space1: Option<AddressSpace>,
        memory0: MemoryController,
        memory1: MemoryController,
    ) -> bool {
        let start = self.region_start();
        let size = self.region_size();
        let before = space0.unwrap();
        &&& after.wf()
        &&& after.same_region(*self)
        &&& after.bottom() == after.top()
        &&& memory1.same_stack_area(memory0)
        &&& forall|q: Page|
            q.is_canonical() && self.pages().0 <= q.number < self.pages().1 ==> #[trigger] released(
                space0,
                memory0,
                space1,
                memory1,
                q,
            )
        &&& forall|q: Page|
            q.is_canonical() && !(self.pages().0 <= q.number < self.pages().1)
                ==> #[trigger] mapping_in(space1, memory1, q) == mapping_in(space0, memory0, q)
        &&& forall|q: Page|
            q.is_canonical() && self.pages().0 <= q.number < self.pages().1 ==> #[trigger] frame_freed(
                space0,
                memory0,
                memory1,
                q,
            )
        &&& segments_of(space1) == if space0 is Some {
            without_segment(before.segments(), start, size)
        } else {
            segments_of(space0)
        }
        &&& memory1.frames_returned(memory0)
        &&& space0 is Some ==> memory1.active_table == memory0.active_table
    }

    /// Whether the address space has room for a stack in the region of
    /// `max_size` bytes from `start_address` on: whether the region overlaps
    /// no segment of the address space.
    pub fn fits(
        max_size: usize,
        start_address: VirtualAddress,
        access_type: AccessType,
        address_space: &AddressSpace,
    ) -> (fits: bool)
        requires
            start_address + max_size <= u64::MAX,
            address_space.wf(),
        ensures
            fits == admits(
                address_space.segments(),
                Stack::segment_of(max_size, start_address, access_type),
            ),
    {
        let user_accessible = match access_type {
            AccessType::UserAccessible => true,
            AccessType::KernelOnly => false,
        };
        let flags = PageFlags { readable: true, writable: true, user_accessible, no_cache: false };
        let segment = Segment::new(start_address, max_size, flags, SegmentType::MemoryOnly);
        address_space.admits_segment(&segment)
    }

    /// Creates a stack in the region of `max_size` bytes from `start_address`
    /// on and grows it to `initial_size` bytes.
    ///
    /// Where an address space is given, the region is first registered there
    /// as a segment. It must overlap no segment that is there: a stack on
    /// ground that is taken is a fault of the kernel, and whoever cannot rule
    /// it out asks [`Stack::fits`] first. If a page of the initial size cannot
    /// be mapped, the pages mapped so far are unmapped and the segment is
    /// taken out again: every page is mapped as before the call, and the call
    /// fails with the error of that page.
    pub fn new(
        initial_size: usize,
        max_size: usize,
        start_address: VirtualAddress,
        access_type: AccessType,
        mut address_space: Option<&mut AddressSpace>,
        memory: &mut MemoryController,
    ) -> (r: Result<Stack, StackError>)
        requires
            start_address + max_size <= u64::MAX,
            old(memory).wf(),
            address_space matches Some(space) ==> space.wf() && admits(
                space.segments(),
                Stack::segment_of(max_size, start_address, access_type),
            ),
        ensures
            final(memory).wf(),
            address_space matches Some(space) ==> final(space).wf(),
            ({
                let space0 = now(address_space);
                let space1 = match address_space {
                    Some(space) => Some(*final(space)),
                    None => None,
                };
                Stack::new_post(
                    r,
                    initial_size,
                    max_size,
                    start_address,
                    access_type,
                    space0,
                    space1,
                    *old(memory),
                    *final(memory),
                )
            }),
    {
        let top = start_address + max_size as u64;
        let mut stack = Stack {
            top_address: top,
            bottom_address: top,
            max_size,
            base_stack_pointer: top,
            access_type,
        };
        let ghost space0 = now(address_space);
        let ghost memory0 = *memory;
        let ghost empty = stack;
        let segment = Segment::new(start_address, max_size, stack.flags(), SegmentType::MemoryOnly);
        assert(segment == Stack::segment_of(max_size, start_address, access_type));
        assert(empty == Stack::empty_at(max_size, start_address, access_type));
        match address_space {
            Some(ref mut space) => {
                let added = space.add_segment(segment);
                assert(added);
            },
            None => {},
        }
        let ghost space_mid = now(address_space);
        proof {
            assert forall|q: Page| #[trigger]
                mapping_in(space_mid, memory0, q) == mapping_in(space0, memory0, q) by {}
            if Stack::new_owed(initial_size, max_size, start_address, access_type, space0, memory0) {
                let low = empty.grow_target(initial_size) / PAGE_SIZE as int;
                let high = empty.pages().0;
                assert forall|q: Page| low <= q.number < high implies #[trigger] page_usable(
                    space_mid,
                    q,
                ) && mapping_in(space_mid, memory0, q) is None by {
                    assert(mapping_in(space0, memory0, q) is None);
                    if space_mid is Some {
                        let segments = space_mid.unwrap().segments();
                        let last = segments.len() - 1;
                        assert(segments[last] == segment);
                        assert(segments[last].contains_address((q.number * PAGE_SIZE) as u64));
                    }
                }
                assert(empty.grow_owed(initial_size, space_mid, memory0));
            }
        }
        let grown = match address_space {
            Some(ref mut space) => stack.grow(initial_size, Some(&mut **space), memory),
            None => stack.grow(initial_size, None, memory),
        };
        let ghost space_grown = now(address_space);
        let ghost memory_grown = *memory;
        let ghost grown_stack = stack;
        assert(empty.grow_post(
            grown_stack,
            initial_size,
            space_mid,
            space_grown,
            memory0,
            memory_grown,
            grown,
        ));
        match grown {
            Ok(()) => {
                proof {
                    assert(stack.pages().1 == empty.pages().0);
                    assert forall|q: Page|
                        stack.pages().0 <= q.number < stack.pages().1 implies #[trigger] newly_mapped(
                        space0,
                        memory0,
                        space_grown,
                        *memory,
                        stack.page_flags(),
                        q,
                    ) by {
                        assert(newly_covered(
                            space_mid,
                            memory0,
                            space_grown,
                            *memory,
                            empty.page_flags(),
                            q,
                        ));
                        assert(mapping_in(space_mid, memory0, q) == mapping_in(space0, memory0, q));
                    }
                    assert forall|q: Page|
                        q.is_canonical() && !(stack.pages().0 <= q.number < stack.pages().1)
                            implies #[trigger] mapping_in(space_grown, *memory, q) == mapping_in(
                        space0,
                        memory0,
                        q,
                    ) by {
                        assert(mapping_in(space_mid, memory0, q) == mapping_in(space0, memory0, q));
                    }
                }
                Ok(stack)
            },
            Err(error) => {
                let size = stack.size();
                match address_space {
                    Some(ref mut space) => {
                        stack.shrink(size, Some(&mut **space), memory);
                    },
                    None => {
                        stack.shrink(size, None, memory);
                    },
                }
                let ghost space_shrunk = now(address_space);
                let ghost memory_shrunk = *memory;
                assert(grown_stack.shrink_post(
                    stack,
                    size,
                    space_grown,
                    space_shrunk,
                    memory_grown,
                    memory_shrunk,
                ));
                match address_space {
                    Some(ref mut space) => {
                        space.remove_segment(start_address, max_size);
                    },
                    None => {},
                }
                proof {
                    let space_end = now(address_space);
                    if space0 is Some {
                        let pushed = space0.unwrap().segments().push(segment);
                        assert(space_mid.unwrap().segments() == pushed);
                        assert(space_shrunk.unwrap().segments() == pushed);
                        lemma_without_pushed(space0.unwrap().segments(), segment);
                    }
                    assert forall|q: Page| q.is_canonical() implies #[trigger] mapping_in(
                        space_end,
                        *memory,
                        q,
                    ) == mapping_in(space0, memory0, q) by {
                        assert(mapping_in(space_end, *memory, q) == mapping_in(
                            space_shrunk,
                            memory_shrunk,
                            q,
                        ));
                        assert(mapping_in(space_mid, memory0, q) == mapping_in(space0, memory0, q));
                        assert(stack.pages().0 == empty.pages().0);
                        if grown_stack.pages().0 <= q.number < empty.pages().0 {
                            assert(newly_covered(
                                space_mid,
                                memory0,
                                space_grown,
                                memory_grown,
                                empty.page_flags(),
                                q,
                            ));
                            assert(crate::memory::paging::page_of((q.number * PAGE_SIZE) as u64)
                                == q);
                            assert(released(
                                space_grown,
                                memory_grown,
                                space_shrunk,
                                memory_shrunk,
                                q,
                            ));
                        } else {
                            assert(mapping_in(space_shrunk, memory_shrunk, q) == mapping_in(
                                space_grown,
                                memory_grown,
                                q,
                            ));
                            assert(mapping_in(space_grown, memory_grown, q) == mapping_in(
                                space_mid,
                                memory0,
                                q,
                            ));
                        }
                    }
                }
                Err(StackError::MapFailed(error))
            },
        }
    }

    /// Gives up the stack: unmaps all its pages and, where an address space is
    /// given, takes its segment out of it. This is to be called before the
    /// address space of the stack goes away.
    pub fn release(&mut self, mut address_space: Option<&mut AddressSpace>, memory: &mut MemoryController)
        requires
            old(self).wf(),
            old(memory).wf(),
            address_space matches Some(space) ==> space.wf(),
        ensures
            final(memory).wf(),
            address_space matches Some(space) ==> final(space).wf(),
            ({
                let space0 = now(address_space);
                let space1 = match address_space {
                    Some(space) => Some(*final(space)),
                    None => None,
                };
                old(self).release_post(*final(self), space0, space1, *old(memory), *final(memory))
            }),
    {
        let size = self.size();
        let start = self.top_address - self.max_size as u64;
        let max_size = self.max_size;
        let ghost space0 = now(address_space);
        let ghost memory0 = *memory;
        match address_space {
            Some(ref mut space) => {
                self.shrink(size, Some(&mut **space), memory);
            },
            None => {
                self.shrink(size, None, memory);
            },
        }
        let ghost space_shrunk = now(address_space);
        let ghost memory_shrunk = *memory;
        assert(old(self).shrink_post(*self, size, space0, space_shrunk, memory0, memory_shrunk));
        match address_space {
            Some(ref mut space) => {
                space.remove_segment(start, max_size);
            },
            None => {},
        }
        proof {
            let space_end = now(address_space);
            assert(self.pages().0 == old(self).pages().1);
            assert forall|q: Page|
                q.is_canonical() && old(self).pages().0 <= q.number < old(self).pages().1
                    implies #[trigger] released(space0, memory0, space_end, *memory, q) by {
                assert(released(space0, memory0, space_shrunk, memory_shrunk, q));
                assert(mapping_in(space_end, *memory, q) == mapping_in(
                    space_shrunk,
                    memory_shrunk,
                    q,
                ));
            }
            assert forall|q: Page|
                q.is_canonical() && !(old(self).pages().0 <= q.number < old(self).pages().1)
                    implies #[trigger] mapping_in(space_end, *memory, q) == mapping_in(
                space0,
                memory0,
                q,
            ) by {
                assert(mapping_in(space_end, *memory, q) == mapping_in(
                    space_shrunk,
                    memory_shrunk,
                    q,
                ));
            }
            assert forall|q: Page|
                q.is_canonical() && old(self).pages().0 <= q.number < old(self).pages().1
                    implies #[trigger] frame_freed(space0, memory0, *memory, q) by {
                assert(frame_freed(space0, memory0, memory_shrunk, q));
            }
            if space0 is Some {
                assert(space_shrunk.unwrap().segments() == space0.unwrap().segments());
            }
            old(self).lemma_region();
        }
    }
}

} // verus!
