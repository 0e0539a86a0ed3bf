//! Physical frames and the memory controller that ties the active page table to
//! the frame allocator.

use vstd::prelude::*;

pub mod address_space;
pub mod area_frame_allocator;
pub mod heap;
pub mod paging;

use crate::memory::area_frame_allocator::AreaFrameAllocator;
use crate::memory::paging::entry::{EntryFlags, NO_CACHE, PRESENT, USER_ACCESSIBLE, WRITABLE};
use crate::memory::paging::mapper::Mapper;
use crate::memory::paging::table::{Mapping, OutOfMemory};
use crate::memory::paging::{is_canonical, page_of, Page};
use crate::multitasking::stack::{mapping_in, newly_mapped, AccessType, Stack};

verus! {

/// The size of a page and of a frame in bytes.
pub const PAGE_SIZE: u64 = 4096;

/// The largest frame number whose start address fits the 52-bit physical
/// address field of a page-table entry.
pub const MAX_FRAME_NUMBER: u64 = 0xff_ffff_ffff;

/// A physical address.
pub type PhysicalAddress = u64;

/// A virtual address.
pub type VirtualAddress = u64;

/// The architecture-independent access flags of a page or a segment.
#[derive(Debug, PartialEq, Eq, Structural, Clone, Copy)]
pub struct PageFlags {
    /// The page can be read.
    pub readable: bool,
    /// The page can be written.
    pub writable: bool,
    /// Code running in user mode may access the page.
    pub user_accessible: bool,
    /// Accesses to the page bypass the cache.
    pub no_cache: bool,
}

impl PageFlags {
    /// The page-table entry flags that stand for these flags. A mapped page is
    /// always readable, so `readable` sets no bit.
    pub open spec fn entry_bits(&self) -> u64 {
        let bits = 0u64;
        let bits = if self.writable {
            bits | WRITABLE
        } else {
            bits
        };
        let bits = if self.user_accessible {
            bits | USER_ACCESSIBLE
        } else {
            bits
        };
        if self.no_cache {
            bits | NO_CACHE
        } else {
            bits
        }
    }

    /// No access at all.
    pub fn empty() -> (flags: PageFlags)
        ensures
            flags == (PageFlags {
                readable: false,
                writable: false,
                user_accessible: false,
                no_cache: false,
            }),
    {
        PageFlags { readable: false, writable: false, user_accessible: false, no_cache: false }
    }

    /// The flags of either set.
    pub fn union(self, other: PageFlags) -> (flags: PageFlags)
        ensures
            flags.readable == (self.readable || other.readable),
            flags.writable == (self.writable || other.writable),
            flags.user_accessible == (self.user_accessible || other.user_accessible),
            flags.no_cache == (self.no_cache || other.no_cache),
    {
        PageFlags {
            readable: self.readable || other.readable,
            writable: self.writable || other.writable,
            user_accessible: self.user_accessible || other.user_accessible,
            no_cache: self.no_cache || other.no_cache,
        }
    }

    /// Whether every flag of `other` is among these.
    pub fn contains(&self, other: PageFlags) -> (r: bool)
        ensures
            r == ((other.readable ==> self.readable) && (other.writable ==> self.writable) && (
            other.user_accessible ==> self.user_accessible) && (other.no_cache
                ==> self.no_cache)),
    {
        (!other.readable || self.readable) && (!other.writable || self.writable) && (
        !other.user_accessible || self.user_accessible) && (!other.no_cache || self.no_cache)
    }

    /// The page-table entry flags that stand for these flags.
    pub fn to_entry_flags(&self) -> (flags: EntryFlags)
        ensures
            flags@ == self.entry_bits(),
    {
        let mut flags = EntryFlags::empty();
        if self.writable {
            flags = flags.union(EntryFlags::writable());
        }
        if self.user_accessible {
            flags = flags.union(EntryFlags::user_accessible());
        }
        if self.no_cache {
            flags = flags.union(EntryFlags::no_cache());
        }
        flags
    }
}

/// Why a page could not be mapped.
#[derive(Debug, PartialEq, Eq, Structural, Clone, Copy)]
pub enum MapError {
    /// The address is not canonical.
    NotCanonical,
    /// No segment of the address space contains the address.
    NotInSegment,
    /// The page is mapped already.
    AlreadyMapped,
    /// The allocator ran out of frames.
    OutOfMemory,
}

/// The frame that contains the address.
pub open spec fn frame_at(address: PhysicalAddress) -> Frame {
    Frame { number: address / PAGE_SIZE }
}

/// One physical page frame, identified by its number (`address / PAGE_SIZE`).
#[derive(Debug, PartialEq, Eq, Structural, PartialOrd, Ord, Clone, Copy)]
pub struct Frame {
    pub number: u64,
}

impl Frame {
    /// Whether the frame lies inside the physical address space that a page-table
    /// entry can name.
    pub open spec fn is_addressable(&self) -> bool {
        self.number <= MAX_FRAME_NUMBER
    }

    /// The frame that contains the given physical address.
    pub fn containing_address(address: PhysicalAddress) -> (frame: Frame)
        ensures
            frame == frame_at(address),
            frame.number * PAGE_SIZE <= address < frame.number * PAGE_SIZE + PAGE_SIZE,
    {
        Frame { number: address / PAGE_SIZE }
    }

    /// The first physical address of the frame.
    pub fn start_address(&self) -> (address: PhysicalAddress)
        requires
            self.is_addressable(),
        ensures
            address == self.number * PAGE_SIZE,
    {
        self.number * PAGE_SIZE
    }

    /// The frames from `start` to `end`, both included, in ascending order.
    pub fn range_inclusive(start: Frame, end: Frame) -> (iter: FrameIter)
        requires
            end.number < u64::MAX,
        ensures
            iter.wf(),
            iter@ == frame_range(start.number as int, end.number as int),
    {
        FrameIter { start, end }
    }
}

/// A source of physical frames.
///
/// An allocator divides the frames it manages into those it may still hand out
/// and those that are handed out; no frame is ever both.
pub trait FrameAllocator {
    /// Whether the allocator is in order; every operation needs and keeps
    /// this.
    spec fn wf(&self) -> bool;

    /// The numbers of the frames that the allocator may hand out.
    spec fn free_frames(&self) -> Set<u64>;

    /// The numbers of the frames that are handed out and not yet given back.
    spec fn allocated_frames(&self) -> Set<u64>;

    /// The two sets are finite and share no frame.
    proof fn lemma_disjoint(&self)
        requires
            self.wf(),
        ensures
            self.free_frames().finite(),
            self.allocated_frames().finite(),
            self.free_frames().disjoint(self.allocated_frames()),
    ;

    /// Hands out a free frame, or `None` when no frame is free.
    fn allocate_frame(&mut self) -> (frame: Option<Frame>)
        requires
            old(self).wf(),
        ensures
            final(self).wf(),
            frame is None <==> old(self).free_frames().is_empty(),
            frame is None ==> final(self).free_frames() == old(self).free_frames()
                && final(self).allocated_frames() == old(self).allocated_frames(),
            frame is Some ==> {
                &&& frame.unwrap().is_addressable()
                &&& !old(self).allocated_frames().contains(frame.unwrap().number)
                &&& old(self).free_frames().contains(frame.unwrap().number)
                &&& final(self).free_frames() == old(self).free_frames().remove(
                    frame.unwrap().number,
                )
                &&& final(self).allocated_frames() == old(self).allocated_frames().insert(
                    frame.unwrap().number,
                )
            },
    ;

    /// Takes a handed-out frame back. A frame that is not handed out is ignored.
    fn deallocate_frame(&mut self, frame: Frame)
        requires
            old(self).wf(),
        ensures
            final(self).wf(),
            old(self).allocated_frames().contains(frame.number) ==> {
                &&& final(self).free_frames() == old(self).free_frames().insert(frame.number)
                &&& final(self).allocated_frames() == old(self).allocated_frames().remove(
                    frame.number,
                )
            },
            !old(self).allocated_frames().contains(frame.number) ==> {
                &&& final(self).free_frames() == old(self).free_frames()
                &&& final(self).allocated_frames() == old(self).allocated_frames()
            },
    ;
}

/// The frames numbered `start ..= end`, in ascending order.
pub open spec fn frame_range(start: int, end: int) -> Seq<Frame> {
    Seq::new(
        if start <= end { (end - start + 1) as nat } else { 0 },
        |i: int| Frame { number: (start + i) as u64 },
    )
}

/// An ascending walk over a closed range of frames.
pub struct FrameIter {
    start: Frame,
    end: Frame,
}

impl View for FrameIter {
    type V = Seq<Frame>;

    /// The frames that are still to come.
    closed spec fn view(&self) -> Seq<Frame> {
        frame_range(self.start.number as int, self.end.number as int)
    }
}

impl FrameIter {
    pub closed spec fn wf(&self) -> bool {
        self.end.number < u64::MAX
    }

    /// Hands out the next frame of the range, or `None` once it is used up.
    pub fn next(&mut self) -> (frame: Option<Frame>)
        requires
            old(self).wf(),
        ensures
            final(self).wf(),
            old(self)@.len() == 0 ==> frame is None && final(self)@ == old(self)@,
            old(self)@.len() > 0 ==> frame == Some(old(self)@[0]) && final(self)@ == old(self)@.drop_first(),
    {
        if self.start.number <= self.end.number {
            let frame = self.start;
            self.start.number += 1;
            assert(self@ =~= old(self)@.drop_first());
            Some(frame)
        } else {
            None
        }
    }
}

/// The kernel's own view of memory: the page table that is active while the
/// kernel runs, and the allocator that all frames come from.
pub struct MemoryController {
    pub active_table: Mapper,
    pub frame_allocator: AreaFrameAllocator,
    /// The first address of the area for stacks that is not given away yet.
    pub stack_area_next: VirtualAddress,
    /// The first address after the area for stacks.
    pub stack_area_end: VirtualAddress,
}

impl MemoryController {
    pub open spec fn wf(&self) -> bool {
        self.active_table.wf() && self.frame_allocator.wf()
    }

    /// Whether the two controllers hand out stacks from the same area, and
    /// have given away the same part of it.
    pub open spec fn same_stack_area(&self, other: MemoryController) -> bool {
        self.stack_area_next == other.stack_area_next && self.stack_area_end
            == other.stack_area_end
    }

    /// Whether the allocator of this controller is that of `before` after
    /// frames were given back and none was handed out: every frame that was
    /// free is free, every frame that is handed out was handed out, and every
    /// frame that is no longer handed out is free.
    pub open spec fn frames_returned(&self, before: MemoryController) -> bool {
        &&& before.frame_allocator.free_frames().subset_of(self.frame_allocator.free_frames())
        &&& self.frame_allocator.allocated_frames().subset_of(
            before.frame_allocator.allocated_frames(),
        )
        &&& forall|n: u64|
            before.frame_allocator.allocated_frames().contains(n)
                && !self.frame_allocator.allocated_frames().contains(n)
                ==> #[trigger] self.frame_allocator.free_frames().contains(n)
    }

    /// Whether this controller is `before` but for frames that were given
    /// back: the active table and the area for stacks are the same, and the
    /// frames are as [`MemoryController::frames_returned`] says.
    pub open spec fn only_freed(&self, before: MemoryController) -> bool {
        &&& self.active_table == before.active_table
        &&& self.same_stack_area(before)
        &&& self.frames_returned(before)
    }

    /// Whether this controller is `before` but for frames that were handed
    /// out: the active table and the area for stacks are the same, and every
    /// frame that is free was free.
    pub open spec fn only_taken(&self, before: MemoryController) -> bool {
        &&& self.active_table == before.active_table
        &&& self.same_stack_area(before)
        &&& self.frame_allocator.free_frames().subset_of(before.frame_allocator.free_frames())
    }

    /// Giving frames back twice is giving frames back.
    pub proof fn lemma_only_freed_twice(&self, between: MemoryController, before: MemoryController)
        requires
            between.only_freed(before),
            self.only_freed(between),
        ensures
            self.only_freed(before),
    {
        assert forall|n: u64|
            before.frame_allocator.allocated_frames().contains(n)
                && !self.frame_allocator.allocated_frames().contains(n)
                implies #[trigger] self.frame_allocator.free_frames().contains(n) by {
            if !between.frame_allocator.allocated_frames().contains(n) {
                assert(between.frame_allocator.free_frames().contains(n));
            }
        }
    }

    /// Whether the active table maps the page of `address` by a 4 KiB entry
    /// that carries exactly the given flags.
    pub open spec fn maps_page_with(&self, address: VirtualAddress, flags: PageFlags) -> bool {
        let mapping = self.active_table.mapping(page_of(address));
        &&& mapping is Some
        &&& mapping.unwrap().level == 1
        &&& mapping.unwrap().flags == flags.entry_bits() | PRESENT
    }

    /// A controller over the given page table and allocator, which hands out
    /// stacks from the area between the two addresses.
    pub fn new(
        active_table: Mapper,
        frame_allocator: AreaFrameAllocator,
        stack_area_start: VirtualAddress,
        stack_area_end: VirtualAddress,
    ) -> (controller: MemoryController)
        ensures
            controller.active_table == active_table,
            controller.frame_allocator == frame_allocator,
            controller.stack_area_next == stack_area_start,
            controller.stack_area_end == stack_area_end,
    {
        MemoryController {
            active_table,
            frame_allocator,
            stack_area_next: stack_area_start,
            stack_area_end,
        }
    }

    /// What allocating a stack of `size_in_pages` pages does, from the
    /// controller `self` to the controller `after`.
    ///
    /// The stack takes the next pages of the stack area, behind one page that
    /// stays unmapped as a guard. It is fully grown, and its pages are newly
    /// mapped in the active table. Where no stack is handed out, the area and
    /// every page are as before; that is so whenever no page is asked for or
    /// the area has not enough room left for the guard page and the stack. A
    /// stack is handed out whenever there is room and [`Stack::new_owed`]
    /// holds of its pages.
    pub open spec fn alloc_stack_post(
        &self,
        after: MemoryController,
        size_in_pages: usize,
        r: Option<Stack>,
    ) -> bool {
        let size = size_in_pages * PAGE_SIZE;
        let start = self.stack_area_next + PAGE_SIZE;
        &&& after.wf()
        &&& after.stack_area_end == self.stack_area_end
        &&& (size_in_pages == 0 || start + size > self.stack_area_end || size > usize::MAX)
            ==> r is None
        &&& size_in_pages > 0 && start + size <= self.stack_area_end && size <= usize::MAX
            && Stack::new_owed(
            size as usize,
            size as usize,
            start as u64,
            AccessType::KernelOnly,
            None,
            *self,
        ) ==> r is Some
        &&& r is None ==> {
            &&& after.stack_area_next == self.stack_area_next
            &&& forall|q: Page|
                q.is_canonical() ==> #[trigger] after.active_table.mapping(q)
                    == self.active_table.mapping(q)
        }
        &&& r is Some ==> {
            let stack = r.unwrap();
            &&& stack.wf()
            &&& stack.bottom() == start
            &&& stack.top() == start + size
            &&& stack.limit() == size
            &&& stack.access() == AccessType::KernelOnly
            &&& after.stack_area_next == start + size
            &&& forall|q: Page|
                stack.pages().0 <= q.number < stack.pages().1 ==> #[trigger] newly_mapped(
                    None,
                    *self,
                    None,
                    after,
                    stack.page_flags(),
                    q,
                )
            &&& forall|q: Page|
                q.is_canonical() && !(stack.pages().0 <= q.number < stack.pages().1)
                    ==> #[trigger] after.active_table.mapping(q) == self.active_table.mapping(q)
        }
    }

    /// Allocates a kernel stack of `size_in_pages` pages from the stack area.
    /// See [`MemoryController::alloc_stack_post`].
    pub fn alloc_stack(&mut self, size_in_pages: usize) -> (r: Option<Stack>)
        requires
            old(self).wf(),
        ensures
            old(self).alloc_stack_post(*final(self), size_in_pages, r),
    {
        if size_in_pages == 0 {
            return None;
        }
        if self.stack_area_next > u64::MAX - PAGE_SIZE {
            return None;
        }
        let start = self.stack_area_next + PAGE_SIZE;
        if start > self.stack_area_end {
            return None;
        }
        let room = self.stack_area_end - start;
        if size_in_pages as u64 > room / PAGE_SIZE {
            return None;
        }
        let size = size_in_pages as u64 * PAGE_SIZE;
        if size > usize::MAX as u64 {
            return None;
        }
        let ghost before = *self;
        match Stack::new(size as usize, size as usize, start, AccessType::KernelOnly, None, self) {
            Ok(stack) => {
                let ghost grown = *self;
                self.stack_area_next = start + size;
                proof {
                    Stack::lemma_empty_at(size as usize, start, AccessType::KernelOnly);
                    assert forall|q: Page|
                        stack.pages().0 <= q.number < stack.pages().1 implies #[trigger] newly_mapped(
                        None,
                        before,
                        None,
                        *self,
                        stack.page_flags(),
                        q,
                    ) by {
                        assert(newly_mapped(None, before, None, grown, stack.page_flags(), q));
                    }
                    assert forall|q: Page|
                        q.is_canonical() && !(stack.pages().0 <= q.number < stack.pages().1)
                            implies #[trigger] self.active_table.mapping(q)
                        == before.active_table.mapping(q) by {
                        assert(mapping_in(None, grown, q) == mapping_in(None, before, q));
                    }
                }
                Some(stack)
            },
            Err(_) => {
                proof {
                    assert forall|q: Page| q.is_canonical() implies #[trigger] self.active_table.mapping(
                        q,
                    ) == before.active_table.mapping(q) by {
                        assert(mapping_in(None, *self, q) == mapping_in(None, before, q));
                    }
                }
                None
            },
        }
    }

    /// Maps the page to the frame in the active table; see [`Mapper::map_to`].
    pub fn map_to(&mut self, page: Page, frame: Frame, flags: EntryFlags) -> (r: Result<
        (),
        OutOfMemory,
    >)
        requires
            old(self).wf(),
            old(self).active_table.mapping(page) is None,
            frame.is_addressable(),
        ensures
            final(self).wf(),
            r is Ok <==> old(self).frame_allocator.free_frames().len() >= old(self).active_table.missing_tables(page),
            r is Ok ==> final(self).active_table.mapping(page) == Some(
                Mapping { frame, flags: flags@ | PRESENT, level: 1 },
            ),
            r is Err ==> forall|q: Page| #[trigger]
                final(self).active_table.mapping(q) == old(self).active_table.mapping(q),
            forall|q: Page|
                q.is_canonical() && page.is_canonical() && q != page
                    ==> #[trigger] final(self).active_table.mapping(q) == old(self).active_table.mapping(q),
    {
        self.active_table.map_to(page, frame, flags, &mut self.frame_allocator)
    }

    /// Maps the page to a fresh frame in the active table; see [`Mapper::map`].
    pub fn map(&mut self, page: Page, flags: EntryFlags) -> (r: Result<(), OutOfMemory>)
        requires
            old(self).wf(),
            old(self).active_table.mapping(page) is None,
        ensures
            final(self).wf(),
            r is Ok <==> old(self).frame_allocator.free_frames().len() >= old(self).active_table.missing_tables(page) + 1,
            r is Ok ==> {
                let mapping = final(self).active_table.mapping(page);
                &&& mapping is Some
                &&& mapping.unwrap().flags == flags@ | PRESENT
                &&& mapping.unwrap().level == 1
                &&& old(self).frame_allocator.free_frames().contains(mapping.unwrap().frame.number)
                &&& final(self).frame_allocator.allocated_frames().contains(
                    mapping.unwrap().frame.number,
                )
            },
            r is Err ==> forall|q: Page| #[trigger]
                final(self).active_table.mapping(q) == old(self).active_table.mapping(q),
            forall|q: Page|
                q.is_canonical() && page.is_canonical() && q != page
                    ==> #[trigger] final(self).active_table.mapping(q) == old(self).active_table.mapping(q),
    {
        self.active_table.map(page, flags, &mut self.frame_allocator)
    }

    /// Maps the page at the frame's own address to the frame; see
    /// [`Mapper::identity_map`].
    pub fn identity_map(&mut self, frame: Frame, flags: EntryFlags) -> (r: Result<(), OutOfMemory>)
        requires
            old(self).wf(),
            frame.is_addressable(),
            is_canonical((frame.number * PAGE_SIZE) as u64),
            old(self).active_table.mapping(page_of((frame.number * PAGE_SIZE) as u64)) is None,
        ensures
            final(self).wf(),
            r is Ok <==> old(self).frame_allocator.free_frames().len() >= old(self).active_table.missing_tables(page_of((frame.number * PAGE_SIZE) as u64)),
            r is Ok ==> final(self).active_table.mapping(
                page_of((frame.number * PAGE_SIZE) as u64),
            ) == Some(Mapping { frame, flags: flags@ | PRESENT, level: 1 }),
            r is Err ==> forall|q: Page| #[trigger]
                final(self).active_table.mapping(q) == old(self).active_table.mapping(q),
            forall|q: Page|
                q.is_canonical() && q != page_of((frame.number * PAGE_SIZE) as u64)
                    ==> #[trigger] final(self).active_table.mapping(q) == old(self).active_table.mapping(q),
    {
        self.active_table.identity_map(frame, flags, &mut self.frame_allocator)
    }

    /// Unmaps the page in the active table and returns the frame it was mapped
    /// to; see [`Mapper::unmap`].
    pub fn unmap(&mut self, page: Page) -> (frame: Frame)
        requires
            old(self).wf(),
            old(self).active_table.mapping(page) is Some,
            old(self).active_table.mapping(page).unwrap().level == 1,
        ensures
            final(self).wf(),
            final(self).active_table.mapping(page) is None,
            frame == old(self).active_table.mapping(page).unwrap().frame,
            forall|q: Page|
                q.is_canonical() && page.is_canonical() && q != page
                    ==> #[trigger] final(self).active_table.mapping(q) == old(self).active_table.mapping(q),
            final(self).frame_allocator.free_frames() == old(self).frame_allocator.free_frames(),
            final(self).frame_allocator.allocated_frames() == old(self).frame_allocator.allocated_frames(),
    {
        self.active_table.unmap(page, &mut self.frame_allocator)
    }

    /// Maps the page of the virtual address to the frame of the physical
    /// address in the active table; see [`Mapper::map_page_at`].
    pub fn map_page_at(
        &mut self,
        virtual_address: VirtualAddress,
        physical_address: PhysicalAddress,
        flags: EntryFlags,
    ) -> (r: Result<(), OutOfMemory>)
        requires
            old(self).wf(),
            is_canonical(virtual_address),
            old(self).active_table.mapping(page_of(virtual_address)) is None,
            frame_at(physical_address).is_addressable(),
        ensures
            final(self).wf(),
            r is Ok <==> old(self).frame_allocator.free_frames().len() >= old(self).active_table.missing_tables(page_of(virtual_address)),
            r is Ok ==> final(self).active_table.mapping(page_of(virtual_address)) == Some(
                Mapping { frame: frame_at(physical_address), flags: flags@ | PRESENT, level: 1 },
            ),
            r is Err ==> forall|q: Page| #[trigger]
                final(self).active_table.mapping(q) == old(self).active_table.mapping(q),
            forall|q: Page|
                q.is_canonical() && q != page_of(virtual_address)
                    ==> #[trigger] final(self).active_table.mapping(q) == old(self).active_table.mapping(q),
    {
        self.active_table.map_page_at(
            virtual_address,
            physical_address,
            flags,
            &mut self.frame_allocator,
        )
    }

    /// The frames from the one that contains `start_address` to the one that
    /// contains `end_address`, both included.
    pub fn frame_range_inclusive(
        &self,
        start_address: PhysicalAddress,
        end_address: PhysicalAddress,
    ) -> (iter: FrameIter)
        ensures
            iter.wf(),
            iter@ == frame_range(
                start_address as int / PAGE_SIZE as int,
                end_address as int / PAGE_SIZE as int,
            ),
    {
        let start_frame = Frame::containing_address(start_address);
        let end_frame = Frame::containing_address(end_address);
        Frame::range_inclusive(start_frame, end_frame)
    }

    /// Maps the page that contains the address to a fresh frame in the active
    /// table, with the given flags.
    ///
    /// The conditions are tested in the order of the error variants (a segment
    /// is not asked for); when one fails, no page has changed what it is mapped
    /// to.
    pub fn map_page(&mut self, address: VirtualAddress, flags: PageFlags) -> (r: Result<
        (),
        MapError,
    >)
        requires
            old(self).wf(),
        ensures
            final(self).wf(),
            final(self).same_stack_area(*old(self)),
            r == Err::<(), MapError>(MapError::NotCanonical) <==> !is_canonical(address),
            r != Err::<(), MapError>(MapError::NotInSegment),
            r == Err::<(), MapError>(MapError::AlreadyMapped) <==> is_canonical(address) && old(self).active_table.mapping(page_of(address)) is Some,
            r == Err::<(), MapError>(MapError::OutOfMemory) <==> is_canonical(address) && old(self).active_table.mapping(page_of(address)) is None && old(self).frame_allocator.free_frames().len() < old(self).active_table.missing_tables(
                page_of(address),
            ) + 1,
            r is Ok ==> final(self).maps_page_with(address, flags),
            r is Ok ==> final(self).frame_allocator.free_frames().len() + 4 >= old(self).frame_allocator.free_frames().len(),
            old(self).frame_allocator.free_frames().len() >= 4 ==> r != Err::<(), MapError>(
                MapError::OutOfMemory,
            ),
            r == Err::<(), MapError>(MapError::OutOfMemory) ==> final(self).frame_allocator.free_frames().len() <= 3,
            r is Err ==> forall|q: Page| #[trigger]
                final(self).active_table.mapping(q) == old(self).active_table.mapping(q),
            forall|q: Page|
                q.is_canonical() && q != page_of(address) ==> #[trigger] final(self).active_table.mapping(q) == old(self).active_table.mapping(q),
            final(self).frame_allocator.free_frames().subset_of(
                old(self).frame_allocator.free_frames(),
            ),
            old(self).frame_allocator.allocated_frames().subset_of(
                final(self).frame_allocator.allocated_frames(),
            ),
    {
        if !(address < 0x0000_8000_0000_0000 || address >= 0xffff_8000_0000_0000) {
            return Err(MapError::NotCanonical);
        }
        let page = Page::containing_address(address);
        if self.active_table.translate_page(page).is_some() {
            return Err(MapError::AlreadyMapped);
        }
        proof {
            self.active_table.lemma_missing_tables(page);
            self.frame_allocator.lemma_disjoint();
        }
        let ghost free = self.frame_allocator.free_frames();
        match self.active_table.map(page, flags.to_entry_flags(), &mut self.frame_allocator) {
            Ok(()) => Ok(()),
            Err(_) => {
                proof {
                    self.frame_allocator.lemma_disjoint();
                    vstd::set_lib::lemma_len_subset(self.frame_allocator.free_frames(), free);
                }
                Err(MapError::OutOfMemory)
            },
        }
    }

    /// Unmaps the page that contains the address in the active table and gives
    /// its frame back to the allocator. Returns whether the page was mapped by
    /// a 4 KiB entry; if not, nothing has changed.
    pub fn unmap_page(&mut self, address: VirtualAddress) -> (unmapped: bool)
        requires
            old(self).wf(),
        ensures
            final(self).wf(),
            final(self).same_stack_area(*old(self)),
            unmapped == (is_canonical(address) && old(self).active_table.mapping(page_of(address))
                is Some && old(self).active_table.mapping(page_of(address)).unwrap().level == 1),
            unmapped ==> final(self).active_table.mapping(page_of(address)) is None,
            !unmapped ==> forall|q: Page| #[trigger]
                final(self).active_table.mapping(q) == old(self).active_table.mapping(q),
            forall|q: Page|
                q.is_canonical() && q != page_of(address) ==> #[trigger] final(self).active_table.mapping(q) == old(self).active_table.mapping(q),
            old(self).frame_allocator.free_frames().subset_of(
                final(self).frame_allocator.free_frames(),
            ),
            final(self).frame_allocator.allocated_frames().subset_of(
                old(self).frame_allocator.allocated_frames(),
            ),
            unmapped && old(self).frame_allocator.allocated_frames().contains(
                old(self).active_table.mapping(page_of(address)).unwrap().frame.number,
            ) ==> {
                let number = old(self).active_table.mapping(page_of(address)).unwrap().frame.number;
                &&& final(self).frame_allocator.free_frames() == old(self).frame_allocator.free_frames().insert(number)
                &&& final(self).frame_allocator.allocated_frames() == old(self).frame_allocator.allocated_frames().remove(number)
            },
            !(unmapped && old(self).frame_allocator.allocated_frames().contains(
                old(self).active_table.mapping(page_of(address)).unwrap().frame.number,
            )) ==> {
                &&& final(self).frame_allocator.free_frames() == old(self).frame_allocator.free_frames()
                &&& final(self).frame_allocator.allocated_frames() == old(self).frame_allocator.allocated_frames()
            },
    {
        if !(address < 0x0000_8000_0000_0000 || address >= 0xffff_8000_0000_0000) {
            return false;
        }
        let page = Page::containing_address(address);
        match self.active_table.lookup(page) {
            Some((_, _, level)) => {
                if level != 1 {
                    return false;
                }
            },
            None => {
                return false;
            },
        }
        let frame = self.active_table.unmap(page, &mut self.frame_allocator);
        self.frame_allocator.deallocate_frame(frame);
        true
    }
}

} // verus!
