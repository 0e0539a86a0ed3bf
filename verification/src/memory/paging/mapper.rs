//! The mapper: address lookup, mapping and unmapping on one four-level page table.

use vstd::prelude::*;
use crate::memory::{
    frame_at, Frame, FrameAllocator, PhysicalAddress, VirtualAddress, PAGE_SIZE,
};
use crate::memory::paging::{is_canonical, page_of, Page};
use crate::memory::paging::entry::{EntryFlags, HUGE_PAGE, PRESENT};
use crate::memory::paging::table::{
    huge_offset, huge_page_frames, same_path, same_upper_path, Mapping, OutOfMemory, Table,
};

verus! {

/// A four-level page table, seen from its root.
pub struct Mapper {
    p4: Table,
}

impl Mapper {
    pub closed spec fn wf(&self) -> bool {
        self.p4.wf(4)
    }

    /// What the page is mapped to, if it is mapped.
    pub closed spec fn mapping(&self, page: Page) -> Option<Mapping> {
        self.p4.walk(4, page)
    }

    /// The frame that the page is mapped to, if it is mapped.
    pub open spec fn translate_page_spec(&self, page: Page) -> Option<Frame> {
        match self.mapping(page) {
            Some(mapping) => Some(mapping.frame),
            None => None,
        }
    }

    /// The physical address that the virtual address is mapped to, if its page
    /// is mapped.
    pub open spec fn translate_spec(&self, virtual_address: VirtualAddress) -> Option<
        PhysicalAddress,
    > {
        match self.translate_page_spec(page_of(virtual_address)) {
            Some(frame) => Some((frame.number * PAGE_SIZE + virtual_address % PAGE_SIZE) as u64),
            None => None,
        }
    }

    /// A page that is mapped to a frame has its first address mapped to the
    /// first address of the frame; this is what `translate` finds after
    /// `map_to`.
    pub proof fn lemma_mapped_translates(&self, page: Page, frame: Frame)
        requires
            self.translate_page_spec(page) == Some(frame),
            page.number * PAGE_SIZE <= u64::MAX,
            frame.number * PAGE_SIZE <= u64::MAX,
        ensures
            self.translate_spec((page.number * PAGE_SIZE) as u64) == Some(
                (frame.number * PAGE_SIZE) as u64,
            ),
    {
        assert(page_of((page.number * PAGE_SIZE) as u64) == page);
    }

    /// A page that is not mapped has none of its addresses mapped; this is
    /// what `translate` finds after `unmap`.
    pub proof fn lemma_unmapped_translates(&self, page: Page, offset: u64)
        requires
            self.mapping(page) is None,
            offset < PAGE_SIZE,
            page.number * PAGE_SIZE + offset <= u64::MAX,
        ensures
            self.translate_spec((page.number * PAGE_SIZE + offset) as u64) is None,
    {
        assert(page_of((page.number * PAGE_SIZE + offset) as u64) == page);
    }

    /// A page table that maps nothing: it consists of the root table alone,
    /// so that three tables are missing on the way to any page.
    pub fn new() -> (mapper: Mapper)
        ensures
            mapper.wf(),
            forall|page: Page| mapper.mapping(page) is None,
            forall|page: Page| #[trigger] mapper.missing_tables(page) == 3,
    {
        Mapper { p4: Table::new(4) }
    }

    /// The root table.
    pub fn p4(&self) -> (table: &Table)
        ensures
            self.wf() ==> table.wf(4),
    {
        &self.p4
    }

    /// Translates a virtual address to the physical address it is mapped to.
    /// Returns `None` if the address is not mapped.
    pub fn translate(&self, virtual_address: VirtualAddress) -> (address: Option<PhysicalAddress>)
        requires
            self.wf(),
            is_canonical(virtual_address),
        ensures
            address == self.translate_spec(virtual_address),
    {
        let offset = virtual_address % PAGE_SIZE;
        match self.translate_page(Page::containing_address(virtual_address)) {
            Some(frame) => Some(frame.number * PAGE_SIZE + offset),
            None => None,
        }
    }

    /// The frame that the page is mapped to, through a 4 KiB entry or through a
    /// huge page of 1 GiB or 2 MiB. Returns `None` if the page is not mapped.
    pub fn translate_page(&self, page: Page) -> (frame: Option<Frame>)
        requires
            self.wf(),
        ensures
            frame == self.translate_page_spec(page),
            frame is Some ==> frame.unwrap().number <= 0xff_ffff_ffff + 0x4_0000,
    {
        let p4_index = page.p4_index();
        let p3_index = page.p3_index();
        let p2_index = page.p2_index();
        let p1_index = page.p1_index();
        let huge = EntryFlags::huge_page();
        proof {
            reveal_with_fuel(Table::walk, 5);
        }

        let p3 = match self.p4.next_table(p4_index) {
            Some(table) => table,
            None => {
                assert(self.p4.entry_wf(4, p4_index as int));
                return None;
            },
        };
        assert(self.p4.entry_wf(4, p4_index as int));
        assert(p3.wf(3));
        assert(p3.entry_wf(3, p3_index as int));
        let p3_entry = p3.entry(p3_index);
        // 1 GiB page?
        if let Some(start_frame) = p3_entry.pointed_frame() {
            if p3_entry.flags().contains(huge) {
                return Some(
                    Frame {
                        number: start_frame.number + (p2_index as u64) * 512 + (p1_index as u64),
                    },
                );
            }
        }
        let p2 = match p3.next_table(p3_index) {
            Some(table) => table,
            None => {
                return None;
            },
        };
        assert(p2.wf(2));
        assert(p2.entry_wf(2, p2_index as int));
        let p2_entry = p2.entry(p2_index);
        // 2 MiB page?
        if let Some(start_frame) = p2_entry.pointed_frame() {
            if p2_entry.flags().contains(huge) {
                return Some(Frame { number: start_frame.number + (p1_index as u64) });
            }
        }
        let p1 = match p2.next_table(p2_index) {
            Some(table) => table,
            None => {
                return None;
            },
        };
        assert(p1.wf(1));
        p1.entry(p1_index).pointed_frame()
    }

    /// What the page is mapped to: the frame, the flags of the entry that maps
    /// it, and the level of that entry (1, or 2 and 3 for a huge page).
    pub fn lookup(&self, page: Page) -> (r: Option<(Frame, EntryFlags, usize)>)
        requires
            self.wf(),
        ensures
            r is Some <==> self.mapping(page) is Some,
            r is Some ==> self.mapping(page) == Some(
                Mapping { frame: r.unwrap().0, flags: r.unwrap().1@, level: r.unwrap().2 as nat },
            ),
    {
        let p4_index = page.p4_index();
        let p3_index = page.p3_index();
        let p2_index = page.p2_index();
        let p1_index = page.p1_index();
        let huge = EntryFlags::huge_page();
        proof {
            reveal_with_fuel(Table::walk, 5);
        }
        let p3 = match self.p4.next_table(p4_index) {
            Some(table) => table,
            None => {
                assert(self.p4.entry_wf(4, p4_index as int));
                return None;
            },
        };
        assert(self.p4.entry_wf(4, p4_index as int));
        assert(p3.wf(3));
        assert(p3.entry_wf(3, p3_index as int));
        let p3_entry = p3.entry(p3_index);
        if let Some(start_frame) = p3_entry.pointed_frame() {
            if p3_entry.flags().contains(huge) {
                let number = start_frame.number + (p2_index as u64) * 512 + (p1_index as u64);
                return Some((Frame { number }, p3_entry.flags(), 3));
            }
        }
        let p2 = match p3.next_table(p3_index) {
            Some(table) => table,
            None => {
                return None;
            },
        };
        assert(p2.wf(2));
        assert(p2.entry_wf(2, p2_index as int));
        let p2_entry = p2.entry(p2_index);
        if let Some(start_frame) = p2_entry.pointed_frame() {
            if p2_entry.flags().contains(huge) {
                let number = start_frame.number + (p1_index as u64);
                return Some((Frame { number }, p2_entry.flags(), 2));
            }
        }
        let p1 = match p2.next_table(p2_index) {
            Some(table) => table,
            None => {
                return None;
            },
        };
        assert(p1.wf(1));
        let p1_entry = p1.entry(p1_index);
        match p1_entry.pointed_frame() {
            Some(frame) => Some((frame, p1_entry.flags(), 1)),
            None => None,
        }
    }

    /// The number of page tables that are missing on the way to the page's
    /// leaf entry; mapping the page takes that many frames.
    pub closed spec fn missing_tables(&self, page: Page) -> nat {
        self.p4.missing_tables(4, page)
    }

    /// At most three tables are ever missing, and none once the page is mapped
    /// by a leaf entry.
    pub proof fn lemma_missing_tables(&self, page: Page)
        requires
            self.wf(),
        ensures
            self.missing_tables(page) <= 3,
            self.mapping(page) is Some && self.mapping(page).unwrap().level == 1
                ==> self.missing_tables(page) == 0,
    {
        reveal_with_fuel(Table::walk, 5);
        reveal_with_fuel(Table::missing_tables, 5);
        reveal_with_fuel(Table::wf, 5);
        Page::lemma_index_bounds(page, 4);
        Page::lemma_index_bounds(page, 3);
        Page::lemma_index_bounds(page, 2);
        Page::lemma_index_bounds(page, 1);
        let p4 = self.p4;
        assert(p4.entry_wf(4, page.index_at(4)));
        if p4.table_at(page.index_at(4)) is Some {
            let p3 = p4.table_at(page.index_at(4)).unwrap();
            assert(p3.entry_wf(3, page.index_at(3)));
            if p3.table_at(page.index_at(3)) is Some {
                let p2 = p3.table_at(page.index_at(3)).unwrap();
                assert(p2.entry_wf(2, page.index_at(2)));
            }
        }
    }

    /// Maps the page to the frame with the given flags, to which `PRESENT` is
    /// added. Page tables that are missing on the way are created, each in a
    /// frame taken from the allocator.
    ///
    /// The page must not be mapped yet. The call fails exactly when the
    /// allocator has fewer free frames than tables are missing; no page has
    /// then changed what it is mapped to.
    pub fn map_to<A: FrameAllocator>(
        &mut self,
        page: Page,
        frame: Frame,
        flags: EntryFlags,
        allocator: &mut A,
    ) -> (r: Result<(), OutOfMemory>)
        requires
            old(self).wf(),
            old(self).mapping(page) is None,
            frame.is_addressable(),
            old(allocator).wf(),
        ensures
            final(self).wf(),
            final(allocator).wf(),
            r is Ok <==> old(allocator).free_frames().len() >= old(self).missing_tables(page),
            r is Ok ==> final(self).mapping(page) == Some(
                Mapping { frame, flags: flags@ | PRESENT, level: 1 },
            ),
            r is Ok ==> final(allocator).free_frames().len() == old(allocator).free_frames().len()
                - old(self).missing_tables(page),
            r is Err ==> forall|q: Page| #[trigger] final(self).mapping(q) == old(self).mapping(q),
            forall|q: Page|
                !same_path(page, q, 4) ==> #[trigger] final(self).mapping(q) == old(self).mapping(
                    q,
                ),
            forall|q: Page|
                q.is_canonical() && page.is_canonical() && q != page
                    ==> #[trigger] final(self).mapping(q) == old(self).mapping(q),
            final(allocator).free_frames().subset_of(old(allocator).free_frames()),
            old(allocator).allocated_frames().subset_of(final(allocator).allocated_frames()),
    {
        proof {
            assert forall|q: Page| q.is_canonical() && page.is_canonical() && q != page implies
                !same_path(page, q, 4) by {
                if same_path(page, q, 4) {
                    Page::lemma_same_path_same_page(page, q);
                }
            }
        }
        self.p4.map_in(4, page, frame, flags, allocator)
    }

    /// Whether a huge page of the level `level` can be mapped for the page:
    /// the entry that would map it is clear, and nothing but tables lies on
    /// the way to it.
    pub closed spec fn huge_slot_clear(&self, page: Page, level: nat) -> bool {
        self.p4.huge_slot_clear(4, level, page)
    }

    /// The number of page tables that are missing above the entry of the
    /// level `level` for the page.
    pub closed spec fn missing_above(&self, page: Page, level: nat) -> nat {
        self.p4.missing_above(4, level, page)
    }

    /// Maps the huge page that holds `page` to the frames from `frame` on:
    /// a page of 2 MiB for the level 2, of 1 GiB for the level 3. The flags
    /// `PRESENT` and `HUGE_PAGE` are added. This is for the code that sets up
    /// the kernel's own address space; `map` and `map_to` create no huge
    /// pages.
    ///
    /// The frame must be aligned to the size of the huge page, and the entry
    /// that maps the huge page must be clear. The call fails exactly when the
    /// allocator has fewer free frames than tables are missing above that
    /// entry; no page has then changed what it is mapped to.
    pub fn map_huge_to<A: FrameAllocator>(
        &mut self,
        page: Page,
        frame: Frame,
        flags: EntryFlags,
        level: usize,
        allocator: &mut A,
    ) -> (r: Result<(), OutOfMemory>)
        requires
            old(self).wf(),
            2 <= level <= 3,
            old(self).huge_slot_clear(page, level as nat),
            frame.is_addressable(),
            frame.number as int % huge_page_frames(level as nat) == 0,
            old(allocator).wf(),
        ensures
            final(self).wf(),
            final(allocator).wf(),
            r is Ok <==> old(allocator).free_frames().len() >= old(self).missing_above(
                page,
                level as nat,
            ),
            r is Ok ==> forall|q: Page|
                same_upper_path(page, q, 4, level as nat) ==> #[trigger] final(self).mapping(q)
                    == Some(
                    Mapping {
                        frame: Frame { number: (frame.number + huge_offset(q, level as nat)) as u64 },
                        flags: flags@ | PRESENT | HUGE_PAGE,
                        level: level as nat,
                    },
                ),
            r is Err ==> forall|q: Page| #[trigger] final(self).mapping(q) == old(self).mapping(q),
            forall|q: Page|
                !same_upper_path(page, q, 4, level as nat) ==> #[trigger] final(self).mapping(q)
                    == old(self).mapping(q),
    {
        self.p4.map_huge_in(4, level, page, frame, flags, allocator)
    }

    /// Maps the page to a frame taken from the allocator, with the given flags.
    ///
    /// The page must not be mapped yet. The call fails exactly when the
    /// allocator cannot supply the frame and the missing tables; no page has
    /// then changed what it is mapped to, and the frame meant for the page is
    /// back with the allocator.
    pub fn map<A: FrameAllocator>(&mut self, page: Page, flags: EntryFlags, allocator: &mut A) -> (r:
        Result<(), OutOfMemory>)
        requires
            old(self).wf(),
            old(self).mapping(page) is None,
            old(allocator).wf(),
        ensures
            final(self).wf(),
            final(allocator).wf(),
            r is Ok <==> old(allocator).free_frames().len() >= old(self).missing_tables(page) + 1,
            r is Ok ==> {
                &&& final(self).mapping(page) is Some
                &&& final(self).mapping(page).unwrap().flags == flags@ | PRESENT
                &&& final(self).mapping(page).unwrap().level == 1
                &&& old(allocator).free_frames().contains(
                    final(self).mapping(page).unwrap().frame.number,
                )
                &&& final(allocator).allocated_frames().contains(
                    final(self).mapping(page).unwrap().frame.number,
                )
                &&& final(allocator).free_frames().len() == old(allocator).free_frames().len()
                    - old(self).missing_tables(page) - 1
            },
            r is Err ==> forall|q: Page| #[trigger] final(self).mapping(q) == old(self).mapping(q),
            forall|q: Page|
                !same_path(page, q, 4) ==> #[trigger] final(self).mapping(q) == old(self).mapping(
                    q,
                ),
            forall|q: Page|
                q.is_canonical() && page.is_canonical() && q != page
                    ==> #[trigger] final(self).mapping(q) == old(self).mapping(q),
            final(allocator).free_frames().subset_of(old(allocator).free_frames()),
            old(allocator).allocated_frames().subset_of(final(allocator).allocated_frames()),
    {
        proof {
            allocator.lemma_disjoint();
        }
        let frame = match allocator.allocate_frame() {
            Some(frame) => frame,
            None => {
                return Err(OutOfMemory);
            },
        };
        proof {
            allocator.lemma_disjoint();
        }
        match self.map_to(page, frame, flags, allocator) {
            Ok(()) => Ok(()),
            Err(error) => {
                proof {
                    allocator.lemma_disjoint();
                }
                allocator.deallocate_frame(frame);
                Err(error)
            },
        }
    }

    /// Maps the page that contains the virtual address to the frame that
    /// contains the physical address. Fails as [`Mapper::map_to`] does.
    pub fn map_page_at<A: FrameAllocator>(
        &mut self,
        virtual_address: VirtualAddress,
        physical_address: PhysicalAddress,
        flags: EntryFlags,
        allocator: &mut A,
    ) -> (r: Result<(), OutOfMemory>)
        requires
            old(self).wf(),
            is_canonical(virtual_address),
            old(self).mapping(page_of(virtual_address)) is None,
            frame_at(physical_address).is_addressable(),
            old(allocator).wf(),
        ensures
            final(self).wf(),
            final(allocator).wf(),
            r is Ok <==> old(allocator).free_frames().len() >= old(self).missing_tables(
                page_of(virtual_address),
            ),
            r is Ok ==> final(self).mapping(page_of(virtual_address)) == Some(
                Mapping { frame: frame_at(physical_address), flags: flags@ | PRESENT, level: 1 },
            ),
            r is Err ==> forall|q: Page| #[trigger] final(self).mapping(q) == old(self).mapping(q),
            forall|q: Page|
                !same_path(page_of(virtual_address), q, 4)
                    ==> #[trigger] final(self).mapping(q) == old(self).mapping(q),
            forall|q: Page|
                q.is_canonical() && q != page_of(virtual_address)
                    ==> #[trigger] final(self).mapping(q) == old(self).mapping(q),
    {
        let frame = Frame::containing_address(physical_address);
        let page = Page::containing_address(virtual_address);
        self.map_to(page, frame, flags, allocator)
    }

    /// Maps the page at the frame's own address to the frame. Fails as
    /// [`Mapper::map_to`] does.
    pub fn identity_map<A: FrameAllocator>(
        &mut self,
        frame: Frame,
        flags: EntryFlags,
        allocator: &mut A,
    ) -> (r: Result<(), OutOfMemory>)
        requires
            old(self).wf(),
            frame.is_addressable(),
            is_canonical((frame.number * PAGE_SIZE) as u64),
            old(self).mapping(page_of((frame.number * PAGE_SIZE) as u64)) is None,
            old(allocator).wf(),
        ensures
            final(self).wf(),
            final(allocator).wf(),
            r is Ok <==> old(allocator).free_frames().len() >= old(self).missing_tables(
                page_of((frame.number * PAGE_SIZE) as u64),
            ),
            r is Ok ==> final(self).mapping(page_of((frame.number * PAGE_SIZE) as u64)) == Some(
                Mapping { frame, flags: flags@ | PRESENT, level: 1 },
            ),
            r is Err ==> forall|q: Page| #[trigger] final(self).mapping(q) == old(self).mapping(q),
            forall|q: Page|
                !same_path(page_of((frame.number * PAGE_SIZE) as u64), q, 4)
                    ==> #[trigger] final(self).mapping(q) == old(self).mapping(q),
            forall|q: Page|
                q.is_canonical() && q != page_of((frame.number * PAGE_SIZE) as u64)
                    ==> #[trigger] final(self).mapping(q) == old(self).mapping(q),
    {
        let page = Page::containing_address(frame.start_address());
        self.map_to(page, frame, flags, allocator)
    }

    /// Unmaps the page and returns the frame it was mapped to.
    ///
    /// The page must be mapped by a 4 KiB entry. Tables that are left empty are
    /// not given back, so the allocator stays as it is. The caller flushes the
    /// page's entry from the TLB.
    pub fn unmap<A: FrameAllocator>(&mut self, page: Page, allocator: &mut A) -> (frame: Frame)
        requires
            old(self).wf(),
            old(self).mapping(page) is Some,
            old(self).mapping(page).unwrap().level == 1,
        ensures
            final(self).wf(),
            final(self).mapping(page) is None,
            frame == old(self).mapping(page).unwrap().frame,
            frame.is_addressable(),
            forall|q: Page|
                !same_path(page, q, 4) ==> #[trigger] final(self).mapping(q) == old(self).mapping(
                    q,
                ),
            forall|q: Page|
                q.is_canonical() && page.is_canonical() && q != page
                    ==> #[trigger] final(self).mapping(q) == old(self).mapping(q),
            final(allocator).free_frames() == old(allocator).free_frames(),
            final(allocator).allocated_frames() == old(allocator).allocated_frames(),
            old(allocator).wf() ==> final(allocator).wf(),
    {
        proof {
            assert forall|q: Page| q.is_canonical() && page.is_canonical() && q != page implies
                !same_path(page, q, 4) by {
                if same_path(page, q, 4) {
                    Page::lemma_same_path_same_page(page, q);
                }
            }
        }
        self.p4.unmap_in(4, page)
    }
}

} // verus!
