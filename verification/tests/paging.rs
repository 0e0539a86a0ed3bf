use boringos::memory::area_frame_allocator::{AreaFrameAllocator, MemoryArea};
use boringos::memory::paging::entry::{
    Entry, EntryFlags, HUGE_PAGE, NO_CACHE, NO_EXECUTE, PRESENT, USER_ACCESSIBLE, WRITABLE,
};
use boringos::memory::paging::mapper::Mapper;
use boringos::memory::paging::table::OutOfMemory;
use boringos::memory::paging::Page;
use boringos::memory::{Frame, FrameAllocator, MemoryController, PageFlags, MapError, PAGE_SIZE};

fn allocator(frames: u64) -> AreaFrameAllocator {
    // Usable memory from 1 MiB on; the kernel and the boot information lie below it.
    AreaFrameAllocator::new(
        0x2000,
        0x3fff,
        0x5000,
        0x5fff,
        vec![MemoryArea::new(0x10_0000, frames * PAGE_SIZE)],
    )
}

fn count_free(allocator: &mut AreaFrameAllocator) -> usize {
    let mut frames = Vec::new();
    while let Some(frame) = allocator.allocate_frame() {
        frames.push(frame);
    }
    let count = frames.len();
    for frame in frames {
        allocator.deallocate_frame(frame);
    }
    count
}

#[test]
fn page_indices_split_the_page_number() {
    let page = Page::containing_address(0o177777_123_456_701_234_5670);
    assert_eq!(page.p4_index(), 0o123);
    assert_eq!(page.p3_index(), 0o456);
    assert_eq!(page.p2_index(), 0o701);
    assert_eq!(page.p1_index(), 0o234);
    let page = Page::containing_address(0);
    assert_eq!(
        (page.p4_index(), page.p3_index(), page.p2_index(), page.p1_index()),
        (0, 0, 0, 0)
    );
    let page = Page::containing_address(0x0000_7fff_ffff_ffff);
    assert_eq!(
        (page.p4_index(), page.p3_index(), page.p2_index(), page.p1_index()),
        (255, 511, 511, 511)
    );
}

#[test]
fn page_start_address_is_number_times_page_size() {
    assert_eq!(Page::containing_address(0x1234_5678).number, 0x12345);
    assert_eq!(Page::containing_address(0x1234_5678).start_address(), 0x1234_5000);
}

#[test]
fn entry_flags_combine() {
    let flags = EntryFlags::writable().union(EntryFlags::user_accessible());
    assert_eq!(flags.bits(), WRITABLE | USER_ACCESSIBLE);
    assert!(flags.contains(EntryFlags::writable()));
    assert!(flags.contains(EntryFlags::user_accessible()));
    assert!(!flags.contains(EntryFlags::present()));
    assert!(flags.contains(EntryFlags::empty()));
    assert_eq!(EntryFlags::empty().bits(), 0);
    assert_eq!(EntryFlags::no_execute().bits(), NO_EXECUTE);
    assert_eq!(EntryFlags::huge_page().bits(), HUGE_PAGE);
    assert_eq!(EntryFlags::no_cache().bits(), NO_CACHE);
}

#[test]
fn entry_flags_from_bits_drops_what_is_no_flag() {
    assert_eq!(EntryFlags::from_bits_truncate(0xffff_ffff_ffff_ffff).bits(), 0x8000_0000_0000_01ff);
    assert_eq!(EntryFlags::from_bits_truncate(0x0000_0000_0000_1003).bits(), 0x3);
}

#[test]
fn entry_holds_frame_and_flags() {
    let mut entry = Entry::unused();
    assert!(entry.is_unused());
    assert_eq!(entry.pointed_frame(), None);
    let frame = Frame { number: 0x12345 };
    entry.set(frame, EntryFlags::present().union(EntryFlags::writable()));
    assert!(!entry.is_unused());
    assert_eq!(entry.pointed_frame(), Some(frame));
    assert_eq!(entry.flags().bits(), PRESENT | WRITABLE);
    // Without the present flag the entry points nowhere.
    entry.set(frame, EntryFlags::writable());
    assert_eq!(entry.pointed_frame(), None);
    assert_eq!(entry.flags().bits(), WRITABLE);
    entry.set_unused();
    assert!(entry.is_unused());
}

#[test]
fn page_flags_become_entry_flags() {
    let flags = PageFlags { readable: true, writable: true, user_accessible: false, no_cache: true };
    assert_eq!(flags.to_entry_flags().bits(), WRITABLE | NO_CACHE);
    assert_eq!(PageFlags::empty().to_entry_flags().bits(), 0);
    let user = PageFlags { readable: true, writable: false, user_accessible: true, no_cache: false };
    assert_eq!(user.to_entry_flags().bits(), USER_ACCESSIBLE);
    assert!(flags.union(user).contains(user));
    assert!(!flags.contains(user));
}

#[test]
fn map_to_then_translate_yields_the_frame() {
    let mut mapper = Mapper::new();
    let mut allocator = allocator(16);
    let page = Page::containing_address(0xffff_8000_1234_5000);
    let frame = Frame { number: 0xabcde };
    assert_eq!(mapper.translate(page.start_address()), None);
    assert_eq!(mapper.map_to(page, frame, EntryFlags::writable(), &mut allocator), Ok(()));
    assert_eq!(mapper.translate_page(page), Some(frame));
    assert_eq!(mapper.translate(page.start_address()), Some(frame.start_address()));
    assert_eq!(mapper.translate(page.start_address() + 0x123), Some(frame.start_address() + 0x123));
    let (found, flags, level) = mapper.lookup(page).unwrap();
    assert_eq!(found, frame);
    assert_eq!(flags.bits(), PRESENT | WRITABLE);
    assert_eq!(level, 1);
    // The neighbours are not mapped.
    assert_eq!(mapper.translate(page.start_address() - 1), None);
    assert_eq!(mapper.translate(page.start_address() + PAGE_SIZE), None);
}

#[test]
fn unmap_then_translate_yields_none() {
    let mut mapper = Mapper::new();
    let mut allocator = allocator(16);
    let page = Page::containing_address(0x4000_0000);
    let other = Page::containing_address(0x4000_1000);
    let frame = Frame { number: 77 };
    assert_eq!(mapper.map_to(page, frame, EntryFlags::empty(), &mut allocator), Ok(()));
    assert_eq!(
        mapper.map_to(other, Frame { number: 78 }, EntryFlags::empty(), &mut allocator),
        Ok(())
    );
    assert_eq!(mapper.unmap(page, &mut allocator), frame);
    assert_eq!(mapper.translate(page.start_address()), None);
    assert_eq!(mapper.translate_page(page), None);
    assert!(mapper.lookup(page).is_none());
    // The other page stays mapped, and the page can be mapped again.
    assert_eq!(mapper.translate_page(other), Some(Frame { number: 78 }));
    assert_eq!(
        mapper.map_to(page, Frame { number: 79 }, EntryFlags::empty(), &mut allocator),
        Ok(())
    );
    assert_eq!(mapper.translate_page(page), Some(Frame { number: 79 }));
}

#[test]
fn map_to_takes_one_frame_for_each_missing_table() {
    let mut mapper = Mapper::new();
    let mut allocator = allocator(16);
    assert_eq!(count_free(&mut allocator), 16);
    let flags = EntryFlags::writable();
    // Three tables are missing below the root.
    let page = Page::containing_address(0x4000_0000);
    assert_eq!(mapper.map_to(page, Frame { number: 1 }, flags, &mut allocator), Ok(()));
    assert_eq!(count_free(&mut allocator), 13);
    // The next page shares all of them.
    let page = Page::containing_address(0x4000_1000);
    assert_eq!(mapper.map_to(page, Frame { number: 2 }, flags, &mut allocator), Ok(()));
    assert_eq!(count_free(&mut allocator), 13);
    // 2 MiB further on a new level-1 table is needed.
    let page = Page::containing_address(0x4020_0000);
    assert_eq!(mapper.map_to(page, Frame { number: 3 }, flags, &mut allocator), Ok(()));
    assert_eq!(count_free(&mut allocator), 12);
    // 1 GiB further on a level-2 and a level-1 table are needed.
    let page = Page::containing_address(0x8000_0000);
    assert_eq!(mapper.map_to(page, Frame { number: 4 }, flags, &mut allocator), Ok(()));
    assert_eq!(count_free(&mut allocator), 10);
}

#[test]
fn map_to_fails_without_frames_for_the_tables() {
    let mut mapper = Mapper::new();
    let mut allocator = allocator(2);
    let page = Page::containing_address(0x4000_0000);
    let result = mapper.map_to(page, Frame { number: 1 }, EntryFlags::writable(), &mut allocator);
    assert_eq!(result, Err(OutOfMemory));
    assert_eq!(mapper.translate_page(page), None);
    // The two tables that were created stay: one more frame is enough now.
    let mut allocator = self::allocator(1);
    let result = mapper.map_to(page, Frame { number: 1 }, EntryFlags::writable(), &mut allocator);
    assert_eq!(result, Ok(()));
    assert_eq!(mapper.translate_page(page), Some(Frame { number: 1 }));
}

#[test]
fn map_takes_a_fresh_frame() {
    let mut mapper = Mapper::new();
    let mut allocator = allocator(8);
    let page = Page::containing_address(0x7000);
    assert_eq!(mapper.map(page, EntryFlags::writable(), &mut allocator), Ok(()));
    // The first frame went to the page, the next three to the tables.
    assert_eq!(mapper.translate_page(page), Some(Frame { number: 0x100 }));
    assert_eq!(allocator.allocate_frame(), Some(Frame { number: 0x104 }));
    assert_eq!(count_free(&mut allocator), 3);
}

#[test]
fn map_gives_the_frame_back_when_the_tables_cannot_be_made() {
    let mut mapper = Mapper::new();
    let mut allocator = allocator(3);
    let page = Page::containing_address(0x7000);
    assert_eq!(mapper.map(page, EntryFlags::writable(), &mut allocator), Err(OutOfMemory));
    assert_eq!(mapper.translate_page(page), None);
    // Two frames hold tables now; the frame for the page is free again.
    assert_eq!(count_free(&mut allocator), 1);
    let mut empty = self::allocator(0);
    assert_eq!(mapper.map(page, EntryFlags::writable(), &mut empty), Err(OutOfMemory));
}

#[test]
fn identity_map_and_map_page_at() {
    let mut mapper = Mapper::new();
    let mut allocator = allocator(16);
    let frame = Frame { number: 0xb8 };
    assert_eq!(mapper.identity_map(frame, EntryFlags::writable(), &mut allocator), Ok(()));
    assert_eq!(mapper.translate(0xb8000), Some(0xb8000));
    assert_eq!(mapper.translate(0xb8fff), Some(0xb8fff));
    let result = mapper.map_page_at(
        0xffff_8000_fec0_0123,
        0xfec0_0456,
        EntryFlags::writable().union(EntryFlags::no_cache()),
        &mut allocator,
    );
    assert_eq!(result, Ok(()));
    assert_eq!(mapper.translate(0xffff_8000_fec0_0000), Some(0xfec0_0000));
    assert_eq!(mapper.translate(0xffff_8000_fec0_0789), Some(0xfec0_0789));
    let (_, flags, _) = mapper.lookup(Page::containing_address(0xffff_8000_fec0_0000)).unwrap();
    assert_eq!(flags.bits(), PRESENT | WRITABLE | NO_CACHE);
}

#[test]
fn memory_controller_maps_in_the_active_table() {
    let mut memory = MemoryController::new(Mapper::new(), allocator(32), 0x5000_0000, 0x5010_0000);
    let page = Page::containing_address(0x9000);
    assert_eq!(memory.map_to(page, Frame { number: 5 }, EntryFlags::writable()), Ok(()));
    assert_eq!(memory.active_table.translate(0x9010), Some(0x5010));
    assert_eq!(memory.unmap(page), Frame { number: 5 });
    assert_eq!(memory.active_table.translate(0x9010), None);
    assert_eq!(memory.map(page, EntryFlags::writable()), Ok(()));
    assert!(memory.active_table.translate(0x9010).is_some());
    assert_eq!(memory.identity_map(Frame { number: 0x20 }, EntryFlags::empty()), Ok(()));
    assert_eq!(memory.active_table.translate(0x20000), Some(0x20000));
    assert_eq!(memory.map_page_at(0x3000_0000, 0x7000, EntryFlags::empty()), Ok(()));
    assert_eq!(memory.active_table.translate(0x3000_0042), Some(0x7042));
    let mut frames = memory.frame_range_inclusive(0x1000, 0x3fff);
    assert_eq!(frames.next(), Some(Frame { number: 1 }));
    assert_eq!(frames.next(), Some(Frame { number: 2 }));
    assert_eq!(frames.next(), Some(Frame { number: 3 }));
    assert_eq!(frames.next(), None);
}

#[test]
fn memory_controller_map_page_reports_each_error() {
    let mut memory = MemoryController::new(Mapper::new(), allocator(4), 0x5000_0000, 0x5010_0000);
    let flags = PageFlags { readable: true, writable: true, user_accessible: false, no_cache: false };
    assert_eq!(memory.map_page(0x0000_8000_0000_0000, flags), Err(MapError::NotCanonical));
    assert_eq!(memory.map_page(0x1234, flags), Ok(()));
    assert_eq!(memory.map_page(0x1000, flags), Err(MapError::AlreadyMapped));
    assert_eq!(memory.map_page(0x2000, flags), Err(MapError::OutOfMemory));
    assert!(memory.unmap_page(0x1fff));
    assert!(!memory.unmap_page(0x1fff));
    assert!(!memory.unmap_page(0x0000_8000_0000_0000));
    assert_eq!(memory.map_page(0x2000, flags), Ok(()));
    let (_, entry_flags, _) = memory.active_table.lookup(Page::containing_address(0x2000)).unwrap();
    assert_eq!(entry_flags.bits(), PRESENT | WRITABLE);
}

#[test]
fn memory_controller_alloc_stack_leaves_a_guard_page() {
    let mut memory = MemoryController::new(Mapper::new(), allocator(64), 0x5000_0000, 0x5000_6000);
    assert!(memory.alloc_stack(0).is_none());
    let stack = memory.alloc_stack(2).unwrap();
    assert_eq!(stack.bottom_address(), 0x5000_1000);
    assert_eq!(stack.top_address(), 0x5000_3000);
    assert_eq!(memory.active_table.translate(0x5000_0fff), None);
    assert!(memory.active_table.translate(0x5000_1000).is_some());
    assert!(memory.active_table.translate(0x5000_2fff).is_some());
    assert_eq!(memory.active_table.translate(0x5000_3000), None);
    // Three pages are too many for what is left; two with their guard page fit.
    assert!(memory.alloc_stack(3).is_none());
    let second = memory.alloc_stack(2).unwrap();
    assert_eq!(second.bottom_address(), 0x5000_4000);
    assert_eq!(second.top_address(), 0x5000_6000);
    assert!(memory.alloc_stack(1).is_none());
}

#[test]
fn huge_pages_are_recognized_on_lookup() {
    let mut mapper = Mapper::new();
    let mut allocator = allocator(16);
    let flags = EntryFlags::writable();
    // A page of 2 MiB at 1 GiB, on the frames from 0x200 on.
    let page = Page::containing_address(0x4000_0000);
    assert_eq!(mapper.map_huge_to(page, Frame { number: 0x200 }, flags, 2, &mut allocator), Ok(()));
    assert_eq!(count_free(&mut allocator), 14);
    assert_eq!(mapper.translate(0x4000_0000), Some(0x20_0000));
    assert_eq!(mapper.translate(0x4000_1234), Some(0x20_1234));
    assert_eq!(mapper.translate(0x401f_ffff), Some(0x3f_ffff));
    assert_eq!(mapper.translate(0x4020_0000), None);
    assert_eq!(mapper.translate(0x3fff_ffff), None);
    assert_eq!(
        mapper.translate_page(Page::containing_address(0x4001_0000)),
        Some(Frame { number: 0x210 })
    );
    let (frame, found, level) = mapper.lookup(Page::containing_address(0x401f_f000)).unwrap();
    assert_eq!((frame, level), (Frame { number: 0x3ff }, 2));
    assert_eq!(found.bits(), PRESENT | WRITABLE | HUGE_PAGE);
    // A page of 1 GiB at 512 GiB, on the frames from 0x40000 on; any page in it names it.
    let page = Page::containing_address(0x80_1234_5000);
    assert_eq!(mapper.map_huge_to(page, Frame { number: 0x4_0000 }, flags, 3, &mut allocator), Ok(()));
    assert_eq!(count_free(&mut allocator), 13);
    assert_eq!(mapper.translate(0x80_0000_0000), Some(0x4000_0000));
    assert_eq!(mapper.translate(0x80_1234_5678), Some(0x5234_5678));
    assert_eq!(mapper.translate(0x80_3fff_ffff), Some(0x7fff_ffff));
    assert_eq!(mapper.translate(0x80_4000_0000), None);
    let (frame, _, level) = mapper.lookup(Page::containing_address(0x80_3fff_f000)).unwrap();
    assert_eq!((frame, level), (Frame { number: 0x7_ffff }, 3));
    // Ordinary pages beside a huge page share its tables.
    let small = Page::containing_address(0x4020_0000);
    assert_eq!(mapper.map_to(small, Frame { number: 9 }, flags, &mut allocator), Ok(()));
    assert_eq!(mapper.translate(0x4020_0000), Some(0x9000));
    assert_eq!(mapper.translate(0x401f_ffff), Some(0x3f_ffff));
}

#[test]
fn huge_pages_are_not_unmapped_page_by_page() {
    let mut memory = MemoryController::new(Mapper::new(), allocator(16), 0x5000_0000, 0x5010_0000);
    let page = Page::containing_address(0x4000_0000);
    let mapped = memory.active_table.map_huge_to(
        page,
        Frame { number: 0x200 },
        EntryFlags::empty(),
        2,
        &mut memory.frame_allocator,
    );
    assert_eq!(mapped, Ok(()));
    assert!(!memory.unmap_page(0x4000_0000));
    assert_eq!(memory.active_table.translate(0x4000_0000), Some(0x20_0000));
    let flags = PageFlags { readable: true, writable: true, user_accessible: false, no_cache: false };
    assert_eq!(memory.map_page(0x4000_3000, flags), Err(MapError::AlreadyMapped));
    let mut empty = self::allocator(0);
    let mut mapper = Mapper::new();
    assert_eq!(
        mapper.map_huge_to(page, Frame { number: 0x200 }, EntryFlags::empty(), 2, &mut empty),
        Err(OutOfMemory)
    );
    assert_eq!(mapper.translate(0x4000_0000), None);
}
