use boringos::memory::address_space::{AddressSpace, Segment, SegmentType};
use boringos::memory::area_frame_allocator::{AreaFrameAllocator, MemoryArea};
use boringos::memory::paging::entry::{PRESENT, USER_ACCESSIBLE, WRITABLE};
use boringos::memory::paging::Page;
use boringos::memory::{FrameAllocator, MapError, PageFlags, PAGE_SIZE};

fn allocator(frames: u64) -> AreaFrameAllocator {
    AreaFrameAllocator::new(
        0x2000,
        0x3fff,
        0x5000,
        0x5fff,
        vec![MemoryArea::new(0x10_0000, frames * PAGE_SIZE)],
    )
}

fn flags(writable: bool, user_accessible: bool) -> PageFlags {
    PageFlags { readable: true, writable, user_accessible, no_cache: false }
}

fn segment(start: u64, size: usize) -> Segment {
    Segment::new(start, size, flags(true, false), SegmentType::MemoryOnly)
}

fn segments_of(space: &AddressSpace, candidates: &[Segment]) -> Vec<bool> {
    candidates.iter().map(|s| space.contains_range(s.start, s.size)).collect()
}

#[test]
fn segments_overlap_when_they_share_an_address() {
    let a = segment(0x1000, 0x1000);
    assert!(a.is_overlapping(&segment(0x1000, 0x1000)));
    assert!(a.is_overlapping(&segment(0x1fff, 1)));
    assert!(a.is_overlapping(&segment(0x0, 0x1001)));
    assert!(a.is_overlapping(&segment(0x0, 0x10000)));
    assert!(a.is_overlapping(&segment(0x1800, 0x10)));
    assert!(!a.is_overlapping(&segment(0x2000, 0x1000)));
    assert!(!a.is_overlapping(&segment(0x0, 0x1000)));
    // A segment without any address overlaps nothing.
    assert!(!a.is_overlapping(&segment(0x1800, 0)));
    assert!(!segment(0x1800, 0).is_overlapping(&a));
}

#[test]
fn add_segment_refuses_an_overlapping_segment_and_changes_nothing() {
    let mut space = AddressSpace::new();
    let a = segment(0x10000, 0x4000);
    let b = segment(0x13fff, 0x2000);
    let c = segment(0x14000, 0x2000);
    assert!(space.add_segment(a));
    assert!(!space.add_segment(b));
    // What `b` alone would cover is still not covered.
    assert!(space.contains_range(0x10000, 0x4000));
    assert!(!space.contains_range(0x14000, 1));
    assert_eq!(space.segment_at(0x13fff), Some(a));
    assert_eq!(space.segment_at(0x14000), None);
    // The same segment a second time overlaps itself.
    assert!(!space.add_segment(a));
    // A segment that only touches is accepted.
    assert!(space.add_segment(c));
    assert_eq!(space.segment_at(0x14000), Some(c));
    assert!(!space.add_segment(b));
    assert_eq!(segments_of(&space, &[a, b, c]), vec![true, false, true]);
}

#[test]
fn contains_range_asks_for_one_segment_around_the_whole_range() {
    let mut space = AddressSpace::new();
    assert!(!space.contains_range(0, 0));
    assert!(space.add_segment(segment(0x1000, 0x1000)));
    assert!(space.add_segment(segment(0x2000, 0x1000)));
    assert!(space.contains_range(0x1000, 0x1000));
    assert!(space.contains_range(0x1800, 0x800));
    assert!(space.contains_range(0x2fff, 1));
    assert!(!space.contains_range(0x2fff, 2));
    assert!(!space.contains_range(0xfff, 2));
    // The range lies in the two segments together, but in neither of them.
    assert!(!space.contains_range(0x1800, 0x1000));
    assert!(!space.contains_range(0x4000, 0));
    assert!(space.contains_range(0x3000, 0));
    assert!(!space.contains_range(u64::MAX, usize::MAX));
}

#[test]
fn remove_segment_takes_the_last_match() {
    let mut space = AddressSpace::new();
    assert!(space.add_segment(segment(0x1000, 0x1000)));
    assert!(space.add_segment(segment(0x3000, 0x1000)));
    assert!(!space.remove_segment(0x1000, 0x2000));
    assert!(!space.remove_segment(0x2000, 0x1000));
    assert!(space.remove_segment(0x1000, 0x1000));
    assert!(!space.remove_segment(0x1000, 0x1000));
    assert_eq!(space.segment_at(0x1000), None);
    assert!(space.segment_at(0x3000).is_some());
    assert!(space.add_segment(segment(0x0, 0x3000)));
}

#[test]
fn map_page_uses_the_flags_of_the_segment() {
    let mut space = AddressSpace::new();
    let mut allocator = allocator(16);
    assert!(space.add_segment(Segment::new(0x40_0000, 0x2000, flags(true, true), SegmentType::MemoryOnly)));
    assert!(space.add_segment(Segment::new(0x50_0000, 0x2000, flags(false, false), SegmentType::MemoryOnly)));
    assert_eq!(space.map_page(0x40_0123, &mut allocator), Ok(()));
    assert_eq!(space.map_page(0x50_1000, &mut allocator), Ok(()));
    let (_, entry_flags, level) = space.table().lookup(Page::containing_address(0x40_0000)).unwrap();
    assert_eq!(entry_flags.bits(), PRESENT | WRITABLE | USER_ACCESSIBLE);
    assert_eq!(level, 1);
    let (_, entry_flags, _) = space.table().lookup(Page::containing_address(0x50_1000)).unwrap();
    assert_eq!(entry_flags.bits(), PRESENT);
    assert!(space.table().translate(0x40_1000).is_none());
    assert!(space.table().translate(0x50_0fff).is_none());
}

#[test]
fn map_page_reports_each_error() {
    let mut space = AddressSpace::new();
    let mut allocator = allocator(4);
    assert!(space.add_segment(segment(0x40_0000, 0x3000)));
    assert!(space.add_segment(segment(0x0000_7fff_ffff_f000, 0x2000)));
    assert_eq!(space.map_page(0x0000_8000_0000_0000, &mut allocator), Err(MapError::NotCanonical));
    assert_eq!(space.map_page(0x3f_ffff, &mut allocator), Err(MapError::NotInSegment));
    assert_eq!(space.map_page(0x40_3000, &mut allocator), Err(MapError::NotInSegment));
    assert_eq!(space.map_page(0x40_0000, &mut allocator), Ok(()));
    assert_eq!(space.map_page(0x40_0fff, &mut allocator), Err(MapError::AlreadyMapped));
    assert_eq!(space.map_page(0x40_1000, &mut allocator), Err(MapError::OutOfMemory));
    assert!(space.table().translate(0x40_1000).is_none());
}

#[test]
fn unmap_page_gives_the_frame_back() {
    let mut space = AddressSpace::new();
    let mut allocator = allocator(4);
    assert!(space.add_segment(segment(0x40_0000, 0x3000)));
    assert_eq!(space.map_page(0x40_0000, &mut allocator), Ok(()));
    assert_eq!(allocator.allocate_frame(), None);
    let frame = space.table().translate_page(Page::containing_address(0x40_0000)).unwrap();
    assert!(space.unmap_page(0x40_0abc, &mut allocator));
    assert!(space.table().translate(0x40_0000).is_none());
    assert_eq!(allocator.allocate_frame(), Some(frame));
    // Nothing is mapped there any more, so nothing is unmapped.
    assert!(!space.unmap_page(0x40_0abc, &mut allocator));
    assert!(!space.unmap_page(0x0000_8000_0000_0000, &mut allocator));
    assert!(!space.unmap_page(0x1234_5000, &mut allocator));
}

#[test]
fn release_pages_unmaps_what_the_segments_hold() {
    let mut space = AddressSpace::new();
    let mut allocator = allocator(32);
    // The first segment begins and ends within a page; the second is empty.
    assert!(space.add_segment(segment(0x40_0800, 0x2000)));
    assert!(space.add_segment(segment(0x50_0000, 0)));
    assert!(space.add_segment(segment(0x60_0000, 0x1000)));
    for address in [0x40_0800u64, 0x40_1000, 0x40_2000, 0x60_0000] {
        assert_eq!(space.map_page(address, &mut allocator), Ok(()));
    }
    let mut free = Vec::new();
    while let Some(frame) = allocator.allocate_frame() {
        free.push(frame);
    }
    // Three tables and three pages for the first segment, one more table and a page for the third.
    assert_eq!(free.len(), 32 - 8);
    space.release_pages(&mut allocator);
    for address in [0x40_0800u64, 0x40_1000, 0x40_2000, 0x60_0000] {
        assert!(space.table().translate(address).is_none());
    }
    let mut back = 0;
    while allocator.allocate_frame().is_some() {
        back += 1;
    }
    assert_eq!(back, 4);
    assert!(space.segment_at(0x40_0800).is_some());
    space.release_pages(&mut allocator);
    assert_eq!(allocator.allocate_frame(), None);
}
