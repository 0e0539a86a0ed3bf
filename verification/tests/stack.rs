use boringos::memory::address_space::{AddressSpace, Segment, SegmentType};
use boringos::memory::area_frame_allocator::{AreaFrameAllocator, MemoryArea};
use boringos::memory::paging::mapper::Mapper;
use boringos::memory::{FrameAllocator, MapError, MemoryController, PageFlags, PAGE_SIZE};
use boringos::multitasking::stack::{AccessType, Stack, StackError};

fn memory(frames: u64) -> MemoryController {
    let allocator = AreaFrameAllocator::new(
        0x2000,
        0x3fff,
        0x5000,
        0x5fff,
        vec![MemoryArea::new(0x10_0000, frames * PAGE_SIZE)],
    );
    MemoryController::new(Mapper::new(), allocator, 0x5000_0000, 0x5010_0000)
}

fn count_free(memory: &mut MemoryController) -> usize {
    let mut frames = Vec::new();
    while let Some(frame) = memory.frame_allocator.allocate_frame() {
        frames.push(frame);
    }
    let count = frames.len();
    for frame in frames {
        memory.frame_allocator.deallocate_frame(frame);
    }
    count
}

fn within_bounds(stack: &Stack) -> bool {
    stack.top_address() - stack.max_size() as u64 <= stack.bottom_address()
        && stack.bottom_address() <= stack.top_address()
}

fn mapped(space: &AddressSpace, from: u64, to: u64) -> Vec<bool> {
    (from / PAGE_SIZE..to / PAGE_SIZE).map(|n| space.table().translate(n * PAGE_SIZE).is_some()).collect()
}

#[test]
fn new_stack_registers_its_segment_and_maps_its_initial_size() {
    let mut memory = memory(64);
    let mut space = AddressSpace::new();
    let stack = Stack::new(
        0x2000,
        0x8000,
        0x7000_0000,
        AccessType::UserAccessible,
        Some(&mut space),
        &mut memory,
    ).unwrap();
    assert_eq!(stack.top_address(), 0x7000_8000);
    assert_eq!(stack.bottom_address(), 0x7000_6000);
    assert_eq!(stack.base_stack_pointer, 0x7000_8000);
    assert_eq!(stack.max_size(), 0x8000);
    assert_eq!(stack.size(), 0x2000);
    assert_eq!(stack.access_type(), AccessType::UserAccessible);
    let segment = space.segment_at(0x7000_0000).unwrap();
    assert_eq!(segment.start, 0x7000_0000);
    assert_eq!(segment.size, 0x8000);
    assert_eq!(
        segment.flags,
        PageFlags { readable: true, writable: true, user_accessible: true, no_cache: false }
    );
    assert_eq!(segment.segment_type, SegmentType::MemoryOnly);
    assert_eq!(
        mapped(&space, 0x7000_0000, 0x7000_9000),
        vec![false, false, false, false, false, false, true, true, false]
    );
}

#[test]
fn grow_clamps_at_the_maximum_size() {
    let mut memory = memory(64);
    let mut space = AddressSpace::new();
    let mut stack = Stack::new(0, 0x4000, 0x7000_0000, AccessType::KernelOnly, Some(&mut space), &mut memory)
        .unwrap();
    assert_eq!(stack.size(), 0);
    assert_eq!(stack.grow(0x1000, Some(&mut space), &mut memory), Ok(()));
    assert_eq!(stack.bottom_address(), 0x7000_3000);
    assert!(within_bounds(&stack));
    assert_eq!(stack.grow(0x10_0000, Some(&mut space), &mut memory), Ok(()));
    assert_eq!(stack.bottom_address(), 0x7000_0000);
    assert_eq!(stack.size(), 0x4000);
    assert!(within_bounds(&stack));
    assert_eq!(stack.grow(usize::MAX, Some(&mut space), &mut memory), Ok(()));
    assert_eq!(stack.bottom_address(), 0x7000_0000);
    assert!(within_bounds(&stack));
    assert_eq!(mapped(&space, 0x6fff_f000, 0x7000_5000), vec![false, true, true, true, true, false]);
}

#[test]
fn shrink_clamps_at_the_top_and_unmaps() {
    let mut memory = memory(64);
    let mut space = AddressSpace::new();
    let mut stack = Stack::new(0x4000, 0x4000, 0x7000_0000, AccessType::KernelOnly, Some(&mut space), &mut memory)
        .unwrap();
    let free = count_free(&mut memory);
    stack.shrink(0x1000, Some(&mut space), &mut memory);
    assert_eq!(stack.bottom_address(), 0x7000_1000);
    assert!(within_bounds(&stack));
    assert_eq!(mapped(&space, 0x7000_0000, 0x7000_4000), vec![false, true, true, true]);
    assert_eq!(count_free(&mut memory), free + 1);
    stack.shrink(usize::MAX, Some(&mut space), &mut memory);
    assert_eq!(stack.bottom_address(), 0x7000_4000);
    assert_eq!(stack.size(), 0);
    assert!(within_bounds(&stack));
    assert_eq!(mapped(&space, 0x7000_0000, 0x7000_4000), vec![false, false, false, false]);
    assert_eq!(count_free(&mut memory), free + 4);
    stack.shrink(0x1000, Some(&mut space), &mut memory);
    assert_eq!(stack.bottom_address(), 0x7000_4000);
}

#[test]
fn bounds_hold_through_a_sequence_of_grows_and_shrinks() {
    let mut memory = memory(64);
    let mut space = AddressSpace::new();
    let mut stack = Stack::new(0x1000, 0x5000, 0x7000_0000, AccessType::KernelOnly, Some(&mut space), &mut memory)
        .unwrap();
    let steps: [(bool, usize); 10] = [
        (true, 0x800),
        (true, 0x800),
        (false, 0x1234),
        (true, 0x9000),
        (false, 0x1),
        (false, 0x4fff),
        (false, 0x1000),
        (true, 0x2345),
        (true, 0),
        (false, 0),
    ];
    let bottoms = [
        0x7000_3800u64,
        0x7000_3000,
        0x7000_4234,
        0x7000_0000,
        0x7000_0001,
        0x7000_5000,
        0x7000_5000,
        0x7000_2cbb,
        0x7000_2cbb,
        0x7000_2cbb,
    ];
    for (step, bottom) in steps.iter().zip(bottoms.iter()) {
        if step.0 {
            assert_eq!(stack.grow(step.1, Some(&mut space), &mut memory), Ok(()));
        } else {
            stack.shrink(step.1, Some(&mut space), &mut memory);
        }
        assert_eq!(stack.bottom_address(), *bottom);
        assert!(within_bounds(&stack));
        // The pages from the bottom's page up to the top's page are mapped, no others.
        let expected: Vec<bool> = (0x70000u64..0x70005).map(|n| n >= *bottom / PAGE_SIZE).collect();
        assert_eq!(mapped(&space, 0x7000_0000, 0x7000_5000), expected);
    }
}

#[test]
fn resize_grows_or_shrinks() {
    let mut memory = memory(64);
    let mut space = AddressSpace::new();
    let mut stack = Stack::new(0x1000, 0x4000, 0x7000_0000, AccessType::KernelOnly, Some(&mut space), &mut memory)
        .unwrap();
    assert_eq!(stack.resize(0x3000, Some(&mut space), &mut memory), Ok(()));
    assert_eq!(stack.size(), 0x3000);
    assert_eq!(stack.resize(0x3000, Some(&mut space), &mut memory), Ok(()));
    assert_eq!(stack.size(), 0x3000);
    assert_eq!(stack.resize(0x100, Some(&mut space), &mut memory), Ok(()));
    assert_eq!(stack.size(), 0x100);
    assert_eq!(stack.resize(0x10000, Some(&mut space), &mut memory), Ok(()));
    assert_eq!(stack.size(), 0x4000);
    assert_eq!(stack.resize(0, Some(&mut space), &mut memory), Ok(()));
    assert_eq!(stack.size(), 0);
    assert_eq!(mapped(&space, 0x7000_0000, 0x7000_4000), vec![false, false, false, false]);
}

#[test]
fn stack_without_address_space_lives_in_the_active_table() {
    let mut memory = memory(64);
    let mut stack = Stack::new(0x2000, 0x4000, 0x6000_0000, AccessType::KernelOnly, None, &mut memory)
        .unwrap();
    assert!(memory.active_table.translate(0x6000_1fff).is_none());
    assert!(memory.active_table.translate(0x6000_2000).is_some());
    assert!(memory.active_table.translate(0x6000_3fff).is_some());
    stack.release(None, &mut memory);
    assert_eq!(stack.size(), 0);
    assert!(memory.active_table.translate(0x6000_2000).is_none());
    assert!(memory.active_table.translate(0x6000_3fff).is_none());
}

#[test]
fn stack_region_fits_only_where_no_segment_is() {
    let mut memory = memory(64);
    let mut space = AddressSpace::new();
    let flags = PageFlags { readable: true, writable: false, user_accessible: false, no_cache: false };
    assert!(space.add_segment(Segment::new(0x7000_3000, 0x1000, flags, SegmentType::FromFile)));
    // The last page of the region is taken, so no stack may be made there.
    assert!(!Stack::fits(0x4000, 0x7000_0000, AccessType::KernelOnly, &space));
    assert!(!Stack::fits(0x1, 0x7000_3fff, AccessType::UserAccessible, &space));
    // Next to the segment there is room, on either side.
    assert!(Stack::fits(0x3000, 0x7000_0000, AccessType::KernelOnly, &space));
    assert!(Stack::fits(0x4000, 0x7000_4000, AccessType::KernelOnly, &space));
    let stack = Stack::new(0x2000, 0x3000, 0x7000_0000, AccessType::KernelOnly, Some(&mut space), &mut memory)
        .unwrap();
    assert_eq!(stack.top_address(), 0x7000_3000);
    assert_eq!(mapped(&space, 0x7000_0000, 0x7000_4000), vec![false, true, true, false]);
    // Now the region of the stack is taken too.
    assert!(!Stack::fits(0x3000, 0x7000_0000, AccessType::KernelOnly, &space));
    assert!(!space.admits_segment(&Segment::new(0x7000_2fff, 0x1, flags, SegmentType::MemoryOnly)));
    assert!(space.admits_segment(&Segment::new(0x7000_4000, 0x1, flags, SegmentType::MemoryOnly)));
}

#[test]
fn new_stack_takes_everything_back_when_memory_runs_out() {
    // Three frames for the tables and two for pages, where three pages are asked for.
    let mut memory = memory(5);
    let mut space = AddressSpace::new();
    let result = Stack::new(0x3000, 0x4000, 0x7000_0000, AccessType::KernelOnly, Some(&mut space), &mut memory);
    assert_eq!(result.err(), Some(StackError::MapFailed(MapError::OutOfMemory)));
    assert_eq!(space.segment_at(0x7000_0000), None);
    assert_eq!(mapped(&space, 0x7000_0000, 0x7000_4000), vec![false, false, false, false]);
    // The frames of the pages are free again; the three tables stay.
    assert_eq!(count_free(&mut memory), 2);
    let stack = Stack::new(0x2000, 0x4000, 0x7000_0000, AccessType::KernelOnly, Some(&mut space), &mut memory)
        .unwrap();
    assert_eq!(stack.size(), 0x2000);
}

#[test]
fn grow_stops_above_the_page_that_cannot_be_mapped() {
    let mut memory = memory(64);
    let mut space = AddressSpace::new();
    let mut stack = Stack::new(0x1000, 0x4000, 0x7000_0000, AccessType::KernelOnly, Some(&mut space), &mut memory)
        .unwrap();
    // Someone else has mapped the second page of the region.
    assert_eq!(space.map_page(0x7000_1000, &mut memory.frame_allocator), Ok(()));
    assert_eq!(
        stack.grow(0x3000, Some(&mut space), &mut memory),
        Err(MapError::AlreadyMapped)
    );
    assert_eq!(stack.bottom_address(), 0x7000_2000);
    assert!(within_bounds(&stack));
    assert_eq!(mapped(&space, 0x7000_0000, 0x7000_4000), vec![false, true, true, true]);
}

#[test]
fn grow_reports_pages_outside_every_segment() {
    let mut memory = memory(64);
    let mut space = AddressSpace::new();
    let mut stack = Stack::new(0, 0x4000, 0x7000_0000, AccessType::KernelOnly, None, &mut memory).unwrap();
    // The stack has registered no segment in this address space.
    assert_eq!(stack.grow(0x1000, Some(&mut space), &mut memory), Err(MapError::NotInSegment));
    assert_eq!(stack.size(), 0);
    let mut stack = Stack::new(0, 0x4000, 0x0000_8000_0000_0000, AccessType::KernelOnly, None, &mut memory)
        .unwrap();
    assert_eq!(stack.grow(0x1000, None, &mut memory), Err(MapError::NotCanonical));
    assert_eq!(stack.size(), 0);
}

#[test]
fn release_unmaps_the_stack_and_removes_its_segment() {
    let mut memory = memory(64);
    let mut space = AddressSpace::new();
    let free = count_free(&mut memory);
    let mut stack = Stack::new(0x3000, 0x4000, 0x7000_0000, AccessType::KernelOnly, Some(&mut space), &mut memory)
        .unwrap();
    assert_eq!(count_free(&mut memory), free - 6);
    stack.release(Some(&mut space), &mut memory);
    assert_eq!(stack.size(), 0);
    assert_eq!(space.segment_at(0x7000_0000), None);
    assert_eq!(mapped(&space, 0x7000_0000, 0x7000_4000), vec![false, false, false, false]);
    // The frames of the pages are free again; the tables are not given back.
    assert_eq!(count_free(&mut memory), free - 3);
    // The region can be used again.
    assert!(Stack::new(0x1000, 0x4000, 0x7000_0000, AccessType::KernelOnly, Some(&mut space), &mut memory)
        .is_ok());
}
