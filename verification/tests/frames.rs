use boringos::memory::area_frame_allocator::{
    get_memory_map, AreaFrameAllocator, BootMemoryArea, MemoryArea,
};
use boringos::memory::{Frame, FrameAllocator, MAX_FRAME_NUMBER, PAGE_SIZE};

fn allocator_over(areas: Vec<MemoryArea>) -> AreaFrameAllocator {
    // The kernel image holds the frames 2 and 3, the boot information the frame 5.
    AreaFrameAllocator::new(0x2000, 0x3fff, 0x5000, 0x5fff, areas)
}

#[test]
fn frame_containing_address_rounds_down() {
    assert_eq!(Frame::containing_address(0).number, 0);
    assert_eq!(Frame::containing_address(PAGE_SIZE - 1).number, 0);
    assert_eq!(Frame::containing_address(PAGE_SIZE).number, 1);
    assert_eq!(Frame::containing_address(0x12345678).number, 0x12345);
}

#[test]
fn frame_start_address_is_number_times_page_size() {
    assert_eq!(Frame { number: 0 }.start_address(), 0);
    assert_eq!(Frame { number: 7 }.start_address(), 7 * 4096);
    assert_eq!(Frame { number: MAX_FRAME_NUMBER }.start_address(), 0x000f_ffff_ffff_f000);
}

#[test]
fn frame_range_inclusive_walks_in_order() {
    let mut iter = Frame::range_inclusive(Frame { number: 3 }, Frame { number: 5 });
    assert_eq!(iter.next(), Some(Frame { number: 3 }));
    assert_eq!(iter.next(), Some(Frame { number: 4 }));
    assert_eq!(iter.next(), Some(Frame { number: 5 }));
    assert_eq!(iter.next(), None);
    assert_eq!(iter.next(), None);
}

#[test]
fn frame_range_inclusive_of_reversed_bounds_is_empty() {
    let mut iter = Frame::range_inclusive(Frame { number: 5 }, Frame { number: 3 });
    assert_eq!(iter.next(), None);
}

#[test]
fn allocator_hands_out_ascending_frames_outside_reserved_regions() {
    let mut allocator = allocator_over(vec![MemoryArea::new(0x0, 0x8000)]);
    let mut numbers = Vec::new();
    while let Some(frame) = allocator.allocate_frame() {
        numbers.push(frame.number);
    }
    // Frames 0 to 7 touch the area; 2 and 3 hold the kernel, 5 the boot information.
    assert_eq!(numbers, vec![0, 1, 4, 6, 7]);
}

#[test]
fn allocator_never_hands_out_a_frame_twice() {
    let mut allocator = allocator_over(
        vec![MemoryArea::new(0x10000, 0x10000), MemoryArea::new(0x18000, 0x10000)],
    );
    let mut numbers = Vec::new();
    while let Some(frame) = allocator.allocate_frame() {
        assert!(!numbers.contains(&frame.number));
        numbers.push(frame.number);
    }
    // The two areas overlap: together they touch the frames 0x10 to 0x27.
    assert_eq!(numbers.len(), 0x18);
}

#[test]
fn allocator_returns_none_when_exhausted() {
    let mut allocator = allocator_over(vec![MemoryArea::new(0x6000, 0x2000)]);
    assert_eq!(allocator.allocate_frame(), Some(Frame { number: 6 }));
    assert_eq!(allocator.allocate_frame(), Some(Frame { number: 7 }));
    assert_eq!(allocator.allocate_frame(), None);
    assert_eq!(allocator.allocate_frame(), None);
}

#[test]
fn allocator_without_usable_memory_returns_none() {
    let mut allocator = allocator_over(Vec::new());
    assert_eq!(allocator.allocate_frame(), None);
    let mut allocator = allocator_over(vec![MemoryArea::new(0x6000, 0)]);
    assert_eq!(allocator.allocate_frame(), None);
    // An area that holds reserved frames only.
    let mut allocator = allocator_over(vec![MemoryArea::new(0x2000, 0x2000)]);
    assert_eq!(allocator.allocate_frame(), None);
}

#[test]
fn allocator_reuses_a_deallocated_frame() {
    let mut allocator = allocator_over(vec![MemoryArea::new(0x6000, 0x2000)]);
    let first = allocator.allocate_frame().unwrap();
    let second = allocator.allocate_frame().unwrap();
    assert_eq!(allocator.allocate_frame(), None);
    allocator.deallocate_frame(first);
    assert_eq!(allocator.allocate_frame(), Some(first));
    assert_eq!(allocator.allocate_frame(), None);
    allocator.deallocate_frame(second);
    allocator.deallocate_frame(first);
    let again = allocator.allocate_frame().unwrap();
    let once_more = allocator.allocate_frame().unwrap();
    assert_ne!(again, once_more);
    assert_eq!(allocator.allocate_frame(), None);
}

#[test]
fn allocator_ignores_frames_that_are_not_handed_out() {
    let mut allocator = allocator_over(vec![MemoryArea::new(0x6000, 0x2000)]);
    // Not handed out yet, reserved, outside every area, given back twice.
    allocator.deallocate_frame(Frame { number: 7 });
    allocator.deallocate_frame(Frame { number: 2 });
    allocator.deallocate_frame(Frame { number: 100 });
    let first = allocator.allocate_frame().unwrap();
    allocator.deallocate_frame(first);
    allocator.deallocate_frame(first);
    assert_eq!(allocator.allocate_frame(), Some(Frame { number: 6 }));
    assert_eq!(allocator.allocate_frame(), Some(Frame { number: 7 }));
    assert_eq!(allocator.allocate_frame(), None);
}

#[test]
fn allocator_stops_at_the_end_of_the_physical_address_space() {
    let mut allocator = allocator_over(
        vec![MemoryArea::new(MAX_FRAME_NUMBER * PAGE_SIZE, 0x10_0000)],
    );
    assert_eq!(allocator.allocate_frame(), Some(Frame { number: MAX_FRAME_NUMBER }));
    assert_eq!(allocator.allocate_frame(), None);
    let mut allocator = allocator_over(vec![MemoryArea::new(u64::MAX - 10, 100)]);
    assert_eq!(allocator.allocate_frame(), None);
}

#[test]
fn memory_map_keeps_the_usable_areas_in_order() {
    let areas = vec![
        BootMemoryArea { base: 0, length: 0x9fc00, usable: true },
        BootMemoryArea { base: 0x9fc00, length: 0x400, usable: false },
        BootMemoryArea { base: 0xf0000, length: 0x10000, usable: false },
        BootMemoryArea { base: 0x10_0000, length: 0x7ee_0000, usable: true },
        BootMemoryArea { base: 0x7fe_0000, length: 0x2_0000, usable: false },
    ];
    assert_eq!(
        get_memory_map(&areas),
        vec![MemoryArea::new(0, 0x9fc00), MemoryArea::new(0x10_0000, 0x7ee_0000)]
    );
    assert_eq!(get_memory_map(&Vec::new()), Vec::new());
    assert_eq!(get_memory_map(&areas[1..3].to_vec()), Vec::new());
}
