//! A frame allocator over the usable memory areas that the boot loader
//! reported.

use vstd::prelude::*;
use vstd::set_lib::*;
use crate::memory::{Frame, FrameAllocator, PhysicalAddress, MAX_FRAME_NUMBER, PAGE_SIZE};

verus! {

/// A region of usable physical memory: `length` bytes from `base` on.
#[derive(Debug, PartialEq, Eq, Structural, Clone, Copy)]
pub struct MemoryArea {
    pub base: PhysicalAddress,
    pub length: u64,
}

impl MemoryArea {
    /// The number of the first frame that touches the area.
    pub open spec fn first_frame(&self) -> int {
        self.base as int / PAGE_SIZE as int
    }

    /// The number of the last frame that touches the area, cut off at the end
    /// of the physical address space.
    pub open spec fn last_frame(&self) -> int {
        let last = (self.base + self.length - 1) / PAGE_SIZE as int;
        if last <= MAX_FRAME_NUMBER {
            last
        } else {
            MAX_FRAME_NUMBER as int
        }
    }

    /// Whether the frame touches the area.
    pub open spec fn contains_frame(&self, number: u64) -> bool {
        self.length > 0 && self.first_frame() <= number <= self.last_frame()
    }

    /// The area of `length` bytes from `base` on.
    pub fn new(base: PhysicalAddress, length: u64) -> (area: MemoryArea)
        ensures
            area.base == base,
            area.length == length,
    {
        MemoryArea { base, length }
    }

    fn first(&self) -> (number: u64)
        ensures
            number == self.first_frame(),
    {
        self.base / PAGE_SIZE
    }

    fn last(&self) -> (number: u64)
        requires
            self.length > 0,
        ensures
            number == self.last_frame(),
    {
        let offset = self.length - 1;
        let last_address = if self.base > u64::MAX - offset {
            u64::MAX
        } else {
            self.base + offset
        };
        let last = last_address / PAGE_SIZE;
        if last <= MAX_FRAME_NUMBER {
            last
        } else {
            MAX_FRAME_NUMBER
        }
    }

    fn contains(&self, number: u64) -> (r: bool)
        ensures
            r == self.contains_frame(number),
    {
        self.length > 0 && self.first() <= number && number <= self.last()
    }
}

/// A region of physical memory as the boot loader reports it: usable, or
/// reserved for something.
#[derive(Debug, PartialEq, Eq, Structural, Clone, Copy)]
pub struct BootMemoryArea {
    pub base: PhysicalAddress,
    pub length: u64,
    pub usable: bool,
}

/// The usable ones among the areas, in their order.
pub open spec fn usable_areas(areas: Seq<BootMemoryArea>) -> Seq<MemoryArea>
    decreases areas.len(),
{
    if areas.len() == 0 {
        Seq::empty()
    } else {
        let rest = usable_areas(areas.drop_last());
        if areas.last().usable {
            rest.push(MemoryArea { base: areas.last().base, length: areas.last().length })
        } else {
            rest
        }
    }
}

/// Returns the memory map given by the boot loader: the usable areas, in the
/// order in which the boot loader reports them.
pub fn get_memory_map(areas: &Vec<BootMemoryArea>) -> (map: Vec<MemoryArea>)
    ensures
        map@ == usable_areas(areas@),
{
    let mut map: Vec<MemoryArea> = Vec::new();
    let mut i: usize = 0;
    while i < areas.len()
        invariant
            i <= areas@.len(),
            map@ == usable_areas(areas@.take(i as int)),
        decreases areas@.len() - i,
    {
        let area = areas[i];
        proof {
            assert(areas@.take(i + 1).drop_last() == areas@.take(i as int));
            assert(areas@.take(i + 1).last() == area);
        }
        if area.usable {
            map.push(MemoryArea::new(area.base, area.length));
        }
        i += 1;
    }
    proof {
        assert(areas@.take(i as int) == areas@);
    }
    map
}

/// Hands out the frames of the usable memory areas in ascending order,
/// leaving out the frames that hold the kernel image or the boot information.
/// Frames that are given back are handed out again before new ones.
pub struct AreaFrameAllocator {
    next_free_frame: u64,
    areas: Vec<MemoryArea>,
    kernel_start: u64,
    kernel_end: u64,
    multiboot_start: u64,
    multiboot_end: u64,
    free_list: Vec<Frame>,
}

/// The frame numbers from 0 to the last addressable frame.
spec fn addressable_frames() -> Set<u64> {
    set_int_range(0, MAX_FRAME_NUMBER + 1).map(|i: int| i as u64)
}

proof fn lemma_addressable_frames()
    ensures
        addressable_frames().finite(),
        forall|n: u64| n <= MAX_FRAME_NUMBER ==> addressable_frames().contains(n),
{
    lemma_int_range(0, MAX_FRAME_NUMBER + 1);
    set_int_range(0, MAX_FRAME_NUMBER + 1).lemma_map_finite(|i: int| i as u64);
    assert forall|n: u64| n <= MAX_FRAME_NUMBER implies addressable_frames().contains(n) by {
        assert(set_int_range(0, MAX_FRAME_NUMBER + 1).contains(n as int));
    }
}

impl AreaFrameAllocator {
    /// The usable memory areas.
    pub closed spec fn areas(&self) -> Seq<MemoryArea> {
        self.areas@
    }

    /// The frames of the kernel image, first and last.
    pub closed spec fn kernel_frames(&self) -> (int, int) {
        (self.kernel_start as int, self.kernel_end as int)
    }

    /// The frames of the boot information, first and last.
    pub closed spec fn multiboot_frames(&self) -> (int, int) {
        (self.multiboot_start as int, self.multiboot_end as int)
    }

    /// Whether the frame is one that the allocator hands out at all: it is
    /// addressable, touches a usable area, and holds neither the kernel image
    /// nor the boot information.
    pub open spec fn manages(&self, number: u64) -> bool {
        &&& number <= MAX_FRAME_NUMBER
        &&& exists|i: int|
            0 <= i < self.areas().len() && (#[trigger] self.areas()[i]).contains_frame(number)
        &&& !(self.kernel_frames().0 <= number <= self.kernel_frames().1)
        &&& !(self.multiboot_frames().0 <= number <= self.multiboot_frames().1)
    }

    closed spec fn in_free_list(&self, number: u64) -> bool {
        self.free_list@.contains(Frame { number })
    }

    /// Every frame in either set is one that the allocator manages, and every
    /// managed frame is in one of the two.
    pub proof fn lemma_managed(&self)
        requires
            self.wf(),
        ensures
            forall|n: u64|
                #![trigger self.free_frames().contains(n)]
                #![trigger self.allocated_frames().contains(n)]
                self.manages(n) <==> self.free_frames().contains(n)
                    || self.allocated_frames().contains(n),
    {
        assert forall|n: u64|
            self.manages(n) <==> self.free_frames().contains(n) || self.allocated_frames().contains(
                n,
            ) by {
            if self.in_free_list(n) {
                let i = choose|i: int| 0 <= i < self.free_list@.len() && self.free_list@[i] == (Frame {
                    number: n,
                });
                assert(self.manages(self.free_list@[i].number));
            }
        }
    }

    /// An allocator over the given areas. The kernel image lies between the
    /// addresses `kernel_start` and `kernel_end`, the boot information between
    /// `multiboot_start` and `multiboot_end`, all four included.
    pub fn new(
        kernel_start: PhysicalAddress,
        kernel_end: PhysicalAddress,
        multiboot_start: PhysicalAddress,
        multiboot_end: PhysicalAddress,
        memory_areas: Vec<MemoryArea>,
    ) -> (allocator: AreaFrameAllocator)
        ensures
            allocator.wf(),
            allocator.areas() == memory_areas@,
            allocator.kernel_frames() == (
                kernel_start as int / PAGE_SIZE as int,
                kernel_end as int / PAGE_SIZE as int,
            ),
            allocator.multiboot_frames() == (
                multiboot_start as int / PAGE_SIZE as int,
                multiboot_end as int / PAGE_SIZE as int,
            ),
            allocator.allocated_frames() == Set::<u64>::empty(),
            forall|n: u64| #[trigger] allocator.free_frames().contains(n) <==> allocator.manages(n),
    {
        let allocator = AreaFrameAllocator {
            next_free_frame: 0,
            areas: memory_areas,
            kernel_start: kernel_start / PAGE_SIZE,
            kernel_end: kernel_end / PAGE_SIZE,
            multiboot_start: multiboot_start / PAGE_SIZE,
            multiboot_end: multiboot_end / PAGE_SIZE,
            free_list: Vec::new(),
        };
        assert(allocator.allocated_frames() =~= Set::<u64>::empty());
        allocator
    }

    /// Looks at the areas for the frame `number`. The first part of the result
    /// says whether some area contains the frame. If none does, the second part
    /// is the first frame of the nearest area above it, if there is one.
    fn locate(&self, number: u64) -> (r: (bool, Option<u64>))
        ensures
            r.0 == (exists|i: int|
                0 <= i < self.areas().len() && (#[trigger] self.areas()[i]).contains_frame(
                    number,
                )),
            !r.0 && r.1 is None ==> forall|n: u64, i: int|
                n >= number && 0 <= i < self.areas().len() ==> !#[trigger] self.areas()[
                    i
                ].contains_frame(n),
            !r.0 && r.1 is Some ==> r.1.unwrap() > number && forall|n: u64, i: int|
                number <= n < r.1.unwrap() && 0 <= i < self.areas().len()
                    ==> !#[trigger] self.areas()[i].contains_frame(n),
    {
        let mut hit = false;
        let mut next: Option<u64> = None;
        let mut i: usize = 0;
        let ghost mut witness: int = 0;
        while i < self.areas.len()
            invariant
                i <= self.areas@.len(),
                hit ==> 0 <= witness < i && self.areas@[witness].contains_frame(number),
                !hit ==> forall|j: int|
                    0 <= j < i ==> !(#[trigger] self.areas@[j]).contains_frame(number),
                next is None ==> forall|n: u64, j: int|
                    n >= number && 0 <= j < i ==> !#[trigger] self.areas@[j].contains_frame(n)
                        || self.areas@[j].contains_frame(number),
                next is Some ==> next.unwrap() > number && forall|n: u64, j: int|
                    number <= n < next.unwrap() && 0 <= j < i ==> !#[trigger] self.areas@[
                        j
                    ].contains_frame(n) || self.areas@[j].contains_frame(number),
            decreases self.areas@.len() - i,
        {
            let area = self.areas[i];
            if area.contains(number) {
                hit = true;
                proof {
                    witness = i as int;
                }
            } else if area.length > 0 {
                let first = area.first();
                if first > number && first <= area.last() {
                    let nearer = match next {
                        Some(current) => first < current,
                        None => true,
                    };
                    if nearer {
                        next = Some(first);
                    }
                }
            }
            i += 1;
        }
        proof {
            if hit {
                assert(0 <= witness < self.areas().len() && self.areas()[witness].contains_frame(
                    number,
                ));
            } else {
                assert forall|j: int| 0 <= j < self.areas().len() implies !(
                #[trigger] self.areas()[j]).contains_frame(number) by {
                    assert(!self.areas@[j].contains_frame(number));
                }
            }
        }
        (hit, next)
    }

    /// Whether the allocator manages the frame.
    fn is_managed(&self, number: u64) -> (r: bool)
        ensures
            r == self.manages(number),
    {
        number <= MAX_FRAME_NUMBER && self.locate(number).0 && !(self.kernel_start <= number
            && number <= self.kernel_end) && !(self.multiboot_start <= number && number
            <= self.multiboot_end)
    }

    /// Whether the frame is among those that were given back.
    fn is_in_free_list(&self, number: u64) -> (r: bool)
        ensures
            r == self.in_free_list(number),
    {
        let mut i: usize = 0;
        while i < self.free_list.len()
            invariant
                i <= self.free_list@.len(),
                forall|j: int| 0 <= j < i ==> self.free_list@[j].number != number,
            decreases self.free_list@.len() - i,
        {
            if self.free_list[i].number == number {
                return true;
            }
            i += 1;
        }
        false
    }
}

impl FrameAllocator for AreaFrameAllocator {
    closed spec fn wf(&self) -> bool {
        &&& self.next_free_frame <= MAX_FRAME_NUMBER + 1
        &&& self.kernel_end < u64::MAX
        &&& self.multiboot_end < u64::MAX
        &&& self.free_list@.no_duplicates()
        &&& forall|i: int|
            0 <= i < self.free_list@.len() ==> self.manages((#[trigger] self.free_list@[i]).number)
                && self.free_list@[i].number < self.next_free_frame
    }

    closed spec fn free_frames(&self) -> Set<u64> {
        Set::new(
            |n: u64| self.manages(n) && (n >= self.next_free_frame || self.in_free_list(n)),
        )
    }

    closed spec fn allocated_frames(&self) -> Set<u64> {
        Set::new(|n: u64| self.manages(n) && n < self.next_free_frame && !self.in_free_list(n))
    }

    proof fn lemma_disjoint(&self) {
        lemma_addressable_frames();
        assert(self.free_frames().subset_of(addressable_frames()));
        assert(self.allocated_frames().subset_of(addressable_frames()));
        lemma_set_subset_finite(addressable_frames(), self.free_frames());
        lemma_set_subset_finite(addressable_frames(), self.allocated_frames());
    }

    fn allocate_frame(&mut self) -> (frame: Option<Frame>) {
        proof {
            self.lemma_disjoint();
        }
        if self.free_list.len() > 0 {
            let frame = self.free_list.pop().unwrap();
            proof {
                let last = old(self).free_list@.len() - 1;
                assert(old(self).free_list@[last] == frame);
                assert(self.free_list@ == old(self).free_list@.drop_last());
                assert(old(self).in_free_list(frame.number));
                assert(self.areas() == old(self).areas());
                assert(self.kernel_frames() == old(self).kernel_frames());
                assert(self.multiboot_frames() == old(self).multiboot_frames());
                assert(forall|n: u64| self.manages(n) == old(self).manages(n));
                assert(old(self).manages(frame.number));
                assert forall|n: u64| self.in_free_list(n) <==> old(self).in_free_list(n) && n
                    != frame.number by {
                    if old(self).in_free_list(n) && n != frame.number {
                        let i = choose|i: int|
                            0 <= i < old(self).free_list@.len() && old(self).free_list@[i] == (Frame {
                                number: n,
                            });
                        assert(self.free_list@[i] == Frame { number: n });
                    }
                    if self.in_free_list(n) {
                        let i = choose|i: int|
                            0 <= i < self.free_list@.len() && self.free_list@[i] == (Frame {
                                number: n,
                            });
                        assert(old(self).free_list@[i] == Frame { number: n });
                    }
                }
                assert(self.free_frames() =~= old(self).free_frames().remove(frame.number));
                assert(self.allocated_frames() =~= old(self).allocated_frames().insert(
                    frame.number,
                ));
            }
            return Some(frame);
        }
        let mut candidate = self.next_free_frame;
        loop
            invariant
                *self == *old(self),
                self.wf(),
                self.free_list@.len() == 0,
                self.next_free_frame <= candidate,
                forall|n: u64| self.next_free_frame <= n < candidate ==> !self.manages(n),
            decreases
                    (if candidate <= MAX_FRAME_NUMBER {
                        MAX_FRAME_NUMBER + 1 - candidate
                    } else {
                        0
                    }),
        {
            if candidate > MAX_FRAME_NUMBER {
                assert(self.free_frames() =~= Set::<u64>::empty());
                return None;
            }
            let (hit, next) = self.locate(candidate);
            if hit {
                if self.kernel_start <= candidate && candidate <= self.kernel_end {
                    candidate = self.kernel_end + 1;
                } else if self.multiboot_start <= candidate && candidate <= self.multiboot_end {
                    candidate = self.multiboot_end + 1;
                } else {
                    self.next_free_frame = candidate + 1;
                    proof {
                        assert(old(self).manages(candidate));
                        assert(self.areas() == old(self).areas());
                        assert(self.kernel_frames() == old(self).kernel_frames());
                        assert(self.multiboot_frames() == old(self).multiboot_frames());
                        assert(forall|n: u64| self.manages(n) == old(self).manages(n));
                        assert(forall|n: u64| !self.in_free_list(n) && !old(self).in_free_list(n));
                        assert(self.free_frames() =~= old(self).free_frames().remove(candidate));
                        assert(self.allocated_frames() =~= old(self).allocated_frames().insert(
                            candidate,
                        ));
                    }
                    return Some(Frame { number: candidate });
                }
            } else {
                match next {
                    Some(first) => {
                        candidate = first;
                    },
                    None => {
                        assert(self.free_frames() =~= Set::<u64>::empty());
                        return None;
                    },
                }
            }
        }
    }

    fn deallocate_frame(&mut self, frame: Frame) {
        if frame.number < self.next_free_frame && self.is_managed(frame.number)
            && !self.is_in_free_list(frame.number) {
            self.free_list.push(frame);
            proof {
                assert forall|n: u64| self.in_free_list(n) <==> old(self).in_free_list(n) || n
                    == frame.number by {
                    if old(self).in_free_list(n) {
                        let i = choose|i: int|
                            0 <= i < old(self).free_list@.len() && old(self).free_list@[i] == (Frame {
                                number: n,
                            });
                        assert(self.free_list@[i] == Frame { number: n });
                    }
                    if n == frame.number {
                        assert(self.free_list@[self.free_list@.len() - 1] == frame);
                    }
                }
                assert(self.areas() == old(self).areas());
                assert(self.kernel_frames() == old(self).kernel_frames());
                assert(self.multiboot_frames() == old(self).multiboot_frames());
                assert(forall|n: u64| self.manages(n) == old(self).manages(n));
                assert(self.free_frames() =~= old(self).free_frames().insert(frame.number));
                assert(self.allocated_frames() =~= old(self).allocated_frames().remove(
                    frame.number,
                ));
            }
        } else {
            assert(self.free_frames() =~= old(self).free_frames());
            assert(self.allocated_frames() =~= old(self).allocated_frames());
        }
    }
}

} // verus!
