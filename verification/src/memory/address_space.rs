//! Address spaces: one page table per process, and the segments that say which
//! virtual regions the process may use.

use vstd::prelude::*;
use crate::memory::{Frame, FrameAllocator, MapError, PageFlags, VirtualAddress, PAGE_SIZE};
use crate::memory::paging::{is_canonical, page_of, Page};
use crate::memory::paging::entry::PRESENT;
use crate::memory::paging::mapper::Mapper;
use crate::memory::paging::table::{same_path, Mapping};

verus! {

/// What backs the memory of a segment.
#[derive(Debug, PartialEq, Eq, Structural, Clone, Copy)]
pub enum SegmentType {
    /// Frames that belong to the segment alone.
    MemoryOnly,
    /// The contents of a file.
    FromFile,
}

/// A region `[start, start + size)` of virtual addresses with its access flags.
#[derive(Debug, PartialEq, Eq, Structural, Clone, Copy)]
pub struct Segment {
    pub start: VirtualAddress,
    pub size: usize,
    pub flags: PageFlags,
    pub segment_type: SegmentType,
}

impl Segment {
    /// The first address after the segment.
    pub open spec fn end(&self) -> int {
        self.start + self.size
    }

    /// The segment does not wrap around the end of the address space.
    pub open spec fn wf(&self) -> bool {
        self.end() <= u64::MAX
    }

    /// Whether the two segments share an address.
    pub open spec fn overlaps(&self, other: Segment) -> bool {
        &&& self.size > 0
        &&& other.size > 0
        &&& self.start < other.end()
        &&& other.start < self.end()
    }

    /// Whether the address lies in the segment.
    pub open spec fn contains_address(&self, address: VirtualAddress) -> bool {
        self.start <= address < self.end()
    }

    /// Whether the page holds an address of the segment.
    pub open spec fn touches_page(&self, page: Page) -> bool {
        self.size > 0 && self.start as int / PAGE_SIZE as int <= page.number <= (self.end() - 1)
            / PAGE_SIZE as int
    }

    /// Whether the `length` bytes from `address` on all lie in the segment.
    pub open spec fn contains_range_spec(&self, address: VirtualAddress, length: usize) -> bool {
        self.start <= address && address + length <= self.end()
    }

    /// The segment of `size` bytes from `start` on.
    pub fn new(start: VirtualAddress, size: usize, flags: PageFlags, segment_type: SegmentType) -> (segment: Segment)
        requires
            start + size <= u64::MAX,
        ensures
            segment.wf(),
            segment.start == start,
            segment.size == size,
            segment.flags == flags,
            segment.segment_type == segment_type,
    {
        Segment { start, size, flags, segment_type }
    }

    /// Whether the two segments share an address.
    pub fn is_overlapping(&self, other: &Segment) -> (r: bool)
        requires
            self.wf(),
            other.wf(),
        ensures
            r == self.overlaps(*other),
    {
        self.size > 0 && other.size > 0 && self.start < other.start + other.size as u64
            && other.start < self.start + self.size as u64
    }

    /// Whether the address lies in the segment.
    pub fn contains(&self, address: VirtualAddress) -> (r: bool)
        requires
            self.wf(),
        ensures
            r == self.contains_address(address),
    {
        self.start <= address && address < self.start + self.size as u64
    }

    /// Whether the `length` bytes from `address` on all lie in the segment.
    pub fn contains_range(&self, address: VirtualAddress, length: usize) -> (r: bool)
        requires
            self.wf(),
        ensures
            r == self.contains_range_spec(address, length),
    {
        self.start <= address && address - self.start <= self.size as u64 && length as u64
            <= self.size as u64 - (address - self.start)
    }
}

/// Whether `segment` overlaps none of `segments`.
pub open spec fn admits(segments: Seq<Segment>, segment: Segment) -> bool {
    forall|i: int| 0 <= i < segments.len() ==> !(#[trigger] segments[i]).overlaps(segment)
}

/// Whether no two of the segments overlap.
pub open spec fn pairwise_disjoint(segments: Seq<Segment>) -> bool {
    forall|i: int, j: int|
        0 <= i < j < segments.len() ==> !(#[trigger] segments[i]).overlaps(#[trigger] segments[j])
}

/// A segment that overlaps one that is already there is never admitted: once a
/// segment has been added, adding any segment that shares an address with it is
/// refused.
pub proof fn lemma_overlapping_segment_refused(segments: Seq<Segment>, a: Segment, b: Segment)
    requires
        a.overlaps(b),
    ensures
        !admits(segments.push(a), b),
{
    assert(segments.push(a)[segments.len() as int] == a);
}

/// Whether the segment at `index` is the last one that covers exactly the
/// `size` bytes from `start` on.
pub open spec fn is_last_match(
    segments: Seq<Segment>,
    index: int,
    start: VirtualAddress,
    size: usize,
) -> bool {
    &&& 0 <= index < segments.len()
    &&& segments[index].start == start
    &&& segments[index].size == size
    &&& forall|j: int|
        index < j < segments.len() ==> !((#[trigger] segments[j]).start == start && segments[j].size
            == size)
}

/// Whether some segment covers exactly the `size` bytes from `start` on.
pub open spec fn has_match(segments: Seq<Segment>, start: VirtualAddress, size: usize) -> bool {
    exists|i: int| is_last_match(segments, i, start, size)
}

/// The segments without the last one that covers exactly the `size` bytes
/// from `start` on; all of them if none does.
pub open spec fn without_segment(segments: Seq<Segment>, start: VirtualAddress, size: usize) -> Seq<
    Segment,
> {
    if has_match(segments, start, size) {
        segments.remove(choose|i: int| is_last_match(segments, i, start, size))
    } else {
        segments
    }
}

/// At most one segment is the last match.
pub proof fn lemma_last_match_unique(
    segments: Seq<Segment>,
    a: int,
    b: int,
    start: VirtualAddress,
    size: usize,
)
    requires
        is_last_match(segments, a, start, size),
        is_last_match(segments, b, start, size),
    ensures
        a == b,
{
    if a < b {
        assert(segments[b].start == start);
    } else if b < a {
        assert(segments[a].start == start);
    }
}

/// Taking out the segment that was added last gives back the segments of
/// before.
pub proof fn lemma_without_pushed(segments: Seq<Segment>, segment: Segment)
    ensures
        without_segment(segments.push(segment), segment.start, segment.size) == segments,
{
    let pushed = segments.push(segment);
    let last = pushed.len() - 1;
    assert(pushed[last] == segment);
    assert(is_last_match(pushed, last, segment.start, segment.size));
    let i = choose|i: int| is_last_match(pushed, i, segment.start, segment.size);
    lemma_last_match_unique(pushed, i, last, segment.start, segment.size);
    assert(pushed.remove(last) =~= segments);
}

/// Whether the page has been let go of between the two address spaces: a
/// page that was mapped by a 4 KiB entry is unmapped, any other page is as it
/// was.
pub open spec fn page_released(before: AddressSpace, after: AddressSpace, page: Page) -> bool {
    let was = before.mapping(page);
    if was is Some && was.unwrap().level == 1 {
        after.mapping(page) is None
    } else {
        after.mapping(page) == was
    }
}

/// Whether one of the segments holds an address of the page.
pub open spec fn touched(segments: Seq<Segment>, page: Page) -> bool {
    exists|i: int| 0 <= i < segments.len() && (#[trigger] segments[i]).touches_page(page)
}

/// Whether the frame of the page, if the page was unmapped between the two
/// states, is back with the allocator: if the page was mapped by a 4 KiB entry
/// to a frame that was handed out, that frame is free.
pub open spec fn frame_released(
    before: AddressSpace,
    allocated: Set<u64>,
    free: Set<u64>,
    page: Page,
) -> bool {
    let was = before.mapping(page);
    was is Some && was.unwrap().level == 1 && allocated.contains(was.unwrap().frame.number)
        ==> free.contains(was.unwrap().frame.number)
}

/// The page table of one process and the segments that the process may use.
pub struct AddressSpace {
    table: Mapper,
    segments: Vec<Segment>,
}

impl AddressSpace {
    /// The segments, in the order in which they were added.
    pub closed spec fn segments(&self) -> Seq<Segment> {
        self.segments@
    }

    /// What the page is mapped to in this address space, if it is mapped.
    pub closed spec fn mapping(&self, page: Page) -> Option<Mapping> {
        self.table.mapping(page)
    }

    /// The number of page tables that mapping the page would have to create.
    pub closed spec fn missing_tables(&self, page: Page) -> nat {
        self.table.missing_tables(page)
    }

    /// The page table is well formed, no segment wraps around, and no two
    /// segments overlap.
    pub closed spec fn wf(&self) -> bool {
        &&& self.table.wf()
        &&& forall|i: int| 0 <= i < self.segments@.len() ==> (#[trigger] self.segments@[i]).wf()
        &&& pairwise_disjoint(self.segments@)
    }

    /// What `wf` says of the segments.
    pub proof fn lemma_segments(&self)
        requires
            self.wf(),
        ensures
            forall|i: int| 0 <= i < self.segments().len() ==> (#[trigger] self.segments()[i]).wf(),
            pairwise_disjoint(self.segments()),
    {
    }

    /// Whether some segment contains the address.
    pub open spec fn in_segment(&self, address: VirtualAddress) -> bool {
        exists|i: int|
            0 <= i < self.segments().len() && (#[trigger] self.segments()[i]).contains_address(
                address,
            )
    }

    /// Whether the page of `address` is mapped by a 4 KiB entry that carries
    /// the flags of a segment that contains the address.
    pub open spec fn maps_page_at(&self, address: VirtualAddress) -> bool {
        let mapping = self.mapping(page_of(address));
        &&& mapping is Some
        &&& mapping.unwrap().level == 1
        &&& exists|i: int|
            0 <= i < self.segments().len() && (#[trigger] self.segments()[i]).contains_address(
                address,
            ) && mapping.unwrap().flags == self.segments()[i].flags.entry_bits() | PRESENT
    }

    /// An address space without segments that maps nothing.
    pub fn new() -> (space: AddressSpace)
        ensures
            space.wf(),
            space.segments() == Seq::<Segment>::empty(),
            forall|page: Page| space.mapping(page) is None,
            forall|page: Page| #[trigger] space.missing_tables(page) == 3,
    {
        AddressSpace { table: Mapper::new(), segments: Vec::new() }
    }

    /// The page table of the address space.
    pub fn table(&self) -> (table: &Mapper)
        ensures
            self.wf() ==> table.wf(),
            forall|page: Page| table.mapping(page) == self.mapping(page),
    {
        &self.table
    }

    /// Whether the segment overlaps no segment that is already there, so
    /// that [`AddressSpace::add_segment`] would add it.
    pub fn admits_segment(&self, segment: &Segment) -> (admitted: bool)
        requires
            self.wf(),
            segment.wf(),
        ensures
            admitted == admits(self.segments(), *segment),
    {
        let mut i: usize = 0;
        while i < self.segments.len()
            invariant
                self.wf(),
                segment.wf(),
                i <= self.segments@.len(),
                forall|j: int| 0 <= j < i ==> !(#[trigger] self.segments@[j]).overlaps(*segment),
            decreases self.segments@.len() - i,
        {
            if self.segments[i].is_overlapping(segment) {
                return false;
            }
            i += 1;
        }
        true
    }

    /// Adds the segment, unless it overlaps a segment that is already there.
    /// Returns whether the segment was added; if not, nothing has changed.
    pub fn add_segment(&mut self, segment: Segment) -> (added: bool)
        requires
            old(self).wf(),
            segment.wf(),
        ensures
            final(self).wf(),
            added == admits(old(self).segments(), segment),
            added ==> final(self).segments() == old(self).segments().push(segment),
            !added ==> final(self).segments() == old(self).segments(),
            forall|page: Page| final(self).mapping(page) == old(self).mapping(page),
            forall|page: Page| final(self).missing_tables(page) == old(self).missing_tables(page),
    {
        if !self.admits_segment(&segment) {
            return false;
        }
        self.segments.push(segment);
        true
    }

    /// Removes the segment that covers exactly the `size` bytes from `start`
    /// on; where several do, the one added last. Returns whether there was
    /// such a segment. The pages of the segment stay mapped.
    pub fn remove_segment(&mut self, start: VirtualAddress, size: usize) -> (removed: bool)
        requires
            old(self).wf(),
        ensures
            final(self).wf(),
            removed == has_match(old(self).segments(), start, size),
            final(self).segments() == without_segment(old(self).segments(), start, size),
            forall|page: Page| final(self).mapping(page) == old(self).mapping(page),
            forall|page: Page| final(self).missing_tables(page) == old(self).missing_tables(page),
    {
        let mut i: usize = self.segments.len();
        while i > 0
            invariant
                *self == *old(self),
                self.wf(),
                i <= self.segments@.len(),
                forall|j: int|
                    i <= j < self.segments@.len() ==> !((#[trigger] self.segments@[j]).start
                        == start && self.segments@[j].size == size),
            decreases i,
        {
            i -= 1;
            if self.segments[i].start == start && self.segments[i].size == size {
                self.segments.remove(i);
                proof {
                    let before = old(self).segments();
                    assert(is_last_match(before, i as int, start, size));
                    let chosen = choose|k: int| is_last_match(before, k, start, size);
                    lemma_last_match_unique(before, chosen, i as int, start, size);
                    assert(self.segments@ == before.remove(i as int));
                }
                return true;
            }
        }
        proof {
            let before = old(self).segments();
            assert forall|k: int| !is_last_match(before, k, start, size) by {
                if is_last_match(before, k, start, size) {
                    assert(before[k].start == start);
                }
            }
        }
        false
    }

    /// Whether the `length` bytes from `address` on lie entirely within one
    /// segment.
    pub fn contains_range(&self, address: VirtualAddress, length: usize) -> (r: bool)
        requires
            self.wf(),
        ensures
            r == (exists|i: int|
                0 <= i < self.segments().len() && (#[trigger] self.segments()[i]).contains_range_spec(
                    address,
                    length,
                )),
    {
        let mut i: usize = 0;
        while i < self.segments.len()
            invariant
                self.wf(),
                i <= self.segments@.len(),
                forall|j: int|
                    0 <= j < i ==> !(#[trigger] self.segments@[j]).contains_range_spec(
                        address,
                        length,
                    ),
            decreases self.segments@.len() - i,
        {
            if self.segments[i].contains_range(address, length) {
                assert(self.segments()[i as int].contains_range_spec(address, length));
                return true;
            }
            i += 1;
        }
        false
    }

    /// The segment that contains the address, if there is one.
    pub fn segment_at(&self, address: VirtualAddress) -> (segment: Option<Segment>)
        requires
            self.wf(),
        ensures
            segment is Some <==> self.in_segment(address),
            segment is Some ==> segment.unwrap().contains_address(address) && exists|i: int|
                0 <= i < self.segments().len() && (#[trigger] self.segments()[i])
                    == segment.unwrap(),
    {
        let mut i: usize = 0;
        while i < self.segments.len()
            invariant
                self.wf(),
                i <= self.segments@.len(),
                forall|j: int|
                    0 <= j < i ==> !(#[trigger] self.segments@[j]).contains_address(address),
            decreases self.segments@.len() - i,
        {
            if self.segments[i].contains(address) {
                assert(self.segments()[i as int].contains_address(address));
                return Some(self.segments[i]);
            }
            i += 1;
        }
        None
    }

    /// Maps the page that contains the address to a frame taken from the
    /// allocator, with the flags of the segment that contains the address.
    ///
    /// The conditions are tested in the order of the error variants; when one
    /// fails, no page has changed what it is mapped to.
    pub fn map_page<A: FrameAllocator>(&mut self, address: VirtualAddress, allocator: &mut A) -> (r:
        Result<(), MapError>)
        requires
            old(self).wf(),
            old(allocator).wf(),
        ensures
            final(self).wf(),
            final(allocator).wf(),
            final(self).segments() == old(self).segments(),
            r == Err::<(), MapError>(MapError::NotCanonical) <==> !is_canonical(address),
            r == Err::<(), MapError>(MapError::NotInSegment) <==> is_canonical(address) && !old(self).in_segment(address),
            r == Err::<(), MapError>(MapError::AlreadyMapped) <==> is_canonical(address) && old(self).in_segment(address) && old(self).mapping(page_of(address)) is Some,
            r == Err::<(), MapError>(MapError::OutOfMemory) <==> is_canonical(address) && old(self).in_segment(address) && old(self).mapping(page_of(address)) is None && old(allocator).free_frames().len() < old(self).missing_tables(page_of(address)) + 1,
            r is Ok ==> {
                let mapping = final(self).mapping(page_of(address));
                &&& final(self).maps_page_at(address)
                &&& old(allocator).free_frames().contains(mapping.unwrap().frame.number)
                &&& final(allocator).allocated_frames().contains(mapping.unwrap().frame.number)
                &&& final(allocator).free_frames().len() + 4 >= old(allocator).free_frames().len()
            },
            old(allocator).free_frames().len() >= 4 ==> r != Err::<(), MapError>(
                MapError::OutOfMemory,
            ),
            r == Err::<(), MapError>(MapError::OutOfMemory) ==> final(allocator).free_frames().len()
                <= 3,
            r is Err ==> forall|q: Page| #[trigger] final(self).mapping(q) == old(self).mapping(q),
            forall|q: Page|
                q.is_canonical() && q != page_of(address) ==> #[trigger] final(self).mapping(q)
                    == old(self).mapping(q),
            final(allocator).free_frames().subset_of(old(allocator).free_frames()),
            old(allocator).allocated_frames().subset_of(final(allocator).allocated_frames()),
    {
        if !(address < 0x0000_8000_0000_0000 || address >= 0xffff_8000_0000_0000) {
            return Err(MapError::NotCanonical);
        }
        let segment = match self.segment_at(address) {
            Some(segment) => segment,
            None => {
                return Err(MapError::NotInSegment);
            },
        };
        let page = Page::containing_address(address);
        if self.table.translate_page(page).is_some() {
            return Err(MapError::AlreadyMapped);
        }
        proof {
            self.table.lemma_missing_tables(page);
            allocator.lemma_disjoint();
            vstd::set_lib::lemma_len_subset(allocator.free_frames(), allocator.free_frames());
        }
        let ghost free = allocator.free_frames();
        match self.table.map(page, segment.flags.to_entry_flags(), allocator) {
            Ok(()) => Ok(()),
            Err(_) => {
                proof {
                    allocator.lemma_disjoint();
                    vstd::set_lib::lemma_len_subset(allocator.free_frames(), free);
                }
                Err(MapError::OutOfMemory)
            },
        }
    }

    /// Unmaps the page that contains the address and gives its frame back to
    /// the allocator. Returns whether the page was mapped by a 4 KiB entry; if
    /// not, nothing has changed. The caller flushes the page's entry from
    /// the TLB.
    pub fn unmap_page<A: FrameAllocator>(&mut self, address: VirtualAddress, allocator: &mut A) -> (unmapped:
        bool)
        requires
            old(self).wf(),
            old(allocator).wf(),
        ensures
            final(self).wf(),
            final(allocator).wf(),
            final(self).segments() == old(self).segments(),
            unmapped == (is_canonical(address) && old(self).mapping(page_of(address)) is Some
                && old(self).mapping(page_of(address)).unwrap().level == 1),
            unmapped ==> final(self).mapping(page_of(address)) is None,
            !unmapped ==> forall|q: Page| #[trigger]
                final(self).mapping(q) == old(self).mapping(q),
            forall|q: Page|
                q.is_canonical() && q != page_of(address) ==> #[trigger] final(self).mapping(q)
                    == old(self).mapping(q),
            unmapped && old(allocator).allocated_frames().contains(
                old(self).mapping(page_of(address)).unwrap().frame.number,
            ) ==> {
                let number = old(self).mapping(page_of(address)).unwrap().frame.number;
                &&& final(allocator).free_frames() == old(allocator).free_frames().insert(number)
                &&& final(allocator).allocated_frames() == old(allocator).allocated_frames().remove(
                    number,
                )
            },
            !(unmapped && old(allocator).allocated_frames().contains(
                old(self).mapping(page_of(address)).unwrap().frame.number,
            )) ==> {
                &&& final(allocator).free_frames() == old(allocator).free_frames()
                &&& final(allocator).allocated_frames() == old(allocator).allocated_frames()
            },
            old(allocator).free_frames().subset_of(final(allocator).free_frames()),
            final(allocator).allocated_frames().subset_of(old(allocator).allocated_frames()),
    {
        if !(address < 0x0000_8000_0000_0000 || address >= 0xffff_8000_0000_0000) {
            return false;
        }
        let page = Page::containing_address(address);
        match self.table.lookup(page) {
            Some((_, _, level)) => {
                if level != 1 {
                    return false;
                }
            },
            None => {
                return false;
            },
        }
        let frame = self.table.unmap(page, allocator);
        allocator.deallocate_frame(frame);
        true
    }

    /// Unmaps every page that holds an address of a segment and gives the
    /// frames of those pages back to the allocator, as is due when the
    /// process of the address space is gone. The segments stay, and so do the
    /// page tables. No frame is handed out or lost. The caller flushes the
    /// TLB.
    pub fn release_pages<A: FrameAllocator>(&mut self, allocator: &mut A)
        requires
            old(self).wf(),
            old(allocator).wf(),
        ensures
            final(self).wf(),
            final(allocator).wf(),
            final(self).segments() == old(self).segments(),
            forall|q: Page|
                q.is_canonical() && touched(old(self).segments(), q) ==> #[trigger] page_released(
                    *old(self),
                    *final(self),
                    q,
                ),
            forall|q: Page|
                q.is_canonical() && touched(old(self).segments(), q) ==> #[trigger] frame_released(
                    *old(self),
                    old(allocator).allocated_frames(),
                    final(allocator).free_frames(),
                    q,
                ),
            forall|q: Page|
                q.is_canonical() && !touched(old(self).segments(), q) ==> #[trigger] final(self).mapping(q) == old(self).mapping(q),
            old(allocator).free_frames().subset_of(final(allocator).free_frames()),
            final(allocator).allocated_frames().subset_of(old(allocator).allocated_frames()),
            forall|n: u64|
                old(allocator).allocated_frames().contains(n)
                    && !final(allocator).allocated_frames().contains(n)
                    ==> #[trigger] final(allocator).free_frames().contains(n),
    {
        let ghost allocated0 = allocator.allocated_frames();
        let mut index: usize = 0;
        while index < self.segments.len()
            invariant
                self.wf(),
                allocator.wf(),
                self.segments() == old(self).segments(),
                index <= self.segments@.len(),
                allocated0 == old(allocator).allocated_frames(),
                forall|q: Page|
                    q.is_canonical() && touched(self.segments().take(index as int), q)
                        ==> #[trigger] page_released(*old(self), *self, q),
                forall|q: Page|
                    q.is_canonical() && touched(self.segments().take(index as int), q)
                        ==> #[trigger] frame_released(
                        *old(self),
                        allocated0,
                        allocator.free_frames(),
                        q,
                    ),
                forall|q: Page|
                    q.is_canonical() && !touched(self.segments().take(index as int), q)
                        ==> #[trigger] self.mapping(q) == old(self).mapping(q),
                old(allocator).free_frames().subset_of(allocator.free_frames()),
                allocator.allocated_frames().subset_of(allocated0),
                forall|n: u64|
                    allocated0.contains(n) && !allocator.allocated_frames().contains(n)
                        ==> #[trigger] allocator.free_frames().contains(n),
            decreases self.segments@.len() - index,
        {
            let segment = self.segments[index];
            let ghost done = self.segments().take(index as int);
            let ghost entered = *self;
            if segment.size > 0 {
                let first = segment.start / PAGE_SIZE;
                let last = (segment.start + (segment.size as u64 - 1)) / PAGE_SIZE;
                let mut page_num = first;
                let mut more = true;
                while more
                    invariant
                        self.wf(),
                        allocator.wf(),
                        self.segments() == old(self).segments(),
                        index < self.segments@.len(),
                        segment == self.segments()[index as int],
                        segment.size > 0,
                        done == self.segments().take(index as int),
                        first == segment.start as int / PAGE_SIZE as int,
                        last == (segment.end() - 1) / PAGE_SIZE as int,
                        first <= page_num <= last,
                        !more ==> page_num == last,
                        allocated0 == old(allocator).allocated_frames(),
                        forall|q: Page|
                            q.is_canonical() && (touched(done, q) || (first <= q.number < page_num
                                + if more { 0int } else { 1int })) ==> #[trigger] page_released(
                                *old(self),
                                *self,
                                q,
                            ),
                        forall|q: Page|
                            q.is_canonical() && (touched(done, q) || (first <= q.number < page_num
                                + if more { 0int } else { 1int })) ==> #[trigger] frame_released(
                                *old(self),
                                allocated0,
                                allocator.free_frames(),
                                q,
                            ),
                        forall|q: Page|
                            q.is_canonical() && !(touched(done, q) || (first <= q.number < page_num
                                + if more { 0int } else { 1int })) ==> #[trigger] self.mapping(q)
                                == old(self).mapping(q),
                        old(allocator).free_frames().subset_of(allocator.free_frames()),
                        allocator.allocated_frames().subset_of(allocated0),
                        forall|n: u64|
                            allocated0.contains(n) && !allocator.allocated_frames().contains(n)
                                ==> #[trigger] allocator.free_frames().contains(n),
                    decreases last - page_num + if more { 1int } else { 0int },
                {
                    let address = page_num * PAGE_SIZE;
                    let ghost page = Page { number: page_num };
                    let ghost before = *self;
                    let ghost free_before = allocator.free_frames();
                    let ghost allocated_before = allocator.allocated_frames();
                    self.unmap_page(address, allocator);
                    proof {
                        assert(page_of(address) == page);
                        assert forall|n: u64|
                            allocated0.contains(n) && !allocator.allocated_frames().contains(n)
                                implies #[trigger] allocator.free_frames().contains(n) by {
                            if !allocated_before.contains(n) {
                                assert(free_before.contains(n));
                            }
                        }
                        assert forall|q: Page|
                            q.is_canonical() && (touched(done, q) || (first <= q.number <= page_num))
                                implies #[trigger] page_released(*old(self), *self, q) by {
                            if q == page {
                                if touched(done, q) {
                                    assert(page_released(*old(self), before, q));
                                } else {
                                    assert(before.mapping(q) == old(self).mapping(q));
                                }
                            } else {
                                assert(self.mapping(q) == before.mapping(q));
                                assert(page_released(*old(self), before, q));
                            }
                        }
                        assert forall|q: Page|
                            q.is_canonical() && (touched(done, q) || (first <= q.number <= page_num))
                                implies #[trigger] frame_released(
                            *old(self),
                            allocated0,
                            allocator.free_frames(),
                            q,
                        ) by {
                            if q == page {
                                if touched(done, q) {
                                    assert(frame_released(*old(self), allocated0, free_before, q));
                                } else {
                                    assert(before.mapping(q) == old(self).mapping(q));
                                }
                            } else {
                                assert(frame_released(*old(self), allocated0, free_before, q));
                            }
                        }
                        assert forall|q: Page|
                            q.is_canonical() && !(touched(done, q) || (first <= q.number
                                <= page_num)) implies #[trigger] self.mapping(q) == old(self).mapping(q) by {
                            assert(self.mapping(q) == before.mapping(q));
                        }
                    }
                    if page_num < last {
                        page_num += 1;
                    } else {
                        more = false;
                    }
                }
            }
            proof {
                let next = self.segments().take(index + 1);
                assert(next == done.push(segment));
                assert forall|q: Page| #[trigger]
                    touched(next, q) <==> touched(done, q) || segment.touches_page(q) by {
                    if touched(next, q) {
                        let i = choose|i: int| 0 <= i < next.len() && (#[trigger] next[i]).touches_page(q);
                        if i < done.len() {
                            assert(done[i].touches_page(q));
                        }
                    }
                    if touched(done, q) {
                        let i = choose|i: int| 0 <= i < done.len() && (#[trigger] done[i]).touches_page(q);
                        assert(next[i].touches_page(q));
                    }
                    if segment.touches_page(q) {
                        assert(next[done.len() as int].touches_page(q));
                    }
                }
                assert forall|q: Page| q.is_canonical() && touched(next, q) implies #[trigger] page_released(
                    *old(self),
                    *self,
                    q,
                ) by {
                    if !touched(done, q) {
                        assert(segment.touches_page(q));
                    } else if segment.size == 0 {
                        assert(page_released(*old(self), entered, q));
                    }
                }
                assert forall|q: Page| q.is_canonical() && touched(next, q) implies #[trigger] frame_released(
                    *old(self),
                    allocated0,
                    allocator.free_frames(),
                    q,
                ) by {
                    if !touched(done, q) {
                        assert(segment.touches_page(q));
                    }
                }
                assert forall|q: Page| q.is_canonical() && !touched(next, q) implies #[trigger] self.mapping(
                    q,
                ) == old(self).mapping(q) by {
                    assert(!touched(done, q) && !segment.touches_page(q));
                }
            }
            index += 1;
        }
        proof {
            assert(self.segments().take(index as int) == self.segments());
        }
    }
}

} // verus!
