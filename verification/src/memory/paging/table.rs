//! A page table of any level, together with the tables below it.

use vstd::prelude::*;
use crate::memory::{Frame, FrameAllocator};
use crate::memory::paging::{Page, ENTRY_COUNT};
use crate::memory::paging::entry::{
    frame_of, has_flag, Entry, EntryFlags, ALL_FLAGS, HUGE_PAGE, PRESENT,
};

verus! {

/// The flags of an entry that points to a table of the next level.
pub const TABLE_FLAGS: u64 = 0x7;

/// What a page is mapped to: a frame, and the flags of the entry that maps it.
pub struct Mapping {
    pub frame: Frame,
    pub flags: u64,
    /// The level of the table whose entry maps the page: 1 for a 4 KiB page,
    /// 2 for a 2 MiB page, 3 for a 1 GiB page.
    pub level: nat,
}

/// The allocator had no frame left for a page table that the mapping needs.
#[derive(Debug, PartialEq, Eq, Structural, Clone, Copy)]
pub struct OutOfMemory;

/// A table of 512 entries. A table of level 2 to 4 owns the tables of the next
/// level that its entries point to; a table of level 1 holds the leaf entries.
pub struct Table {
    entries: Vec<Entry>,
    tables: Vec<Option<Table>>,
}

/// The number of 4 KiB frames that a huge page of the given level spans.
pub open spec fn huge_page_frames(level: nat) -> int {
    if level == 3 {
        0x4_0000int
    } else {
        512int
    }
}

/// Whether the two pages take the same way through the tables from the given
/// level down.
pub open spec fn same_path(a: Page, b: Page, level: nat) -> bool
    decreases level,
{
    if level == 0 {
        true
    } else {
        a.index_at(level) == b.index_at(level) && same_path(a, b, (level - 1) as nat)
    }
}

/// Whether the two pages take the same way through the tables from the level
/// `level` down to the level `target`.
pub open spec fn same_upper_path(a: Page, b: Page, level: nat, target: nat) -> bool
    decreases level,
{
    if level < target || level == 0 {
        true
    } else {
        a.index_at(level) == b.index_at(level) && same_upper_path(a, b, (level - 1) as nat, target)
    }
}

/// The place of the page within the huge page of the given level that holds
/// it, in 4 KiB pages.
pub open spec fn huge_offset(page: Page, level: nat) -> int {
    if level == 3 {
        page.index_at(2) * 512 + page.index_at(1)
    } else {
        page.index_at(1)
    }
}

impl Table {
    /// The bits of the entry at `index`.
    pub closed spec fn entry_at(&self, index: int) -> u64 {
        self.entries@[index]@
    }

    /// The next-level table that the entry at `index` points to.
    pub closed spec fn table_at(&self, index: int) -> Option<Table> {
        self.tables@[index]
    }

    /// The shape that every table of the given level keeps.
    ///
    /// An entry above level 1 is clear, or points to an owned table of the next
    /// level, or (at levels 3 and 2) maps a huge page whose first frame is
    /// aligned to the size of the page.
    pub open spec fn wf(&self, level: nat) -> bool
        decreases level,
    {
        &&& 1 <= level <= 4
        &&& self.wf_any()
        &&& forall|i: int| 0 <= i < ENTRY_COUNT ==> #[trigger] self.entry_wf(level, i)
        &&& level > 1 ==> forall|i: int|
            0 <= i < ENTRY_COUNT && (#[trigger] self.table_at(i)) is Some ==> self.table_at(
                i,
            ).unwrap().wf((level - 1) as nat)
    }

    /// The shape of the entry at `i` in a table of the given level.
    pub open spec fn entry_wf(&self, level: nat, i: int) -> bool {
        let bits = self.entry_at(i);
        if level == 1 {
            &&& self.table_at(i) is None
            &&& !has_flag(bits, PRESENT) ==> bits == 0
        } else {
            &&& self.table_at(i) is Some <==> has_flag(bits, PRESENT) && !has_flag(bits, HUGE_PAGE)
            &&& !has_flag(bits, PRESENT) ==> bits == 0
            &&& has_flag(bits, PRESENT) && has_flag(bits, HUGE_PAGE) ==> {
                &&& level == 3 || level == 2
                &&& frame_of(bits).unwrap().number as int % huge_page_frames(level) == 0
            }
        }
    }

    /// What the walk from this table, which is of the given level, finds for
    /// the page.
    pub open spec fn walk(&self, level: nat, page: Page) -> Option<Mapping>
        decreases level,
    {
        let index = page.index_at(level);
        let bits = self.entry_at(index);
        if level <= 1 {
            match frame_of(bits) {
                Some(frame) => Some(Mapping { frame, flags: bits & ALL_FLAGS, level: 1 }),
                None => None,
            }
        } else if !has_flag(bits, PRESENT) {
            None
        } else if has_flag(bits, HUGE_PAGE) {
            let first = frame_of(bits).unwrap().number;
            let offset = if level == 3 {
                page.index_at(2) * 512 + page.index_at(1)
            } else {
                page.index_at(1)
            };
            Some(
                Mapping {
                    frame: Frame { number: (first + offset) as u64 },
                    flags: bits & ALL_FLAGS,
                    level,
                },
            )
        } else {
            match self.table_at(index) {
                Some(table) => table.walk((level - 1) as nat, page),
                None => None,
            }
        }
    }

    /// The walk depends on the page's table indices alone.
    pub proof fn lemma_walk_same_path(&self, level: nat, a: Page, b: Page)
        requires
            1 <= level <= 4,
            same_path(a, b, level),
        ensures
            self.walk(level, a) == self.walk(level, b),
            self.missing_tables(level, a) == self.missing_tables(level, b),
        decreases level,
    {
        reveal_with_fuel(same_path, 4);
        if level > 1 {
            let index = a.index_at(level);
            if self.table_at(index) is Some {
                self.table_at(index).unwrap().lemma_walk_same_path((level - 1) as nat, a, b);
            }
        }
    }

    /// The number of tables that are missing on the way to the page's leaf
    /// entry.
    pub open spec fn missing_tables(&self, level: nat, page: Page) -> nat
        decreases level,
    {
        let index = page.index_at(level);
        if level <= 1 {
            0
        } else {
            match self.table_at(index) {
                Some(table) => table.missing_tables((level - 1) as nat, page),
                None => (level - 1) as nat,
            }
        }
    }

    /// A table with every entry clear.
    pub fn new(level: usize) -> (table: Table)
        requires
            1 <= level <= 4,
        ensures
            table.wf(level as nat),
            forall|i: int| 0 <= i < ENTRY_COUNT ==> table.entry_at(i) == 0,
            forall|page: Page| table.walk(level as nat, page) is None,
            forall|page: Page| #[trigger] table.missing_tables(level as nat, page) == level - 1,
    {
        let mut entries: Vec<Entry> = Vec::new();
        let mut tables: Vec<Option<Table>> = Vec::new();
        let mut i: usize = 0;
        while i < ENTRY_COUNT
            invariant
                i <= ENTRY_COUNT,
                entries@.len() == i,
                tables@.len() == i,
                forall|j: int| 0 <= j < i ==> (#[trigger] entries@[j])@ == 0,
                forall|j: int| 0 <= j < i ==> (#[trigger] tables@[j]) is None,
            decreases ENTRY_COUNT - i,
        {
            entries.push(Entry::unused());
            tables.push(None);
            i += 1;
        }
        let table = Table { entries, tables };
        proof {
            assert(0u64 & PRESENT != PRESENT && 0u64 & HUGE_PAGE != HUGE_PAGE) by (bit_vector);
            assert forall|i: int| 0 <= i < ENTRY_COUNT implies table.entry_wf(level as nat, i) by {
                assert(table.entries@[i]@ == 0);
                assert(table.tables@[i] is None);
            }
            assert forall|page: Page| table.walk(level as nat, page) is None by {
                Page::lemma_index_bounds(page, level as nat);
            }
            assert forall|page: Page| #[trigger]
                table.missing_tables(level as nat, page) == level - 1 by {
                Page::lemma_index_bounds(page, level as nat);
            }
        }
        table
    }

    /// The entry at `index`.
    pub fn entry(&self, index: usize) -> (entry: Entry)
        requires
            self.wf_any(),
            index < ENTRY_COUNT,
        ensures
            entry@ == self.entry_at(index as int),
    {
        self.entries[index]
    }

    /// Whether the table has its 512 entries.
    pub closed spec fn wf_any(&self) -> bool {
        self.entries@.len() == ENTRY_COUNT && self.tables@.len() == ENTRY_COUNT
    }

    /// The table of the next level that the entry at `index` points to, if it
    /// points to one.
    pub fn next_table(&self, index: usize) -> (table: Option<&Table>)
        requires
            self.wf_any(),
            index < ENTRY_COUNT,
        ensures
            match table {
                Some(t) => self.table_at(index as int) == Some(*t),
                None => self.table_at(index as int) is None,
            },
    {
        self.tables[index].as_ref()
    }

    /// The index at which the walk for `page` goes through a table of the given
    /// level.
    fn index_of(page: Page, level: usize) -> (index: usize)
        requires
            1 <= level <= 4,
        ensures
            index == page.index_at(level as nat),
            index < ENTRY_COUNT,
    {
        if level == 4 {
            page.p4_index()
        } else if level == 3 {
            page.p3_index()
        } else if level == 2 {
            page.p2_index()
        } else {
            page.p1_index()
        }
    }

    /// Maps the page to the frame below this table, which is of the given
    /// level, creating the tables that are missing on the way.
    ///
    /// Each new table takes one frame from the allocator. When the allocator
    /// runs out, the tables created so far stay, and no page has changed what
    /// it is mapped to.
    pub fn map_in<A: FrameAllocator>(
        &mut self,
        level: usize,
        page: Page,
        frame: Frame,
        flags: EntryFlags,
        allocator: &mut A,
    ) -> (r: Result<(), OutOfMemory>)
        requires
            old(self).wf(level as nat),
            old(self).walk(level as nat, page) is None,
            frame.is_addressable(),
            old(allocator).wf(),
        ensures
            final(self).wf(level as nat),
            final(allocator).wf(),
            r is Ok <==> old(allocator).free_frames().len() >= old(self).missing_tables(
                level as nat,
                page,
            ),
            r is Ok ==> final(self).walk(level as nat, page) == Some(
                Mapping { frame, flags: flags@ | PRESENT, level: 1 },
            ),
            r is Ok ==> final(allocator).free_frames().len() == old(allocator).free_frames().len()
                - old(self).missing_tables(level as nat, page),
            r is Err ==> forall|q: Page| #[trigger]
                final(self).walk(level as nat, q) == old(self).walk(level as nat, q),
            forall|q: Page|
                !same_path(page, q, level as nat) ==> #[trigger] final(self).walk(level as nat, q)
                    == old(self).walk(level as nat, q),
            final(allocator).free_frames().subset_of(old(allocator).free_frames()),
            old(allocator).allocated_frames().subset_of(final(allocator).allocated_frames()),
        decreases level,
    {
        let index = Table::index_of(page, level);
        assert(self.entry_wf(level as nat, index as int));
        proof {
            allocator.lemma_disjoint();
            reveal_with_fuel(same_path, 2);
        }
        if level == 1 {
            let leaf_flags = flags.union(EntryFlags::present());
            self.entries[index].set(frame, leaf_flags);
            proof {
                assert forall|i: int| 0 <= i < ENTRY_COUNT implies #[trigger] self.entry_wf(
                    1,
                    i,
                ) by {
                    assert(old(self).entry_wf(1, i));
                }
                assert forall|q: Page| !same_path(page, q, 1) implies #[trigger] self.walk(1, q)
                    == old(self).walk(1, q) by {
                    Page::lemma_index_bounds(q, 1);
                }
            }
            return Ok(());
        }
        let ghost created = self.tables@[index as int] is None;
        if self.tables[index].is_none() {
            match allocator.allocate_frame() {
                None => {
                    assert(self.missing_tables(level as nat, page) == level - 1);
                    return Err(OutOfMemory);
                },
                Some(table_frame) => {
                    let table = Table::new(level - 1);
                    let table_flags = EntryFlags::from_bits_truncate(TABLE_FLAGS);
                    proof {
                        assert(TABLE_FLAGS & ALL_FLAGS == TABLE_FLAGS && TABLE_FLAGS & PRESENT
                            == PRESENT && TABLE_FLAGS & HUGE_PAGE != HUGE_PAGE) by (bit_vector);
                    }
                    self.entries[index].set(table_frame, table_flags);
                    self.tables[index] = Some(table);
                },
            }
        }
        let ghost mid = *self;
        proof {
            allocator.lemma_disjoint();
            assert forall|i: int| 0 <= i < ENTRY_COUNT implies #[trigger] mid.entry_wf(
                level as nat,
                i,
            ) by {
                assert(old(self).entry_wf(level as nat, i));
            }
            assert forall|i: int| 0 <= i < ENTRY_COUNT && (#[trigger] mid.table_at(i)) is Some
                implies mid.table_at(i).unwrap().wf((level - 1) as nat) by {
                if i != index {
                    assert(old(self).table_at(i) == mid.table_at(i));
                }
            }
            assert(mid.wf(level as nat));
            Page::lemma_index_bounds(page, level as nat);
            let child = mid.table_at(index as int).unwrap();
            let lower = (level - 1) as nat;
            if created {
                assert(old(self).table_at(index as int) is None);
                assert(old(self).entry_at(index as int) == 0);
                assert(forall|q: Page| #[trigger] child.walk(lower, q) is None);
                assert(child.missing_tables((level - 1) as nat, page) == level - 2);
                assert(old(self).missing_tables(level as nat, page) == level - 1);
            } else {
                assert(mid.entries@ == old(self).entries@);
                assert(mid.tables@ == old(self).tables@);
            }
            assert(mid.missing_tables(level as nat, page) == child.missing_tables(
                (level - 1) as nat,
                page,
            ));
            assert forall|q: Page| #[trigger]
                mid.walk(level as nat, q) == old(self).walk(level as nat, q) by {
                Page::lemma_index_bounds(q, level as nat);
                if q.index_at(level as nat) != index {
                    assert(old(self).table_at(q.index_at(level as nat)) == mid.table_at(
                        q.index_at(level as nat),
                    ));
                    assert(old(self).entry_at(q.index_at(level as nat)) == mid.entry_at(
                        q.index_at(level as nat),
                    ));
                } else if created {
                    assert(child.walk((level - 1) as nat, q) is None);
                    assert(0u64 & PRESENT != PRESENT) by (bit_vector);
                }
            }
            assert(mid.missing_tables(level as nat, page) + (if created {
                1nat
            } else {
                0nat
            }) == old(self).missing_tables(level as nat, page));
        }
        let r = match &mut self.tables[index] {
            Some(child) => child.map_in(level - 1, page, frame, flags, allocator),
            None => Err(OutOfMemory),
        };
        proof {
            assert(self.entries@ == mid.entries@);
            assert forall|i: int| 0 <= i < ENTRY_COUNT && i != index implies self.table_at(i)
                == mid.table_at(i) by {}
            assert forall|i: int| 0 <= i < ENTRY_COUNT implies #[trigger] self.entry_wf(
                level as nat,
                i,
            ) by {
                assert(mid.entry_wf(level as nat, i));
            }
            assert forall|i: int| 0 <= i < ENTRY_COUNT && (#[trigger] self.table_at(i)) is Some
                implies self.table_at(i).unwrap().wf((level - 1) as nat) by {
                if i != index {
                    assert(mid.table_at(i) == self.table_at(i));
                }
            }
            assert forall|q: Page| !same_path(page, q, level as nat) implies #[trigger] self.walk(
                level as nat,
                q,
            ) == old(self).walk(level as nat, q) by {
                Page::lemma_index_bounds(q, level as nat);
                assert(mid.walk(level as nat, q) == old(self).walk(level as nat, q));
                if q.index_at(level as nat) != index {
                    assert(mid.table_at(q.index_at(level as nat)) == self.table_at(
                        q.index_at(level as nat),
                    ));
                } else {
                    let lower = (level - 1) as nat;
                    assert(!same_path(page, q, lower));
                    let c_old = mid.table_at(index as int).unwrap();
                    let c_new = self.table_at(index as int).unwrap();
                    assert(self.entry_at(index as int) == mid.entry_at(index as int));
                    assert(c_new.walk(lower, q) == c_old.walk(lower, q));
                    assert(self.walk(level as nat, q) == mid.walk(level as nat, q));
                }
            }
            if r is Err {
                assert forall|q: Page| #[trigger]
                    self.walk(level as nat, q) == old(self).walk(level as nat, q) by {
                    if same_path(page, q, level as nat) {
                        self.lemma_walk_same_path(level as nat, page, q);
                        old(self).lemma_walk_same_path(level as nat, page, q);
                    }
                }
            }
        }
        r
    }

    /// Clears the leaf entry that maps the page below this table, which is of
    /// the given level, and returns the frame that the page was mapped to.
    /// Tables that are left without any entry stay in place.
    pub fn unmap_in(&mut self, level: usize, page: Page) -> (frame: Frame)
        requires
            old(self).wf(level as nat),
            old(self).walk(level as nat, page) is Some,
            old(self).walk(level as nat, page).unwrap().level == 1,
        ensures
            final(self).wf(level as nat),
            final(self).walk(level as nat, page) is None,
            frame == old(self).walk(level as nat, page).unwrap().frame,
            frame.is_addressable(),
            forall|q: Page|
                !same_path(page, q, level as nat) ==> #[trigger] final(self).walk(level as nat, q)
                    == old(self).walk(level as nat, q),
        decreases level,
    {
        let index = Table::index_of(page, level);
        assert(self.entry_wf(level as nat, index as int));
        proof {
            reveal_with_fuel(same_path, 2);
        }
        if level == 1 {
            let frame = self.entries[index].pointed_frame();
            self.entries[index].set_unused();
            proof {
                assert(0u64 & PRESENT != PRESENT) by (bit_vector);
                assert forall|i: int| 0 <= i < ENTRY_COUNT implies #[trigger] self.entry_wf(
                    1,
                    i,
                ) by {
                    assert(old(self).entry_wf(1, i));
                }
                assert forall|q: Page| !same_path(page, q, 1) implies #[trigger] self.walk(1, q)
                    == old(self).walk(1, q) by {
                    Page::lemma_index_bounds(q, 1);
                }
            }
            return frame.unwrap();
        }
        let frame = match &mut self.tables[index] {
            Some(child) => child.unmap_in(level - 1, page),
            None => Frame { number: 0 },
        };
        proof {
            assert(self.entries@ == old(self).entries@);
            assert forall|i: int| 0 <= i < ENTRY_COUNT && i != index implies self.table_at(i)
                == old(self).table_at(i) by {}
            assert forall|i: int| 0 <= i < ENTRY_COUNT implies #[trigger] self.entry_wf(
                level as nat,
                i,
            ) by {
                assert(old(self).entry_wf(level as nat, i));
            }
            assert forall|i: int| 0 <= i < ENTRY_COUNT && (#[trigger] self.table_at(i)) is Some
                implies self.table_at(i).unwrap().wf((level - 1) as nat) by {
                if i != index {
                    assert(old(self).table_at(i) == self.table_at(i));
                }
            }
            assert forall|q: Page| !same_path(page, q, level as nat) implies #[trigger] self.walk(
                level as nat,
                q,
            ) == old(self).walk(level as nat, q) by {
                Page::lemma_index_bounds(q, level as nat);
                if q.index_at(level as nat) != index {
                    assert(old(self).table_at(q.index_at(level as nat)) == self.table_at(
                        q.index_at(level as nat),
                    ));
                } else {
                    let lower = (level - 1) as nat;
                    assert(!same_path(page, q, lower));
                    let c_old = old(self).table_at(index as int).unwrap();
                    let c_new = self.table_at(index as int).unwrap();
                    assert(self.entry_at(index as int) == old(self).entry_at(index as int));
                    assert(c_new.walk(lower, q) == c_old.walk(lower, q));
                    assert(self.walk(level as nat, q) == old(self).walk(level as nat, q));
                }
            }
        }
        frame
    }

    /// Whether a huge page of the level `target` can be mapped for the page
    /// below this table: the entry that would map it is clear, and so is
    /// nothing but tables on the way to it.
    pub open spec fn huge_slot_clear(&self, level: nat, target: nat, page: Page) -> bool
        decreases level,
    {
        let index = page.index_at(level);
        let bits = self.entry_at(index);
        if level <= target {
            bits == 0
        } else {
            &&& !has_flag(bits, HUGE_PAGE)
            &&& match self.table_at(index) {
                Some(table) => table.huge_slot_clear((level - 1) as nat, target, page),
                None => true,
            }
        }
    }

    /// The number of tables that are missing on the way to the entry of the
    /// level `target` for the page.
    pub open spec fn missing_above(&self, level: nat, target: nat, page: Page) -> nat
        decreases level,
    {
        let index = page.index_at(level);
        if level <= target {
            0
        } else {
            match self.table_at(index) {
                Some(table) => table.missing_above((level - 1) as nat, target, page),
                None => (level - target) as nat,
            }
        }
    }

    /// Maps the huge page of the level `target` (2 for 2 MiB, 3 for 1 GiB)
    /// that holds `page` to the frames from `frame` on, below this table,
    /// which is of the given level. Tables that are missing above the entry
    /// are created, each in a frame taken from the allocator; when the
    /// allocator runs out, no page has changed what it is mapped to.
    #[verifier::rlimit(60)]
    pub fn map_huge_in<A: FrameAllocator>(
        &mut self,
        level: usize,
        target: usize,
        page: Page,
        frame: Frame,
        flags: EntryFlags,
        allocator: &mut A,
    ) -> (r: Result<(), OutOfMemory>)
        requires
            old(self).wf(level as nat),
            2 <= target <= 3,
            target <= level,
            old(self).huge_slot_clear(level as nat, target as nat, page),
            frame.is_addressable(),
            frame.number as int % huge_page_frames(target as nat) == 0,
            old(allocator).wf(),
        ensures
            final(self).wf(level as nat),
            final(allocator).wf(),
            r is Ok <==> old(allocator).free_frames().len() >= old(self).missing_above(
                level as nat,
                target as nat,
                page,
            ),
            r is Ok ==> forall|q: Page|
                same_upper_path(page, q, level as nat, target as nat) ==> #[trigger] final(self).walk(level as nat, q) == Some(
                    Mapping {
                        frame: Frame {
                            number: (frame.number + huge_offset(q, target as nat)) as u64,
                        },
                        flags: flags@ | PRESENT | HUGE_PAGE,
                        level: target as nat,
                    },
                ),
            r is Err ==> forall|q: Page| #[trigger]
                final(self).walk(level as nat, q) == old(self).walk(level as nat, q),
            forall|q: Page|
                !same_upper_path(page, q, level as nat, target as nat) ==> #[trigger] final(self).walk(level as nat, q) == old(self).walk(level as nat, q),
            final(allocator).free_frames().subset_of(old(allocator).free_frames()),
            old(allocator).allocated_frames().subset_of(final(allocator).allocated_frames()),
        decreases level,
    {
        let index = Table::index_of(page, level);
        assert(self.entry_wf(level as nat, index as int));
        proof {
            allocator.lemma_disjoint();
            reveal_with_fuel(same_upper_path, 2);
        }
        if level == target {
            let huge_flags = flags.union(EntryFlags::present()).union(EntryFlags::huge_page());
            proof {
                let a = flags@;
                assert((a | PRESENT | HUGE_PAGE) & PRESENT == PRESENT && 0u64 & PRESENT != PRESENT)
                    by (bit_vector);
                assert(self.table_at(index as int) is None);
            }
            self.entries[index].set(frame, huge_flags);
            proof {
                assert forall|i: int| 0 <= i < ENTRY_COUNT implies #[trigger] self.entry_wf(
                    level as nat,
                    i,
                ) by {
                    assert(old(self).entry_wf(level as nat, i));
                }
                assert forall|i: int| 0 <= i < ENTRY_COUNT && (#[trigger] self.table_at(i)) is Some
                    implies self.table_at(i).unwrap().wf((level - 1) as nat) by {
                    assert(old(self).table_at(i) == self.table_at(i));
                }
                assert forall|q: Page|
                    same_upper_path(page, q, level as nat, target as nat) implies #[trigger] self.walk(
                    level as nat,
                    q,
                ) == Some(
                    Mapping {
                        frame: Frame {
                            number: (frame.number + huge_offset(q, target as nat)) as u64,
                        },
                        flags: flags@ | PRESENT | HUGE_PAGE,
                        level: target as nat,
                    },
                ) by {
                    Page::lemma_index_bounds(q, level as nat);
                }
                assert forall|q: Page|
                    !same_upper_path(page, q, level as nat, target as nat) implies #[trigger] self.walk(
                    level as nat,
                    q,
                ) == old(self).walk(level as nat, q) by {
                    Page::lemma_index_bounds(q, level as nat);
                    assert(old(self).table_at(q.index_at(level as nat)) == self.table_at(
                        q.index_at(level as nat),
                    ));
                }
            }
            return Ok(());
        }
        let ghost created = self.tables@[index as int] is None;
        if self.tables[index].is_none() {
            match allocator.allocate_frame() {
                None => {
                    return Err(OutOfMemory);
                },
                Some(table_frame) => {
                    let table = Table::new(level - 1);
                    let table_flags = EntryFlags::from_bits_truncate(TABLE_FLAGS);
                    proof {
                        assert(TABLE_FLAGS & ALL_FLAGS == TABLE_FLAGS && TABLE_FLAGS & PRESENT
                            == PRESENT && TABLE_FLAGS & HUGE_PAGE != HUGE_PAGE) by (bit_vector);
                        assert(0u64 & HUGE_PAGE != HUGE_PAGE) by (bit_vector);
                        table.lemma_new_clear((level - 1) as nat, target as nat, page);
                    }
                    self.entries[index].set(table_frame, table_flags);
                    self.tables[index] = Some(table);
                },
            }
        }
        let ghost mid = *self;
        proof {
            allocator.lemma_disjoint();
            assert forall|i: int| 0 <= i < ENTRY_COUNT implies #[trigger] mid.entry_wf(
                level as nat,
                i,
            ) by {
                assert(old(self).entry_wf(level as nat, i));
            }
            assert forall|i: int| 0 <= i < ENTRY_COUNT && (#[trigger] mid.table_at(i)) is Some
                implies mid.table_at(i).unwrap().wf((level - 1) as nat) by {
                if i != index {
                    assert(old(self).table_at(i) == mid.table_at(i));
                }
            }
            assert(mid.wf(level as nat));
            Page::lemma_index_bounds(page, level as nat);
            let child = mid.table_at(index as int).unwrap();
            let lower = (level - 1) as nat;
            if created {
                assert(old(self).table_at(index as int) is None);
                assert(old(self).entry_at(index as int) == 0);
                assert(forall|q: Page| #[trigger] child.walk(lower, q) is None);
            } else {
                assert(mid.entries@ == old(self).entries@);
                assert(mid.tables@ == old(self).tables@);
            }
            assert forall|q: Page| #[trigger]
                mid.walk(level as nat, q) == old(self).walk(level as nat, q) by {
                Page::lemma_index_bounds(q, level as nat);
                if q.index_at(level as nat) != index {
                    assert(old(self).table_at(q.index_at(level as nat)) == mid.table_at(
                        q.index_at(level as nat),
                    ));
                    assert(old(self).entry_at(q.index_at(level as nat)) == mid.entry_at(
                        q.index_at(level as nat),
                    ));
                } else if created {
                    assert(child.walk((level - 1) as nat, q) is None);
                    assert(0u64 & PRESENT != PRESENT) by (bit_vector);
                }
            }
            assert(mid.missing_above(level as nat, target as nat, page) + (if created {
                1nat
            } else {
                0nat
            }) == old(self).missing_above(level as nat, target as nat, page));
        }
        let r = match &mut self.tables[index] {
            Some(child) => child.map_huge_in(level - 1, target, page, frame, flags, allocator),
            None => Err(OutOfMemory),
        };
        proof {
            assert(self.entries@ == mid.entries@);
            assert forall|i: int| 0 <= i < ENTRY_COUNT && i != index implies self.table_at(i)
                == mid.table_at(i) by {}
            assert forall|i: int| 0 <= i < ENTRY_COUNT implies #[trigger] self.entry_wf(
                level as nat,
                i,
            ) by {
                assert(mid.entry_wf(level as nat, i));
            }
            assert forall|i: int| 0 <= i < ENTRY_COUNT && (#[trigger] self.table_at(i)) is Some
                implies self.table_at(i).unwrap().wf((level - 1) as nat) by {
                if i != index {
                    assert(mid.table_at(i) == self.table_at(i));
                }
            }
            let lower = (level - 1) as nat;
            let c_old = mid.table_at(index as int).unwrap();
            let c_new = self.table_at(index as int).unwrap();
            assert forall|q: Page|
                !same_upper_path(page, q, level as nat, target as nat) implies #[trigger] self.walk(
                level as nat,
                q,
            ) == old(self).walk(level as nat, q) by {
                Page::lemma_index_bounds(q, level as nat);
                assert(mid.walk(level as nat, q) == old(self).walk(level as nat, q));
                if q.index_at(level as nat) != index {
                    assert(mid.table_at(q.index_at(level as nat)) == self.table_at(
                        q.index_at(level as nat),
                    ));
                } else {
                    assert(!same_upper_path(page, q, lower, target as nat));
                    assert(self.entry_at(index as int) == mid.entry_at(index as int));
                    assert(c_new.walk(lower, q) == c_old.walk(lower, q));
                    assert(self.walk(level as nat, q) == mid.walk(level as nat, q));
                }
            }
            if r is Ok {
                assert forall|q: Page|
                    same_upper_path(page, q, level as nat, target as nat) implies #[trigger] self.walk(
                    level as nat,
                    q,
                ) == Some(
                    Mapping {
                        frame: Frame {
                            number: (frame.number + huge_offset(q, target as nat)) as u64,
                        },
                        flags: flags@ | PRESENT | HUGE_PAGE,
                        level: target as nat,
                    },
                ) by {
                    Page::lemma_index_bounds(q, level as nat);
                    assert(same_upper_path(page, q, lower, target as nat));
                    assert(self.entry_at(index as int) == mid.entry_at(index as int));
                    assert(mid.entry_wf(level as nat, index as int));
                    assert(q.index_at(level as nat) == index);
                    assert(c_new.walk(lower, q) == Some(
                        Mapping {
                            frame: Frame {
                                number: (frame.number + huge_offset(q, target as nat)) as u64,
                            },
                            flags: flags@ | PRESENT | HUGE_PAGE,
                            level: target as nat,
                        },
                    ));
                    assert(self.walk(level as nat, q) == c_new.walk(lower, q));
                }
            } else {
                assert forall|q: Page| #[trigger]
                    self.walk(level as nat, q) == old(self).walk(level as nat, q) by {
                    Page::lemma_index_bounds(q, level as nat);
                    assert(mid.walk(level as nat, q) == old(self).walk(level as nat, q));
                    if q.index_at(level as nat) != index {
                        assert(mid.table_at(q.index_at(level as nat)) == self.table_at(
                            q.index_at(level as nat),
                        ));
                    } else {
                        assert(self.entry_at(index as int) == mid.entry_at(index as int));
                        assert(c_new.walk(lower, q) == c_old.walk(lower, q));
                    }
                }
            }
        }
        r
    }

    /// In a table that was just made, every slot for a huge page is clear.
    pub proof fn lemma_new_clear(&self, level: nat, target: nat, page: Page)
        requires
            self.wf(level),
            forall|i: int| 0 <= i < ENTRY_COUNT ==> self.entry_at(i) == 0,
        ensures
            self.huge_slot_clear(level, target, page),
            self.missing_above(level, target, page) == if level <= target {
                0
            } else {
                level - target
            },
    {
        Page::lemma_index_bounds(page, level);
        assert(0u64 & PRESENT != PRESENT && 0u64 & HUGE_PAGE != HUGE_PAGE) by (bit_vector);
        assert(self.entry_wf(level, page.index_at(level)));
    }
}

} // verus!
