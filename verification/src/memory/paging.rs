//! Virtual pages and the four-level page table.

use vstd::prelude::*;
use crate::memory::{VirtualAddress, PAGE_SIZE};

pub mod entry;
pub mod table;
pub mod mapper;

verus! {

/// The number of entries in a page table of any level.
pub const ENTRY_COUNT: usize = 512;

/// Whether the upper sixteen bits of the address repeat bit 47, as the
/// processor demands of every virtual address it translates.
pub open spec fn is_canonical(address: VirtualAddress) -> bool {
    address < 0x0000_8000_0000_0000 || address >= 0xffff_8000_0000_0000
}

/// The page that contains the address.
pub open spec fn page_of(address: VirtualAddress) -> Page {
    Page { number: address / PAGE_SIZE }
}

/// One virtual page, identified by its number (`address / PAGE_SIZE`).
#[derive(Debug, PartialEq, Eq, Structural, PartialOrd, Ord, Clone, Copy)]
pub struct Page {
    pub number: u64,
}

impl Page {
    /// The index into the table of the given level (4 is the root, 1 holds the
    /// leaf entries) at which the walk for this page continues.
    pub open spec fn index_at(&self, level: nat) -> int
        recommends
            1 <= level <= 4,
    {
        if level == 4 {
            (self.number as int / 0x800_0000) % 512
        } else if level == 3 {
            (self.number as int / 0x4_0000) % 512
        } else if level == 2 {
            (self.number as int / 0x200) % 512
        } else {
            self.number as int % 512
        }
    }

    /// Every table index is below 512.
    pub proof fn lemma_index_bounds(page: Page, level: nat)
        ensures
            0 <= page.index_at(level) < ENTRY_COUNT,
    {
    }

    /// Whether the addresses of the page are canonical.
    pub open spec fn is_canonical(&self) -> bool {
        self.number < 0x8_0000_0000 || 0xf_fff8_0000_0000 <= self.number <= 0xf_ffff_ffff_ffff
    }

    /// Two canonical pages that take the same way through the four tables are
    /// the same page.
    pub proof fn lemma_same_path_same_page(a: Page, b: Page)
        requires
            a.is_canonical(),
            b.is_canonical(),
            crate::memory::paging::table::same_path(a, b, 4),
        ensures
            a == b,
    {
        reveal_with_fuel(crate::memory::paging::table::same_path, 5);
        let x = a.number;
        let y = b.number;
        assert((x / 0x800_0000) % 512 == (y / 0x800_0000) % 512);
        assert((x / 0x4_0000) % 512 == (y / 0x4_0000) % 512);
        assert((x / 0x200) % 512 == (y / 0x200) % 512);
        assert(x % 512 == y % 512);
        assert((x / 0x800_0000) % 512 == (y / 0x800_0000) % 512 && (x / 0x4_0000) % 512 == (y
            / 0x4_0000) % 512 && (x / 0x200) % 512 == (y / 0x200) % 512 && x % 512 == y % 512 && (x
            < 0x8_0000_0000 || (0xf_fff8_0000_0000 <= x && x <= 0xf_ffff_ffff_ffff)) && (y
            < 0x8_0000_0000 || (0xf_fff8_0000_0000 <= y && y <= 0xf_ffff_ffff_ffff)) ==> x == y)
            by (bit_vector);
    }

    /// The page that contains the given virtual address.
    pub fn containing_address(address: VirtualAddress) -> (page: Page)
        requires
            is_canonical(address),
        ensures
            page == page_of(address),
            page.is_canonical(),
            page.number * PAGE_SIZE <= address < page.number * PAGE_SIZE + PAGE_SIZE,
    {
        Page { number: address / PAGE_SIZE }
    }

    /// The first virtual address of the page.
    pub fn start_address(&self) -> (address: VirtualAddress)
        requires
            self.number * PAGE_SIZE <= u64::MAX,
        ensures
            address == self.number * PAGE_SIZE,
    {
        self.number * PAGE_SIZE
    }

    /// The index of the page into the table of level 4, the root table.
    pub fn p4_index(&self) -> (index: usize)
        ensures
            index == self.index_at(4),
            index < ENTRY_COUNT,
    {
        let number = self.number;
        assert((number >> 27) & 0o777 == (number / 0x800_0000) % 512) by (bit_vector);
        ((self.number >> 27) & 0o777) as usize
    }

    /// The index of the page into the table of level 3.
    pub fn p3_index(&self) -> (index: usize)
        ensures
            index == self.index_at(3),
            index < ENTRY_COUNT,
    {
        let number = self.number;
        assert((number >> 18) & 0o777 == (number / 0x4_0000) % 512) by (bit_vector);
        ((self.number >> 18) & 0o777) as usize
    }

    /// The index of the page into the table of level 2.
    pub fn p2_index(&self) -> (index: usize)
        ensures
            index == self.index_at(2),
            index < ENTRY_COUNT,
    {
        let number = self.number;
        assert((number >> 9) & 0o777 == (number / 0x200) % 512) by (bit_vector);
        ((self.number >> 9) & 0o777) as usize
    }

    /// The index of the page into the table of level 1, which holds the leaf entries.
    pub fn p1_index(&self) -> (index: usize)
        ensures
            index == self.index_at(1),
            index < ENTRY_COUNT,
    {
        let number = self.number;
        assert(number & 0o777 == number % 512) by (bit_vector);
        (self.number & 0o777) as usize
    }
}

} // verus!
