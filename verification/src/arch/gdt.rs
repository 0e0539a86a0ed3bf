//! The global descriptor table.

use vstd::prelude::*;

verus! {

/// The amount of entries the GDT has.
pub const GDT_ENTRY_NUM: usize = 8;

/// A code segment of privilege level 0: readable, executable, a user segment,
/// present, in long mode.
pub const CODE_SEGMENT: u64 = 0x0020_9a00_0000_0000;

/// A data segment of privilege level 0: readable, a user segment, present, in
/// long mode.
pub const DATA_SEGMENT: u64 = 0x0020_9200_0000_0000;

/// The present bit of a descriptor.
pub const DESCRIPTOR_PRESENT: u64 = 0x0000_8000_0000_0000;

/// The type of an available 64-bit TSS.
pub const TSS_TYPE: u64 = 0x0000_0900_0000_0000;

/// The place of the privilege level in a descriptor: it counts in units of
/// this.
pub const PRIVILEGE_UNIT: u64 = 0x0000_2000_0000_0000;

/// Represents a descriptor in the GDT.
#[derive(Debug, PartialEq, Eq, Structural, Clone, Copy)]
pub enum Descriptor {
    /// Represents either a code or a data descriptor.
    UserDescriptor(u64),
    /// Represents a system descriptor (e.g. TSS), which takes two entries.
    SystemDescriptor(u64, u64),
}

/// The base address that the two entries of a system descriptor hold.
pub open spec fn base_of(low: u64, high: u64) -> int {
    (low / 0x1_0000) % 0x100_0000 + ((low / 0x100_0000_0000_0000) % 0x100) * 0x100_0000 + (high
        % 0x1_0000_0000) * 0x1_0000_0000
}

/// The limit that the low entry of a system descriptor holds.
pub open spec fn limit_of(low: u64) -> int {
    low as int % 0x1_0000
}

impl Descriptor {
    /// Creates a new code descriptor of the given privilege level, 0 to 3.
    pub fn code(privilege_level: u8) -> (descriptor: Descriptor)
        requires
            privilege_level <= 3,
        ensures
            descriptor == Descriptor::UserDescriptor(
                (CODE_SEGMENT + privilege_level * PRIVILEGE_UNIT) as u64,
            ),
    {
        Descriptor::UserDescriptor(CODE_SEGMENT + privilege_level as u64 * PRIVILEGE_UNIT)
    }

    /// Creates a new data descriptor of the given privilege level, 0 to 3.
    pub fn data(privilege_level: u8) -> (descriptor: Descriptor)
        requires
            privilege_level <= 3,
        ensures
            descriptor == Descriptor::UserDescriptor(
                (DATA_SEGMENT + privilege_level * PRIVILEGE_UNIT) as u64,
            ),
    {
        Descriptor::UserDescriptor(DATA_SEGMENT + privilege_level as u64 * PRIVILEGE_UNIT)
    }

    /// Creates a new unused descriptor.
    pub fn unused() -> (descriptor: Descriptor)
        ensures
            descriptor == Descriptor::UserDescriptor(0),
    {
        Descriptor::UserDescriptor(0)
    }

    /// Creates a new descriptor of the task state segment that lies at `base`
    /// and whose last byte has the offset `limit`, which must fit 16 bits. The
    /// descriptor is present and has the type of an available TSS.
    pub fn tss(base: u64, limit: u64) -> (descriptor: Descriptor)
        requires
            limit < 0x1_0000,
        ensures
            descriptor matches Descriptor::SystemDescriptor(low, high) && {
                &&& base_of(low, high) == base
                &&& limit_of(low) == limit
                &&& high == base / 0x1_0000_0000
                &&& (low / 0x100_0000_0000) % 0x1_0000 == 0x0089
            },
    {
        let mut low_val = limit;
        low_val |= (base & 0xffff) << 16;
        low_val |= (base >> 16 & 0xff) << 32;
        low_val |= TSS_TYPE;
        low_val |= DESCRIPTOR_PRESENT;
        low_val |= (base >> 24 & 0xff) << 56;
        let high_val = base >> 32;
        assert(limit < 0x1_0000 ==> {
            let low = limit | ((base & 0xffff) << 16) | ((base >> 16 & 0xff) << 32)
                | 0x0000_0900_0000_0000u64 | 0x0000_8000_0000_0000u64 | ((base >> 24 & 0xff)
                << 56);
            let high = base >> 32;
            &&& low % 0x1_0000 == limit
            &&& (low / 0x1_0000) % 0x100_0000 == base % 0x100_0000
            &&& (low / 0x100_0000_0000_0000) % 0x100 == (base / 0x100_0000) % 0x100
            &&& high == base / 0x1_0000_0000
            &&& high % 0x1_0000_0000 == high
            &&& (low / 0x100_0000_0000) % 0x1_0000 == 0x0089
        }) by (bit_vector);
        Descriptor::SystemDescriptor(low_val, high_val)
    }
}

/// Represents the GDT.
#[derive(Debug)]
pub struct Gdt {
    /// The actual entries of the GDT.
    entries: [u64; 8],
    /// The index where the next new entry will be created.
    next_entry: usize,
}

impl View for Gdt {
    type V = Seq<u64>;

    /// The entries that were added, behind the null entry.
    closed spec fn view(&self) -> Seq<u64> {
        self.entries@.subrange(0, self.next_entry as int)
    }
}

impl Gdt {
    /// The table has its null entry, and what was added has fitted.
    pub closed spec fn wf(&self) -> bool {
        1 <= self.next_entry <= GDT_ENTRY_NUM && self.entries@[0] == 0
    }

    /// The number of entries that a descriptor takes.
    pub open spec fn size_of(descriptor: Descriptor) -> nat {
        match descriptor {
            Descriptor::UserDescriptor(_) => 1,
            Descriptor::SystemDescriptor(_, _) => 2,
        }
    }

    /// Creates a new global descriptor table that holds the null entry alone.
    pub fn new() -> (gdt: Gdt)
        ensures
            gdt.wf(),
            gdt@ == seq![0u64],
    {
        let entries: [u64; GDT_ENTRY_NUM] = [0; GDT_ENTRY_NUM];
        let gdt = Gdt { entries, next_entry: 1 };
        assert(gdt@ =~= seq![0u64]);
        gdt
    }

    /// The number of entries in use.
    pub fn len(&self) -> (len: usize)
        requires
            self.wf(),
        ensures
            len == self@.len(),
    {
        self.next_entry
    }

    /// The entries of the table, those in use and those still zero.
    pub fn entries(&self) -> (entries: [u64; 8])
        requires
            self.wf(),
        ensures
            entries@.subrange(0, self@.len() as int) == self@,
    {
        self.entries
    }

    /// Adds an entry to the GDT, for which there must be room.
    pub fn add_entry(&mut self, descriptor: Descriptor)
        requires
            old(self).wf(),
            old(self)@.len() + Gdt::size_of(descriptor) <= GDT_ENTRY_NUM,
        ensures
            final(self).wf(),
            final(self)@ == match descriptor {
                Descriptor::UserDescriptor(value) => old(self)@.push(value),
                Descriptor::SystemDescriptor(low, high) => old(self)@.push(low).push(high),
            },
    {
        match descriptor {
            Descriptor::UserDescriptor(value) => {
                self.entries[self.next_entry] = value;
                self.next_entry += 1;
                assert(self@ =~= old(self)@.push(value));
            },
            Descriptor::SystemDescriptor(low, high) => {
                self.entries[self.next_entry] = low;
                self.entries[self.next_entry + 1] = high;
                self.next_entry += 2;
                assert(self@ =~= old(self)@.push(low).push(high));
            },
        }
    }
}

} // verus!
