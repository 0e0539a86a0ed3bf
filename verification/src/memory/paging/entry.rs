//! One 64-bit page-table entry and its flag bits.

use vstd::prelude::*;
use crate::memory::{Frame, MAX_FRAME_NUMBER, PAGE_SIZE};

verus! {

/// The entry maps something.
pub const PRESENT: u64 = 0x1;

/// Writes through the entry are allowed.
pub const WRITABLE: u64 = 0x2;

/// Code running in user mode may use the entry.
pub const USER_ACCESSIBLE: u64 = 0x4;

/// Writes go straight to memory.
pub const WRITE_THROUGH: u64 = 0x8;

/// The mapped memory is not cached.
pub const NO_CACHE: u64 = 0x10;

/// The processor has used the entry.
pub const ACCESSED: u64 = 0x20;

/// The processor has written through the entry.
pub const DIRTY: u64 = 0x40;

/// In a level-3 or level-2 table: the entry maps a 1 GiB or 2 MiB page itself
/// and points to no further table.
pub const HUGE_PAGE: u64 = 0x80;

/// The entry stays in the TLB across an address-space switch.
pub const GLOBAL: u64 = 0x100;

/// Instructions may not be fetched through the entry.
pub const NO_EXECUTE: u64 = 0x8000_0000_0000_0000;

/// Every bit that is a flag.
pub const ALL_FLAGS: u64 = 0x8000_0000_0000_01ff;

/// The bits of an entry that hold the physical address.
pub const ADDRESS_MASK: u64 = 0x000f_ffff_ffff_f000;

/// Whether every bit of `flag` is set in `bits`.
pub open spec fn has_flag(bits: u64, flag: u64) -> bool {
    bits & flag == flag
}

/// Each named flag is a flag bit.
proof fn lemma_flag_constants()
    ensures
        PRESENT & !ALL_FLAGS == 0,
        WRITABLE & !ALL_FLAGS == 0,
        USER_ACCESSIBLE & !ALL_FLAGS == 0,
        NO_CACHE & !ALL_FLAGS == 0,
        HUGE_PAGE & !ALL_FLAGS == 0,
        NO_EXECUTE & !ALL_FLAGS == 0,
{
    assert(PRESENT & !ALL_FLAGS == 0 && WRITABLE & !ALL_FLAGS == 0 && USER_ACCESSIBLE & !ALL_FLAGS
        == 0 && NO_CACHE & !ALL_FLAGS == 0 && HUGE_PAGE & !ALL_FLAGS == 0 && NO_EXECUTE
        & !ALL_FLAGS == 0) by (bit_vector);
}

/// A set of page-table entry flags.
#[derive(Debug, Clone, Copy)]
pub struct EntryFlags {
    bits: u64,
}

impl View for EntryFlags {
    type V = u64;

    /// The flags as a bit pattern.
    closed spec fn view(&self) -> u64 {
        self.bits
    }
}

impl EntryFlags {
    #[verifier::type_invariant]
    spec fn only_flag_bits(self) -> bool {
        self.bits & !ALL_FLAGS == 0
    }

    /// No flag at all.
    pub fn empty() -> (flags: EntryFlags)
        ensures
            flags@ == 0,
    {
        assert(0u64 & !ALL_FLAGS == 0) by (bit_vector);
        EntryFlags { bits: 0 }
    }

    /// The flags among the given bits; bits that are no flag are dropped.
    pub fn from_bits_truncate(bits: u64) -> (flags: EntryFlags)
        ensures
            flags@ == bits & ALL_FLAGS,
    {
        assert((bits & ALL_FLAGS) & !ALL_FLAGS == 0) by (bit_vector);
        EntryFlags { bits: bits & ALL_FLAGS }
    }

    /// The flags as a bit pattern.
    pub fn bits(&self) -> (bits: u64)
        ensures
            bits == self@,
            bits & !ALL_FLAGS == 0,
    {
        proof {
            use_type_invariant(self);
        }
        self.bits
    }

    /// Whether every flag of `other` is among these.
    pub fn contains(&self, other: EntryFlags) -> (r: bool)
        ensures
            r == has_flag(self@, other@),
    {
        self.bits & other.bits == other.bits
    }

    /// The flags of either set.
    pub fn union(&self, other: EntryFlags) -> (flags: EntryFlags)
        ensures
            flags@ == self@ | other@,
            has_flag(flags@, self@),
            has_flag(flags@, other@),
    {
        proof {
            use_type_invariant(self);
            use_type_invariant(&other);
        }
        let a = self.bits;
        let b = other.bits;
        assert((a & !ALL_FLAGS == 0 && b & !ALL_FLAGS == 0 ==> (a | b) & !ALL_FLAGS == 0) && (a
            | b) & a == a && (a | b) & b == b) by (bit_vector);
        EntryFlags { bits: a | b }
    }

    /// The flag `PRESENT` alone.
    pub fn present() -> (flags: EntryFlags)
        ensures
            flags@ == PRESENT,
    {
        proof {
            lemma_flag_constants();
        }
        EntryFlags { bits: PRESENT }
    }

    /// The flag `WRITABLE` alone.
    pub fn writable() -> (flags: EntryFlags)
        ensures
            flags@ == WRITABLE,
    {
        proof {
            lemma_flag_constants();
        }
        EntryFlags { bits: WRITABLE }
    }

    /// The flag `USER_ACCESSIBLE` alone.
    pub fn user_accessible() -> (flags: EntryFlags)
        ensures
            flags@ == USER_ACCESSIBLE,
    {
        proof {
            lemma_flag_constants();
        }
        EntryFlags { bits: USER_ACCESSIBLE }
    }

    /// The flag `NO_CACHE` alone.
    pub fn no_cache() -> (flags: EntryFlags)
        ensures
            flags@ == NO_CACHE,
    {
        proof {
            lemma_flag_constants();
        }
        EntryFlags { bits: NO_CACHE }
    }

    /// The flag `HUGE_PAGE` alone.
    pub fn huge_page() -> (flags: EntryFlags)
        ensures
            flags@ == HUGE_PAGE,
    {
        proof {
            lemma_flag_constants();
        }
        EntryFlags { bits: HUGE_PAGE }
    }

    /// The flag `NO_EXECUTE` alone.
    pub fn no_execute() -> (flags: EntryFlags)
        ensures
            flags@ == NO_EXECUTE,
    {
        proof {
            lemma_flag_constants();
        }
        EntryFlags { bits: NO_EXECUTE }
    }
}

/// An entry of a page table of any level.
#[derive(Debug, Clone, Copy)]
pub struct Entry {
    bits: u64,
}

impl View for Entry {
    type V = u64;

    /// The entry as the processor reads it.
    closed spec fn view(&self) -> u64 {
        self.bits
    }
}

/// What an entry with the given bits points to: the frame named by its address
/// field if the entry is present, nothing otherwise.
pub open spec fn frame_of(bits: u64) -> Option<Frame> {
    if has_flag(bits, PRESENT) {
        Some(Frame { number: (bits & ADDRESS_MASK) / PAGE_SIZE })
    } else {
        None
    }
}

/// The bits of an entry that points to `frame` with `flags`.
pub open spec fn entry_bits(frame: Frame, flags: u64) -> u64 {
    ((frame.number * PAGE_SIZE) as u64) | flags
}

/// An entry built from a frame and flags gives both back.
pub proof fn lemma_entry_bits(frame: Frame, flags: u64)
    requires
        frame.is_addressable(),
        flags & !ALL_FLAGS == 0,
    ensures
        entry_bits(frame, flags) & ALL_FLAGS == flags,
        (entry_bits(frame, flags) & ADDRESS_MASK) / PAGE_SIZE == frame.number,
        has_flag(entry_bits(frame, flags), PRESENT) == has_flag(flags, PRESENT),
        has_flag(entry_bits(frame, flags), HUGE_PAGE) == has_flag(flags, HUGE_PAGE),
        has_flag(flags, PRESENT) ==> entry_bits(frame, flags) != 0,
{
    let n = frame.number;
    let a = (n * PAGE_SIZE) as u64;
    assert(n <= 0xff_ffff_ffff ==> n * 4096 == n << 12) by (bit_vector);
    assert(a == n << 12);
    assert(n <= 0xff_ffff_ffff && flags & !0x8000_0000_0000_01ffu64 == 0 ==> {
        &&& ((n << 12) | flags) & 0x8000_0000_0000_01ffu64 == flags
        &&& (((n << 12) | flags) & 0x000f_ffff_ffff_f000u64) / 4096 == n
        &&& (((n << 12) | flags) & 1 == 1) == (flags & 1 == 1)
        &&& (((n << 12) | flags) & 128 == 128) == (flags & 128 == 128)
        &&& (flags & 1 == 1 ==> ((n << 12) | flags) != 0)
    }) by (bit_vector);
}

impl Entry {
    /// An entry that maps nothing.
    pub fn unused() -> (entry: Entry)
        ensures
            entry@ == 0,
    {
        Entry { bits: 0 }
    }

    /// Whether the entry maps nothing and carries no flag.
    pub fn is_unused(&self) -> (r: bool)
        ensures
            r == (self@ == 0),
    {
        self.bits == 0
    }

    /// Clears the entry.
    pub fn set_unused(&mut self)
        ensures
            final(self)@ == 0,
    {
        self.bits = 0;
    }

    /// The flags of the entry.
    pub fn flags(&self) -> (flags: EntryFlags)
        ensures
            flags@ == self@ & ALL_FLAGS,
            has_flag(flags@, PRESENT) == has_flag(self@, PRESENT),
            has_flag(flags@, HUGE_PAGE) == has_flag(self@, HUGE_PAGE),
    {
        let bits = self.bits;
        assert(((bits & ALL_FLAGS) & PRESENT == PRESENT <==> bits & PRESENT == PRESENT) && ((bits
            & ALL_FLAGS) & HUGE_PAGE == HUGE_PAGE <==> bits & HUGE_PAGE == HUGE_PAGE))
            by (bit_vector);
        EntryFlags::from_bits_truncate(self.bits)
    }

    /// The frame that the entry points to, if the entry is present.
    pub fn pointed_frame(&self) -> (frame: Option<Frame>)
        ensures
            frame == frame_of(self@),
            frame is Some ==> frame.unwrap().is_addressable(),
    {
        let bits = self.bits;
        assert((bits & ADDRESS_MASK) / 4096 <= 0xff_ffff_ffff) by (bit_vector);
        if self.flags().contains(EntryFlags::present()) {
            Some(Frame::containing_address(self.bits & ADDRESS_MASK))
        } else {
            None
        }
    }

    /// Points the entry to `frame` with exactly the given flags.
    pub fn set(&mut self, frame: Frame, flags: EntryFlags)
        requires
            frame.is_addressable(),
        ensures
            final(self)@ == entry_bits(frame, flags@),
            final(self)@ & ALL_FLAGS == flags@,
            has_flag(final(self)@, PRESENT) == has_flag(flags@, PRESENT),
            has_flag(final(self)@, HUGE_PAGE) == has_flag(flags@, HUGE_PAGE),
            has_flag(flags@, PRESENT) ==> frame_of(final(self)@) == Some(frame),
            has_flag(flags@, PRESENT) ==> final(self)@ != 0,
    {
        let bits = flags.bits();
        proof {
            lemma_entry_bits(frame, bits);
        }
        self.bits = frame.start_address() | bits;
    }
}

} // verus!
