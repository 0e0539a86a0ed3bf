//! Where the kernel heap lies, and the alignment arithmetic of its allocator.

use vstd::prelude::*;

verus! {

/// The first address of the kernel heap.
pub const HEAP_START: u64 = 0o_000_001_000_000_0000;

/// The size of the kernel heap in bytes: 100 KiB.
pub const HEAP_SIZE: usize = 100 * 1024;

/// Whether `n` is a power of two: positive, with a single bit set.
pub open spec fn is_power_of_two(n: usize) -> bool {
    n > 0 && (n as u64) & ((n - 1) as u64) == 0
}

/// Whether `aligned` is the greatest multiple of `align` that is not above
/// `addr`.
pub open spec fn is_aligned_down(addr: usize, align: usize, aligned: usize) -> bool {
    aligned <= addr && aligned % align == 0 && addr - aligned < align
}

/// Whether `aligned` is the smallest multiple of `align` that is not below
/// `addr`.
pub open spec fn is_aligned_up(addr: usize, align: usize, aligned: usize) -> bool {
    aligned >= addr && aligned % align == 0 && aligned - addr < align
}

proof fn lemma_align_down(addr: u64, align: u64)
    requires
        align > 0,
        align & ((align - 1) as u64) == 0,
    ensures
        addr & !((align - 1) as u64) <= addr,
        (addr & !((align - 1) as u64)) % align == 0,
        addr - (addr & !((align - 1) as u64)) < align,
{
    let mask = (align - 1) as u64;
    let r = addr & !mask;
    // A power of two is one of sixty-four numbers, and for each of them the
    // mask rounds down to a multiple.
    assert(align > 0 && mask == align - 1 && align & mask == 0 && r == addr & !mask ==> (
        (align == 0x1 && r == (addr / 0x1) * 0x1) || (align == 0x2 && r == (addr / 0x2) * 0x2)
        || (align == 0x4 && r == (addr / 0x4) * 0x4) || (align == 0x8 && r == (addr / 0x8) *
        0x8) || (align == 0x10 && r == (addr / 0x10) * 0x10) || (align == 0x20 && r == (addr /
        0x20) * 0x20) || (align == 0x40 && r == (addr / 0x40) * 0x40) || (align == 0x80 && r ==
        (addr / 0x80) * 0x80) || (align == 0x100 && r == (addr / 0x100) * 0x100) || (align ==
        0x200 && r == (addr / 0x200) * 0x200) || (align == 0x400 && r == (addr / 0x400) * 0x400)
        || (align == 0x800 && r == (addr / 0x800) * 0x800) || (align == 0x1000 && r == (addr /
        0x1000) * 0x1000) || (align == 0x2000 && r == (addr / 0x2000) * 0x2000) || (align ==
        0x4000 && r == (addr / 0x4000) * 0x4000) || (align == 0x8000 && r == (addr / 0x8000) *
        0x8000) || (align == 0x10000 && r == (addr / 0x10000) * 0x10000) || (align == 0x20000 &&
        r == (addr / 0x20000) * 0x20000) || (align == 0x40000 && r == (addr / 0x40000) *
        0x40000) || (align == 0x80000 && r == (addr / 0x80000) * 0x80000) || (align == 0x100000
        && r == (addr / 0x100000) * 0x100000) || (align == 0x200000 && r == (addr / 0x200000) *
        0x200000) || (align == 0x400000 && r == (addr / 0x400000) * 0x400000) || (align ==
        0x800000 && r == (addr / 0x800000) * 0x800000) || (align == 0x1000000 && r == (addr /
        0x1000000) * 0x1000000) || (align == 0x2000000 && r == (addr / 0x2000000) * 0x2000000)
        || (align == 0x4000000 && r == (addr / 0x4000000) * 0x4000000) || (align == 0x8000000 &&
        r == (addr / 0x8000000) * 0x8000000) || (align == 0x10000000 && r == (addr / 0x10000000)
        * 0x10000000) || (align == 0x20000000 && r == (addr / 0x20000000) * 0x20000000) ||
        (align == 0x40000000 && r == (addr / 0x40000000) * 0x40000000) || (align == 0x80000000
        && r == (addr / 0x80000000) * 0x80000000) || (align == 0x100000000 && r == (addr /
        0x100000000) * 0x100000000) || (align == 0x200000000 && r == (addr / 0x200000000) *
        0x200000000) || (align == 0x400000000 && r == (addr / 0x400000000) * 0x400000000) ||
        (align == 0x800000000 && r == (addr / 0x800000000) * 0x800000000) || (align ==
        0x1000000000 && r == (addr / 0x1000000000) * 0x1000000000) || (align == 0x2000000000 &&
        r == (addr / 0x2000000000) * 0x2000000000) || (align == 0x4000000000 && r == (addr /
        0x4000000000) * 0x4000000000) || (align == 0x8000000000 && r == (addr / 0x8000000000) *
        0x8000000000) || (align == 0x10000000000 && r == (addr / 0x10000000000) * 0x10000000000)
        || (align == 0x20000000000 && r == (addr / 0x20000000000) * 0x20000000000) || (align ==
        0x40000000000 && r == (addr / 0x40000000000) * 0x40000000000) || (align == 0x80000000000
        && r == (addr / 0x80000000000) * 0x80000000000) || (align == 0x100000000000 && r ==
        (addr / 0x100000000000) * 0x100000000000) || (align == 0x200000000000 && r == (addr /
        0x200000000000) * 0x200000000000) || (align == 0x400000000000 && r == (addr /
        0x400000000000) * 0x400000000000) || (align == 0x800000000000 && r == (addr /
        0x800000000000) * 0x800000000000) || (align == 0x1000000000000 && r == (addr /
        0x1000000000000) * 0x1000000000000) || (align == 0x2000000000000 && r == (addr /
        0x2000000000000) * 0x2000000000000) || (align == 0x4000000000000 && r == (addr /
        0x4000000000000) * 0x4000000000000) || (align == 0x8000000000000 && r == (addr /
        0x8000000000000) * 0x8000000000000) || (align == 0x10000000000000 && r == (addr /
        0x10000000000000) * 0x10000000000000) || (align == 0x20000000000000 && r == (addr /
        0x20000000000000) * 0x20000000000000) || (align == 0x40000000000000 && r == (addr /
        0x40000000000000) * 0x40000000000000) || (align == 0x80000000000000 && r == (addr /
        0x80000000000000) * 0x80000000000000) || (align == 0x100000000000000 && r == (addr /
        0x100000000000000) * 0x100000000000000) || (align == 0x200000000000000 && r == (addr /
        0x200000000000000) * 0x200000000000000) || (align == 0x400000000000000 && r == (addr /
        0x400000000000000) * 0x400000000000000) || (align == 0x800000000000000 && r == (addr /
        0x800000000000000) * 0x800000000000000) || (align == 0x1000000000000000 && r == (addr /
        0x1000000000000000) * 0x1000000000000000) || (align == 0x2000000000000000 && r == (addr
        / 0x2000000000000000) * 0x2000000000000000) || (align == 0x4000000000000000 && r ==
        (addr / 0x4000000000000000) * 0x4000000000000000) || (align == 0x8000000000000000 && r
        == (addr / 0x8000000000000000) * 0x8000000000000000)
    )) by (bit_vector);
}

/// Whether `n` is a power of two.
pub fn check_power_of_two(n: usize) -> (r: bool)
    ensures
        r == is_power_of_two(n),
{
    n != 0 && (n as u64) & ((n - 1) as u64) == 0
}

/// Align downwards. Returns the greatest x with alignment `align` so that
/// x <= addr. The alignment must be a power of two, or zero, for which the
/// address is returned as it is.
pub fn align_down(addr: usize, align: usize) -> (aligned: usize)
    requires
        align == 0 || is_power_of_two(align),
    ensures
        align == 0 ==> aligned == addr,
        align > 0 ==> is_aligned_down(addr, align, aligned),
{
    if check_power_of_two(align) {
        proof {
            lemma_align_down(addr as u64, align as u64);
        }
        ((addr as u64) & !((align - 1) as u64)) as usize
    } else {
        addr
    }
}

/// Align upwards. Returns the smallest x with alignment `align` so that
/// x >= addr. The alignment must be a power of two, and the result must fit
/// the address space.
pub fn align_up(addr: usize, align: usize) -> (aligned: usize)
    requires
        is_power_of_two(align),
        addr + align - 1 <= usize::MAX,
    ensures
        is_aligned_up(addr, align, aligned),
{
    align_down(addr + (align - 1), align)
}

} // verus!
