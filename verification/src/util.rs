//! Small helpers shared by the memory and interrupt code.

use vstd::prelude::*;

verus! {

/// Whether `n` has exactly one bit set.
pub open spec fn is_power_of_two(n: u64) -> bool {
    n != 0 && n & ((n - 1) as u64) == 0
}

/// Whether `addr` is a multiple of the power of two `align`.
pub open spec fn is_aligned(addr: u64, align: u64) -> bool {
    addr & ((align - 1) as u64) == 0
}

/// `addr` rounded up to a multiple of the power of two `align`.
pub open spec fn spec_align_up(addr: u64, align: u64) -> u64 {
    ((addr + align - 1) as u64) & !((align - 1) as u64)
}

/// A power of two is one of the 64 that fit 64 bits, and what has none of
/// the bits below it set is a multiple of it.
pub proof fn lemma_aligned_is_multiple(x: u64, n: u64)
    requires
        is_power_of_two(n),
        is_aligned(x, n),
    ensures
        x % n == 0,
{
    let m: u64 = (n - 1) as u64;
    assert(n == 0x1 || n == 0x2 || n == 0x4 || n == 0x8
        || n == 0x10 || n == 0x20 || n == 0x40 || n == 0x80
        || n == 0x100 || n == 0x200 || n == 0x400 || n == 0x800
        || n == 0x1000 || n == 0x2000 || n == 0x4000 || n == 0x8000
        || n == 0x10000 || n == 0x20000 || n == 0x40000 || n == 0x80000
        || n == 0x100000 || n == 0x200000 || n == 0x400000 || n == 0x800000
        || n == 0x1000000 || n == 0x2000000 || n == 0x4000000 || n == 0x8000000
        || n == 0x10000000 || n == 0x20000000 || n == 0x40000000 || n == 0x80000000
        || n == 0x100000000 || n == 0x200000000 || n == 0x400000000 || n == 0x800000000
        || n == 0x1000000000 || n == 0x2000000000 || n == 0x4000000000 || n == 0x8000000000
        || n == 0x10000000000 || n == 0x20000000000 || n == 0x40000000000 || n == 0x80000000000
        || n == 0x100000000000 || n == 0x200000000000 || n == 0x400000000000 || n == 0x800000000000
        || n == 0x1000000000000 || n == 0x2000000000000 || n == 0x4000000000000 || n == 0x8000000000000
        || n == 0x10000000000000 || n == 0x20000000000000 || n == 0x40000000000000 || n == 0x80000000000000
        || n == 0x100000000000000 || n == 0x200000000000000 || n == 0x400000000000000 || n == 0x800000000000000
        || n == 0x1000000000000000 || n == 0x2000000000000000 || n == 0x4000000000000000 || n == 0x8000000000000000) by (bit_vector)
        requires
            n != 0,
            n & m == 0,
            m == (n - 1) as u64,
    ;
    assert((n == 0x1 ==> x % 0x1 == 0)
        && (n == 0x2 ==> x % 0x2 == 0)
        && (n == 0x4 ==> x % 0x4 == 0)
        && (n == 0x8 ==> x % 0x8 == 0)
        && (n == 0x10 ==> x % 0x10 == 0)
        && (n == 0x20 ==> x % 0x20 == 0)
        && (n == 0x40 ==> x % 0x40 == 0)
        && (n == 0x80 ==> x % 0x80 == 0)
        && (n == 0x100 ==> x % 0x100 == 0)
        && (n == 0x200 ==> x % 0x200 == 0)
        && (n == 0x400 ==> x % 0x400 == 0)
        && (n == 0x800 ==> x % 0x800 == 0)
        && (n == 0x1000 ==> x % 0x1000 == 0)
        && (n == 0x2000 ==> x % 0x2000 == 0)
        && (n == 0x4000 ==> x % 0x4000 == 0)
        && (n == 0x8000 ==> x % 0x8000 == 0)
        && (n == 0x10000 ==> x % 0x10000 == 0)
        && (n == 0x20000 ==> x % 0x20000 == 0)
        && (n == 0x40000 ==> x % 0x40000 == 0)
        && (n == 0x80000 ==> x % 0x80000 == 0)
        && (n == 0x100000 ==> x % 0x100000 == 0)
        && (n == 0x200000 ==> x % 0x200000 == 0)
        && (n == 0x400000 ==> x % 0x400000 == 0)
        && (n == 0x800000 ==> x % 0x800000 == 0)
        && (n == 0x1000000 ==> x % 0x1000000 == 0)
        && (n == 0x2000000 ==> x % 0x2000000 == 0)
        && (n == 0x4000000 ==> x % 0x4000000 == 0)
        && (n == 0x8000000 ==> x % 0x8000000 == 0)
        && (n == 0x10000000 ==> x % 0x10000000 == 0)
        && (n == 0x20000000 ==> x % 0x20000000 == 0)
        && (n == 0x40000000 ==> x % 0x40000000 == 0)
        && (n == 0x80000000 ==> x % 0x80000000 == 0)
        && (n == 0x100000000 ==> x % 0x100000000 == 0)
        && (n == 0x200000000 ==> x % 0x200000000 == 0)
        && (n == 0x400000000 ==> x % 0x400000000 == 0)
        && (n == 0x800000000 ==> x % 0x800000000 == 0)
        && (n == 0x1000000000 ==> x % 0x1000000000 == 0)
        && (n == 0x2000000000 ==> x % 0x2000000000 == 0)
        && (n == 0x4000000000 ==> x % 0x4000000000 == 0)
        && (n == 0x8000000000 ==> x % 0x8000000000 == 0)
        && (n == 0x10000000000 ==> x % 0x10000000000 == 0)
        && (n == 0x20000000000 ==> x % 0x20000000000 == 0)
        && (n == 0x40000000000 ==> x % 0x40000000000 == 0)
        && (n == 0x80000000000 ==> x % 0x80000000000 == 0)
        && (n == 0x100000000000 ==> x % 0x100000000000 == 0)
        && (n == 0x200000000000 ==> x % 0x200000000000 == 0)
        && (n == 0x400000000000 ==> x % 0x400000000000 == 0)
        && (n == 0x800000000000 ==> x % 0x800000000000 == 0)
        && (n == 0x1000000000000 ==> x % 0x1000000000000 == 0)
        && (n == 0x2000000000000 ==> x % 0x2000000000000 == 0)
        && (n == 0x4000000000000 ==> x % 0x4000000000000 == 0)
        && (n == 0x8000000000000 ==> x % 0x8000000000000 == 0)
        && (n == 0x10000000000000 ==> x % 0x10000000000000 == 0)
        && (n == 0x20000000000000 ==> x % 0x20000000000000 == 0)
        && (n == 0x40000000000000 ==> x % 0x40000000000000 == 0)
        && (n == 0x80000000000000 ==> x % 0x80000000000000 == 0)
        && (n == 0x100000000000000 ==> x % 0x100000000000000 == 0)
        && (n == 0x200000000000000 ==> x % 0x200000000000000 == 0)
        && (n == 0x400000000000000 ==> x % 0x400000000000000 == 0)
        && (n == 0x800000000000000 ==> x % 0x800000000000000 == 0)
        && (n == 0x1000000000000000 ==> x % 0x1000000000000000 == 0)
        && (n == 0x2000000000000000 ==> x % 0x2000000000000000 == 0)
        && (n == 0x4000000000000000 ==> x % 0x4000000000000000 == 0)
        && (n == 0x8000000000000000 ==> x % 0x8000000000000000 == 0)) by (bit_vector)
        requires
            x & m == 0,
            m == (n - 1) as u64,
            n != 0,
    ;
}

/// Rounds `addr` up to the next multiple of `align`, a power of two: the
/// result is the one aligned address in `addr .. addr + align`.
pub fn align_up(addr: u64, align: u64) -> (res: u64)
    requires
        is_power_of_two(align),
        addr + align - 1 <= u64::MAX,
    ensures
        res == spec_align_up(addr, align),
        is_aligned(res, align),
        res % align == 0,
        addr <= res < addr + align,
{
    let mask: u64 = align - 1;
    let sum: u64 = addr + mask;
    let res: u64 = sum & !mask;
    assert(res & mask == 0 && res <= sum && sum - res <= mask) by (bit_vector)
        requires
            res == sum & !mask,
    ;
    proof {
        lemma_aligned_is_multiple(res, align);
    }
    res
}

} // verus!
