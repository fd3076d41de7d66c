//! The alignment test the module's allocator applies to memory MDB hands out.

use vstd::prelude::*;
use vstd::arithmetic::power2::pow2;
use vstd::bits::{low_bits_mask, lemma_usize_low_bits_mask_is_mod};

verus! {

/// `align` is a power of two that a `usize` can hold, as the alignment of
/// every allocation layout is.
pub open spec fn is_power_of_two(align: usize) -> bool {
    exists|n: nat| n < usize::BITS && align == pow2(n)
}

/// `addr` is not a multiple of the alignment `align`: the bits of `addr`
/// below `align` are not all clear.  For a power-of-two alignment that is
/// exactly `addr % align != 0`.
pub fn is_misaligned(addr: usize, align: usize) -> (r: bool)
    requires
        align > 0,
    ensures
        r == (addr & (align - 1) as usize != 0),
        is_power_of_two(align) ==> (r <==> addr % align != 0),
{
    let r = addr & (align - 1) != 0;
    proof {
        if is_power_of_two(align) {
            let n = choose|n: nat| n < usize::BITS && align == pow2(n);
            lemma_usize_low_bits_mask_is_mod(addr, n);
            assert(low_bits_mask(n) == pow2(n) - 1);
        }
    }
    r
}

} // verus!
