//! Bit fields of instruction words, in the notation of the instruction-set
//! manual: `w[hi:lo]` is `bits(w, hi, lo)`.

use vstd::prelude::*;

verus! {

/// The field `w[hi:lo]`, moved down to bit 0.
pub open spec fn bits(w: u32, hi: u32, lo: u32) -> u32
    recommends
        lo <= hi < 32,
        hi - lo < 31,
{
    (w >> lo) & (((1u32 << ((hi - lo + 1) as u32)) - 1) as u32)
}

/// The bit `w[at]`.
pub open spec fn bit(w: u32, at: u32) -> u32
    recommends
        at < 32,
{
    (w >> at) & 1
}

/// The low `width` bits of `v` read as a two's-complement number: the sign bit
/// `v[width - 1]` is moved to the top of a 32-bit word and brought back down by
/// an arithmetic shift.
pub open spec fn sign_extend(v: u32, width: u32) -> i32
    recommends
        0 < width <= 32,
{
    ((v << ((32 - width) as u32)) as i32) >> ((32 - width) as i32)
}

} // verus!
