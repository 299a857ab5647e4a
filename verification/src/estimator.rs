use vstd::prelude::*;

verus! {

/// Number of entropy bits one mixing step yields for frames of the given
/// resolution: one bit per pixel plus the single synthetic marker bit that
/// every bitstream carries.
pub open spec fn frame_bit_yield(width: int, height: int) -> int {
    width * height + 1
}

/// Frame-size estimator: the per-step entropy yield of a device whose frames
/// are `width` by `height` pixels.
pub fn frame_bits(width: u32, height: u32) -> (bits: u64)
    ensures
        bits as int == frame_bit_yield(width as int, height as int),
{
    proof {
        vstd::arithmetic::mul::lemma_mul_upper_bound(
            width as int,
            0xffff_ffff,
            height as int,
            0xffff_ffff,
        );
    }
    (width as u64) * (height as u64) + 1
}

} // verus!
