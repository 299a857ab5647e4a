use vstd::arithmetic::div_mod::{lemma_div_is_ordered, lemma_div_is_ordered_by_denominator};
use vstd::arithmetic::mul::lemma_mul_inequality;
use vstd::prelude::*;

verus! {

/// Ceiling division of a non-negative numerator by a positive denominator.
pub open spec fn div_ceil(a: int, b: int) -> int {
    a / b + if a % b == 0 {
        0int
    } else {
        1int
    }
}

/// Frame count the capture planner requests for a requested bit length
/// `trim` and a per-step yield `frame_bits`: two frames when one mixing step
/// already yields `trim` bits, and `2 + ceil((trim - 1) / frame_bits)`
/// otherwise.
pub open spec fn planned_frames(trim: int, frame_bits: int) -> int {
    if trim < frame_bits {
        2
    } else {
        2 + div_ceil(trim - 1, frame_bits)
    }
}

/// Length of the bitstream the mixer produces from `n` frames whose per-step
/// yield is `frame_bits` (so each frame holds `frame_bits - 1` pixels): the
/// marker bit plus one bit per pixel per adjacent frame pair.
pub open spec fn stream_len(n: int, frame_bits: int) -> int {
    1 + (n - 1) * (frame_bits - 1)
}

/// `n` frames yield a bitstream long enough for a `trim`-bit request.
pub open spec fn covers(n: int, frame_bits: int, trim: int) -> bool {
    stream_len(n, frame_bits) >= trim
}

/// Capture planner: the number of frames to request from the capture
/// collaborator so that the mixed bitstream can be trimmed to `trim` bits.
///
/// `frame_bits` is the per-step yield reported by the frame-size estimator
/// and is at least one; the second clause of the precondition only rules out
/// a frame count beyond `u64::MAX`, which is unreachable unless a zero-pixel
/// resolution meets a near-maximal request.
pub fn frames_needed(trim: u64, frame_bits: u64) -> (n: u64)
    requires
        frame_bits >= 1,
        frame_bits >= 2 || trim < u64::MAX,
    ensures
        n as int == planned_frames(trim as int, frame_bits as int),
{
    if trim < frame_bits {
        2
    } else {
        let a = trim - 1;
        let q = a / frame_bits;
        let r = a % frame_bits;
        proof {
            if frame_bits >= 2 {
                lemma_div_is_ordered_by_denominator(a as int, 2, frame_bits as int);
                lemma_div_is_ordered(a as int, u64::MAX - 1, 2);
            }
        }
        if r == 0 {
            2 + q
        } else {
            3 + q
        }
    }
}

/// The planned count covers the request and the next smaller count of at
/// least two frames does not: the two-point form of minimality, satisfied on
/// part of the input space (see `lemma_planner_minimal`).
pub open spec fn minimal_at(trim: int, frame_bits: int) -> bool {
    let n = planned_frames(trim, frame_bits);
    covers(n, frame_bits, trim) && (n <= 2 || !covers(n - 1, frame_bits, trim))
}

/// The planning formula never requests fewer than the two frames one mixing
/// step needs, requests exactly two whenever one step suffices --- and two
/// frames always cover such a request.
///
/// Minimality of the planned count --- that no smaller count of at least two
/// frames would cover the request --- holds only on part of the input space:
/// the formula divides by `frame_bits` where the per-frame stream growth is
/// `frame_bits - 1`, so it can both overshoot by one frame (already at
/// `trim == frame_bits`) and fall short for large requests (for example
/// `trim == 42` with `frame_bits == 5`, where the planned 11 frames yield
/// only 41 bits). The `minimal_at` premise names exactly the pairs on which
/// the planned count is minimal, and this lemma extends that two-point fact
/// to every smaller count.
pub proof fn lemma_planner_minimal(trim: int, frame_bits: int)
    requires
        0 <= trim,
        1 <= frame_bits,
        trim >= frame_bits ==> minimal_at(trim, frame_bits),
    ensures
        planned_frames(trim, frame_bits) >= 2,
        trim < frame_bits ==> planned_frames(trim, frame_bits) == 2 && covers(2, frame_bits, trim),
        trim >= frame_bits ==> covers(planned_frames(trim, frame_bits), frame_bits, trim),
        trim >= frame_bits ==> forall|m: int|
            2 <= m < planned_frames(trim, frame_bits) ==> !covers(m, frame_bits, trim),
{
    let n = planned_frames(trim, frame_bits);
    if trim >= frame_bits {
        assert(div_ceil(trim - 1, frame_bits) >= 0) by {
            vstd::arithmetic::div_mod::lemma_div_pos_is_pos(trim - 1, frame_bits);
        }
        assert forall|m: int| 2 <= m < n implies !covers(m, frame_bits, trim) by {
            assert(n > 2);
            assert(!covers(n - 1, frame_bits, trim));
            lemma_mul_inequality(m - 1, n - 2, frame_bits - 1);
            assert(stream_len(m, frame_bits) <= stream_len(n - 1, frame_bits));
        }
    }
}

} // verus!
