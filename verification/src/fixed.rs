//! Signed binary fixed-point scalars.
//!
//! Every field quantity in the solver (velocity components, dye
//! concentrations, pressure, divergence) is a signed 64-bit fixed-point
//! number with 32 fractional bits: the `i64` value `v` stands for the real
//! number `v / 2^32`.  All arithmetic is exact integer arithmetic on wide
//! (`i128`) intermediates, rounded with floor division and saturated to the
//! `i64` range, so every operation is a total mathematical function of its
//! operands: the solver is bit-for-bit deterministic by construction.

use vstd::prelude::*;

verus! {

/// The fixed-point representation of 1.0 (one whole unit): 2^32.
pub const ONE: i64 = 4294967296;

/// The fixed-point representation of 0.5.
pub const HALF: i64 = 2147483648;

/// The time step `dt` advanced by each call to `step` (about 0.1).
pub const DT: i64 = 429496730;

/// Kinematic viscosity of the fluid (about 0.001).
pub const VISCOSITY: i64 = 4294967;

/// Diffusion rate of the dye (about 0.0001).
pub const DYE_DIFFUSION: i64 = 429497;

/// Largest admitted cell count of a grid, `2^24`.  This cap is what lets
/// every intermediate product and whole-grid sum fit in an `i128`.
pub const MAX_CELLS: usize = 16777216;

/// Saturate an unbounded integer to the `i64` range.
pub open spec fn clip(x: int) -> int {
    if x > i64::MAX {
        i64::MAX as int
    } else if x < i64::MIN {
        i64::MIN as int
    } else {
        x
    }
}

/// `clip`, packaged as an `i64` for use inside sequence constructions.
pub open spec fn clip64(x: int) -> i64 {
    clip(x) as i64
}

/// Floor division of `n` by a positive divisor `d`.  In specifications the
/// operator `/` on `int` is Euclidean division, which for a positive divisor
/// is exactly floor division; this executable version matches it.
pub(crate) fn floor_div(n: i128, d: i128) -> (r: i128)
    requires
        0 < d < 0x1000000000000000000000000,
        -0x7e000000000000000000000000000000 < n < 0x7e000000000000000000000000000000,
    ensures
        r == n as int / d as int,
        -0x7f000000000000000000000000000000 < r < 0x7e000000000000000000000000000000,
{
    proof {
        vstd::arithmetic::div_mod::lemma_fundamental_div_mod(n as int, d as int);
        vstd::arithmetic::div_mod::lemma_mod_division_less_than_divisor(n as int, d as int);
        let q = n as int / d as int;
        if q > 0 {
            assert(q <= d * q) by (nonlinear_arith)
                requires
                    d >= 1,
                    q > 0,
            ;
        }
        if q < 0 {
            assert(d * q <= q) by (nonlinear_arith)
                requires
                    d >= 1,
                    q < 0,
            ;
        }
    }
    if n >= 0 {
        n / d
    } else {
        let m = -n;
        let q = (m + (d - 1)) / d;
        assert(-q == n as int / d as int) by {
            let aa = n as int;
            let bb = d as int;
            let qq = (-aa + bb - 1) / bb;
            assert((-qq) * bb <= aa <= (-qq) * bb + (bb - 1)) by (nonlinear_arith)
                requires
                    qq == (-aa + bb - 1) / bb,
                    bb > 0,
            ;
            assert(aa / bb == -qq) by (nonlinear_arith)
                requires
                    (-qq) * bb <= aa <= (-qq) * bb + (bb - 1),
                    bb > 0,
            ;
        }
        -q
    }
}

/// Saturate a wide intermediate back to an `i64` scalar.
pub(crate) fn clip_wide(x: i128) -> (r: i64)
    ensures
        r as int == clip(x as int),
{
    if x > i64::MAX as i128 {
        i64::MAX
    } else if x < i64::MIN as i128 {
        i64::MIN
    } else {
        x as i64
    }
}

/// Saturating addition of two scalars.
pub(crate) fn sat_add(a: i64, b: i64) -> (r: i64)
    ensures
        r as int == clip(a + b),
{
    clip_wide(a as i128 + b as i128)
}

} // verus!
