//! Executable per-cell passes over the flat buffers.
//!
//! Each function here walks a buffer cell by cell and is verified to
//! produce exactly the sequence that the corresponding function of
//! `crate::model` describes.  The solver methods of `FluidGrid` are thin
//! compositions of these passes.

use vstd::prelude::*;
use vstd::pervasive::VecAdditionalExecFns;
use vstd::arithmetic::div_mod::{
    lemma_fundamental_div_mod, lemma_fundamental_div_mod_converse_div,
    lemma_fundamental_div_mod_converse_mod, lemma_mod_division_less_than_divisor,
};
use vstd::arithmetic::mul::lemma_mul_inequality;
use crate::fixed::{MAX_CELLS, ONE, HALF, DT, clip, clip64, floor_div, clip_wide};
use crate::model::{
    interior, zero_border, rows_copy, cols_copy, zeros, sweep_diffuse, sweep_pressure,
    divergence_field, subtract_gradient_x, subtract_gradient_y, hcoef, advected, seq_sum,
    rescale, backtrace, bilin_term, nonneg,
};

verus! {

/// Division and remainder of the flat index `y * w + x` recover `y` and `x`.
pub(crate) proof fn lemma_grid_index(w: int, x: int, y: int)
    requires
        0 <= x < w,
        0 <= y,
    ensures
        (y * w + x) / w == y,
        (y * w + x) % w == x,
{
    lemma_fundamental_div_mod_converse_div(y * w + x, w, y, x);
    lemma_fundamental_div_mod_converse_mod(y * w + x, w, y, x);
}

/// Any flat index of a `w x h` grid decomposes into a column and a row.
pub(crate) proof fn lemma_cell_decomp(w: int, h: int, i: int)
    requires
        1 <= w,
        1 <= h,
        0 <= i < w * h,
    ensures
        i == w * (i / w) + i % w,
        0 <= i % w < w,
        0 <= i / w < h,
{
    lemma_fundamental_div_mod(i, w);
    lemma_mod_division_less_than_divisor(i, w);
    if i / w < 0 {
        assert(false);
    }
    if i / w >= h {
        lemma_mul_inequality(h, i / w, w);
        assert(h * w == w * h && (i / w) * w == w * (i / w)) by (nonlinear_arith);
        assert(false);
    }
}

/// An interior cell has all four lattice neighbours inside the buffer, and
/// their rows and columns are the expected ones.
pub(crate) proof fn lemma_interior_neighbors(w: int, h: int, i: int)
    requires
        3 <= w,
        3 <= h,
        interior(w, h, i),
    ensures
        w + 1 <= i,
        i + w < w * h,
        (i + 1) / w == i / w && (i + 1) % w == i % w + 1,
        (i - 1) / w == i / w && (i - 1) % w == i % w - 1,
        (i + w) / w == i / w + 1 && (i + w) % w == i % w,
        (i - w) / w == i / w - 1 && (i - w) % w == i % w,
{
    let x = i % w;
    let y = i / w;
    lemma_cell_decomp(w, h, i);
    assert(i == y * w + x) by {
        lemma_mul_inequality(1, 1, 1);
    }
    assert(y * w >= 1 * w) by {
        lemma_mul_inequality(1, y, w);
    }
    assert(y * w <= (h - 2) * w) by {
        lemma_mul_inequality(y, h - 2, w);
    }
    assert((h - 2) * w + w == (h - 1) * w && (h - 1) * w + w == h * w && h * w == w * h) by (nonlinear_arith);
    assert((y + 1) * w == y * w + w && (y - 1) * w == y * w - w) by (nonlinear_arith);
    lemma_grid_index(w, x + 1, y);
    lemma_grid_index(w, x - 1, y);
    lemma_grid_index(w, x, y + 1);
    lemma_grid_index(w, x, y - 1);
}

/// A fresh all-zero buffer of `n` cells.
pub(crate) fn buf_zeros(n: usize) -> (v: Vec<i64>)
    ensures
        v@ == zeros(n as nat),
{
    let mut v: Vec<i64> = Vec::new();
    let mut i: usize = 0;
    while i < n
        invariant
            i <= n,
            v@.len() == i,
            forall|j: int| 0 <= j < i ==> v@[j] == 0i64,
        decreases n - i,
    {
        v.push(0);
        i += 1;
    }
    proof {
        assert(v@ =~= zeros(n as nat));
    }
    v
}

/// An exact copy of a buffer.
pub(crate) fn buf_copy(src: &Vec<i64>) -> (v: Vec<i64>)
    ensures
        v@ == src@,
{
    let n = src.len();
    let mut v: Vec<i64> = Vec::new();
    let mut i: usize = 0;
    while i < n
        invariant
            i <= n,
            n == src@.len(),
            v@.len() == i,
            forall|j: int| 0 <= j < i ==> v@[j] == src@[j],
        decreases n - i,
    {
        v.push(src[i]);
        i += 1;
    }
    proof {
        assert(v@ =~= src@);
    }
    v
}

/// Force every border cell of `f` to zero (no-slip walls).
pub(crate) fn pass_zero_border(w: usize, h: usize, f: &mut Vec<i64>)
    requires
        3 <= w,
        3 <= h,
        w * h <= MAX_CELLS,
        old(f)@.len() == w * h,
    ensures
        final(f)@ == zero_border(w as int, h as int, old(f)@),
{
    let ghost target = zero_border(w as int, h as int, old(f)@);
    let n = w * h;
    let mut i: usize = 0;
    while i < n
        invariant
            i <= n,
            n == w * h,
            3 <= w,
            3 <= h,
            f@.len() == n,
            target == zero_border(w as int, h as int, old(f)@),
            forall|j: int| 0 <= j < i ==> f@[j] == target[j],
            forall|j: int| i <= j < n ==> f@[j] == old(f)@[j],
        decreases n - i,
    {
        let x = i % w;
        let y = i / w;
        proof {
            lemma_cell_decomp(w as int, h as int, i as int);
        }
        if 1 <= x && x < w - 1 && 1 <= y && y < h - 1 {
            proof {
                assert(interior(w as int, h as int, i as int));
            }
        } else {
            f.set(i, 0);
        }
        i += 1;
    }
    proof {
        assert(f@ =~= target);
    }
}

/// Copy row 1 onto the top row and row `h-2` onto the bottom row.
pub(crate) fn pass_rows_copy(w: usize, h: usize, f: &mut Vec<i64>)
    requires
        3 <= w,
        3 <= h,
        w * h <= MAX_CELLS,
        old(f)@.len() == w * h,
    ensures
        final(f)@ == rows_copy(w as int, h as int, old(f)@),
{
    let ghost target = rows_copy(w as int, h as int, old(f)@);
    let n = w * h;
    let mut i: usize = 0;
    while i < n
        invariant
            i <= n,
            n == w * h,
            3 <= w,
            3 <= h,
            f@.len() == n,
            target == rows_copy(w as int, h as int, old(f)@),
            forall|j: int| 0 <= j < i ==> f@[j] == target[j],
            forall|j: int| 0 <= j < n && 1 <= j / (w as int) < h - 1 ==> f@[j] == old(f)@[j],
        decreases n - i,
    {
        let y = i / w;
        proof {
            lemma_cell_decomp(w as int, h as int, i as int);
            lemma_grid_index(w as int, i as int % (w as int), 1);
            lemma_grid_index(w as int, i as int % (w as int), h - 2);
        }
        if y == 0 {
            proof {
                assert((i + w) as int == 1 * (w as int) + i as int % (w as int)) by (nonlinear_arith)
                    requires
                        i as int == (w as int) * (i as int / (w as int)) + i as int % (w as int),
                        i as int / (w as int) == 0,
                ;
                assert((i + w) as int / (w as int) == 1);
                assert(i as int + w < w * h) by (nonlinear_arith)
                    requires
                        i as int == (w as int) * (i as int / (w as int)) + i as int % (w as int),
                        i as int / (w as int) == 0,
                        0 <= i as int % (w as int) < w,
                        3 <= h,
                        3 <= w,
                ;
            }
            let v = f[i + w];
            f.set(i, v);
        } else if y == h - 1 {
            proof {
                assert((i - w) as int == (h - 2) * (w as int) + i as int % (w as int)) by (nonlinear_arith)
                    requires
                        i as int == (w as int) * (i as int / (w as int)) + i as int % (w as int),
                        i as int / (w as int) == h - 1,
                ;
                assert((i - w) as int / (w as int) == h - 2);
                assert(w <= i as int) by (nonlinear_arith)
                    requires
                        i as int == (w as int) * (i as int / (w as int)) + i as int % (w as int),
                        i as int / (w as int) == h - 1,
                        0 <= i as int % (w as int),
                        3 <= h,
                        3 <= w,
                ;
            }
            let v = f[i - w];
            f.set(i, v);
        }
        i += 1;
    }
    proof {
        assert(f@ =~= target);
    }
}

/// Copy column 1 onto the left column and column `w-2` onto the right one.
pub(crate) fn pass_cols_copy(w: usize, h: usize, f: &mut Vec<i64>)
    requires
        3 <= w,
        3 <= h,
        w * h <= MAX_CELLS,
        old(f)@.len() == w * h,
    ensures
        final(f)@ == cols_copy(w as int, h as int, old(f)@),
{
    let ghost target = cols_copy(w as int, h as int, old(f)@);
    let n = w * h;
    let mut i: usize = 0;
    while i < n
        invariant
            i <= n,
            n == w * h,
            3 <= w,
            3 <= h,
            f@.len() == n,
            target == cols_copy(w as int, h as int, old(f)@),
            forall|j: int| 0 <= j < i ==> f@[j] == target[j],
            forall|j: int| 0 <= j < n && 1 <= j % (w as int) < w - 1 ==> f@[j] == old(f)@[j],
        decreases n - i,
    {
        let x = i % w;
        proof {
            lemma_cell_decomp(w as int, h as int, i as int);
            lemma_grid_index(w as int, 1, i as int / (w as int));
            lemma_grid_index(w as int, w - 2, i as int / (w as int));
        }
        if x == 0 {
            proof {
                assert((i + 1) as int == (i as int / (w as int)) * (w as int) + 1) by (nonlinear_arith)
                    requires
                        i as int == (w as int) * (i as int / (w as int)) + i as int % (w as int),
                        i as int % (w as int) == 0,
                ;
                assert((i + 1) as int % (w as int) == 1);
                assert(i as int + 1 < w * h) by (nonlinear_arith)
                    requires
                        i as int == (w as int) * (i as int / (w as int)) + i as int % (w as int),
                        i as int % (w as int) == 0,
                        0 <= i as int / (w as int) < h,
                        i < w * h,
                        3 <= h,
                        3 <= w,
                ;
            }
            let v = f[i + 1];
            f.set(i, v);
        } else if x == w - 1 {
            proof {
                assert((i - 1) as int == (i as int / (w as int)) * (w as int) + (w - 2)) by (nonlinear_arith)
                    requires
                        i as int == (w as int) * (i as int / (w as int)) + i as int % (w as int),
                        i as int % (w as int) == w - 1,
                ;
                assert((i - 1) as int % (w as int) == w - 2);
                assert(1 <= i as int) by (nonlinear_arith)
                    requires
                        i as int == (w as int) * (i as int / (w as int)) + i as int % (w as int),
                        i as int % (w as int) == w - 1,
                        0 <= i as int / (w as int),
                        3 <= w,
                ;
            }
            let v = f[i - 1];
            f.set(i, v);
        }
        i += 1;
    }
    proof {
        assert(f@ =~= target);
    }
}

/// The grid-size-dependent diffusion coefficient `dt * rate * (w*h)`, in
/// fixed point.  With the admitted cell counts it always lies well below
/// `2^50`, which is what keeps the relaxation arithmetic inside `i128`.
pub(crate) fn calc_coef(rate: i64, wh: usize) -> (a: i64)
    requires
        0 < rate < 0x800000,
        0 < wh <= MAX_CELLS,
    ensures
        a as int == (DT * rate * wh) / (ONE as int),
        0 <= a < 0x4000000000000,
{
    proof {
        assert(0 < (DT as int) * (rate as int) * (wh as int) < 0x4000000000000 * 0x100000000) by (nonlinear_arith)
            requires
                0 < rate < 0x800000,
                0 < wh <= MAX_CELLS,
                DT == 429496730,
        ;
    }
    let numer: i128 = (DT as i128) * (rate as i128) * (wh as i128);
    let a: i128 = numer / (ONE as i128);
    proof {
        vstd::arithmetic::div_mod::lemma_multiply_divide_lt(numer as int, ONE as int, 0x4000000000000);
        vstd::arithmetic::div_mod::lemma_div_pos_is_pos(numer as int, ONE as int);
    }
    a as i64
}

/// One cell of the implicit-diffusion Jacobi sweep, exactly as
/// `model::diffuse_cell` describes it.
pub(crate) fn cell_diffuse(src: i64, l: i64, r: i64, u: i64, d: i64, a: i64) -> (res: i64)
    requires
        0 <= a < 0x4000000000000,
    ensures
        res as int == crate::model::diffuse_cell(src as int, l as int, r as int, u as int, d as int, a as int),
{
    let nsum: i128 = (l as i128) + (r as i128) + (u as i128) + (d as i128);
    proof {
        assert(-0x1000000000000000000000000000000 < (a as i128) * nsum < 0x1000000000000000000000000000000)
            by (nonlinear_arith)
            requires
                0 <= a < 0x4000000000000,
                -0x40000000000000000 < nsum < 0x40000000000000000,
        ;
        assert(-0x100000000000000000000000000 < (src as int) * (ONE as int)
            < 0x100000000000000000000000000) by (nonlinear_arith)
            requires
                -0x8000000000000000 <= src < 0x8000000000000000,
                ONE == 0x100000000,
        ;
    }
    let numer: i128 = (src as i128) * (ONE as i128) + (a as i128) * nsum;
    let denom: i128 = (ONE as i128) + 4 * (a as i128);
    clip_wide(floor_div(numer, denom))
}

/// One Jacobi relaxation sweep for diffusion: every interior cell of `cur`
/// is recomputed from the previous iterate and the source field `src`.
pub(crate) fn pass_sweep_diffuse(w: usize, h: usize, src: &Vec<i64>, cur: &mut Vec<i64>, a: i64)
    requires
        3 <= w,
        3 <= h,
        w * h <= MAX_CELLS,
        src@.len() == w * h,
        old(cur)@.len() == w * h,
        0 <= a < 0x4000000000000,
    ensures
        final(cur)@ == sweep_diffuse(w as int, h as int, src@, old(cur)@, a as int),
{
    let ghost target = sweep_diffuse(w as int, h as int, src@, old(cur)@, a as int);
    let last = buf_copy(cur);
    let n = w * h;
    let mut i: usize = 0;
    while i < n
        invariant
            i <= n,
            n == w * h,
            3 <= w,
            3 <= h,
            0 <= a < 0x4000000000000,
            src@.len() == n,
            last@ == old(cur)@,
            last@.len() == n,
            cur@.len() == n,
            target == sweep_diffuse(w as int, h as int, src@, old(cur)@, a as int),
            forall|j: int| 0 <= j < i ==> cur@[j] == target[j],
            forall|j: int| i <= j < n ==> cur@[j] == old(cur)@[j],
        decreases n - i,
    {
        let x = i % w;
        let y = i / w;
        proof {
            lemma_cell_decomp(w as int, h as int, i as int);
        }
        if 1 <= x && x < w - 1 && 1 <= y && y < h - 1 {
            proof {
                assert(interior(w as int, h as int, i as int));
                lemma_interior_neighbors(w as int, h as int, i as int);
            }
            let v = cell_diffuse(src[i], last[i - 1], last[i + 1], last[i - w], last[i + w], a);
            cur.set(i, v);
        }
        i += 1;
    }
    proof {
        assert(cur@ =~= target);
    }
}

/// One cell of the pressure Poisson relaxation.
pub(crate) fn cell_pressure(dv: i64, l: i64, r: i64, u: i64, d: i64) -> (res: i64)
    ensures
        res as int == clip64(clip((dv + l + r + u + d) / 4)) as int,
{
    let numer: i128 = (dv as i128) + (l as i128) + (r as i128) + (u as i128) + (d as i128);
    clip_wide(floor_div(numer, 4))
}

/// One Jacobi relaxation sweep of the pressure solve.
pub(crate) fn pass_sweep_pressure(w: usize, h: usize, dv: &Vec<i64>, p: &mut Vec<i64>)
    requires
        3 <= w,
        3 <= h,
        w * h <= MAX_CELLS,
        dv@.len() == w * h,
        old(p)@.len() == w * h,
    ensures
        final(p)@ == sweep_pressure(w as int, h as int, dv@, old(p)@),
{
    let ghost target = sweep_pressure(w as int, h as int, dv@, old(p)@);
    let last = buf_copy(p);
    let n = w * h;
    let mut i: usize = 0;
    while i < n
        invariant
            i <= n,
            n == w * h,
            3 <= w,
            3 <= h,
            dv@.len() == n,
            last@ == old(p)@,
            last@.len() == n,
            p@.len() == n,
            target == sweep_pressure(w as int, h as int, dv@, old(p)@),
            forall|j: int| 0 <= j < i ==> p@[j] == target[j],
            forall|j: int| i <= j < n ==> p@[j] == old(p)@[j],
        decreases n - i,
    {
        let x = i % w;
        let y = i / w;
        proof {
            lemma_cell_decomp(w as int, h as int, i as int);
        }
        if 1 <= x && x < w - 1 && 1 <= y && y < h - 1 {
            proof {
                assert(interior(w as int, h as int, i as int));
                lemma_interior_neighbors(w as int, h as int, i as int);
            }
            let v = cell_pressure(dv[i], last[i - 1], last[i + 1], last[i - w], last[i + w]);
            p.set(i, v);
        }
        i += 1;
    }
    proof {
        assert(p@ =~= target);
    }
}

/// The mesh spacing `1/width` in fixed point.
pub(crate) fn calc_hcoef(w: usize) -> (r: i64)
    requires
        3 <= w,
        w <= MAX_CELLS,
    ensures
        r as int == hcoef(w as int),
        0 < r <= ONE,
{
    proof {
        vstd::arithmetic::div_mod::lemma_div_non_zero(ONE as int, w as int);
        vstd::arithmetic::div_mod::lemma_div_nonincreasing(ONE as int, w as int);
    }
    ONE / (w as i64)
}

/// Measure the divergence of `(vx, vy)` over the interior of the grid.
pub(crate) fn pass_divergence(w: usize, h: usize, vx: &Vec<i64>, vy: &Vec<i64>, dv: &mut Vec<i64>)
    requires
        3 <= w,
        3 <= h,
        w * h <= MAX_CELLS,
        vx@.len() == w * h,
        vy@.len() == w * h,
        old(dv)@.len() == w * h,
    ensures
        final(dv)@ == divergence_field(w as int, h as int, vx@, vy@, old(dv)@),
{
    let ghost target = divergence_field(w as int, h as int, vx@, vy@, old(dv)@);
    proof {
        assert(w as int <= w * h) by (nonlinear_arith)
            requires
                1 <= h,
                0 <= w,
        ;
    }
    let hw = calc_hcoef(w);
    let n = w * h;
    let mut i: usize = 0;
    while i < n
        invariant
            i <= n,
            n == w * h,
            3 <= w,
            3 <= h,
            vx@.len() == n,
            vy@.len() == n,
            dv@.len() == n,
            hw as int == hcoef(w as int),
            0 < hw <= ONE,
            target == divergence_field(w as int, h as int, vx@, vy@, old(dv)@),
            forall|j: int| 0 <= j < i ==> dv@[j] == target[j],
            forall|j: int| i <= j < n ==> dv@[j] == old(dv)@[j],
        decreases n - i,
    {
        let x = i % w;
        let y = i / w;
        proof {
            lemma_cell_decomp(w as int, h as int, i as int);
        }
        if 1 <= x && x < w - 1 && 1 <= y && y < h - 1 {
            proof {
                assert(interior(w as int, h as int, i as int));
                lemma_interior_neighbors(w as int, h as int, i as int);
            }
            let diff: i128 = ((vx[i + 1] as i128) - (vx[i - 1] as i128)) + ((vy[i + w] as i128) - (vy[i
                - w] as i128));
            proof {
                assert(-0x40000000000000000000000000000000 < -((hw as i128) * diff)
                    < 0x40000000000000000000000000000000) by (nonlinear_arith)
                    requires
                        0 < hw <= 0x100000000,
                        -0x40000000000000000 < diff < 0x40000000000000000,
                ;
            }
            let numer: i128 = -((hw as i128) * diff);
            let v = clip_wide(floor_div(numer, 2 * (ONE as i128)));
            dv.set(i, v);
        }
        i += 1;
    }
    proof {
        assert(dv@ =~= target);
    }
}

/// Subtract the pressure gradient from one velocity component.  `stride`
/// selects the axis: 1 for the x component, `w` for the y component.
pub(crate) fn pass_gradient(w: usize, h: usize, stride: usize, p: &Vec<i64>, v: &mut Vec<i64>)
    requires
        3 <= w,
        3 <= h,
        w * h <= MAX_CELLS,
        stride == 1 || stride == w,
        p@.len() == w * h,
        old(v)@.len() == w * h,
    ensures
        stride == 1 ==> final(v)@ == subtract_gradient_x(w as int, h as int, p@, old(v)@),
        stride == w ==> final(v)@ == subtract_gradient_y(w as int, h as int, p@, old(v)@),
{
    let ghost target = if stride == 1 {
        subtract_gradient_x(w as int, h as int, p@, old(v)@)
    } else {
        subtract_gradient_y(w as int, h as int, p@, old(v)@)
    };
    proof {
        assert(w as int <= w * h) by (nonlinear_arith)
            requires
                1 <= h,
                0 <= w,
        ;
    }
    let hw = calc_hcoef(w);
    let n = w * h;
    let mut i: usize = 0;
    while i < n
        invariant
            i <= n,
            n == w * h,
            3 <= w,
            3 <= h,
            stride == 1 || stride == w,
            p@.len() == n,
            v@.len() == n,
            hw as int == hcoef(w as int),
            0 < hw <= ONE,
            target == if stride == 1 {
                subtract_gradient_x(w as int, h as int, p@, old(v)@)
            } else {
                subtract_gradient_y(w as int, h as int, p@, old(v)@)
            },
            forall|j: int| 0 <= j < i ==> v@[j] == target[j],
            forall|j: int| i <= j < n ==> v@[j] == old(v)@[j],
        decreases n - i,
    {
        let x = i % w;
        let y = i / w;
        proof {
            lemma_cell_decomp(w as int, h as int, i as int);
        }
        if 1 <= x && x < w - 1 && 1 <= y && y < h - 1 {
            proof {
                assert(interior(w as int, h as int, i as int));
                lemma_interior_neighbors(w as int, h as int, i as int);
            }
            let dp: i128 = (p[i + stride] as i128) - (p[i - stride] as i128);
            proof {
                assert(-0x40000000000000000000000000000000 < dp * (ONE as i128)
                    < 0x40000000000000000000000000000000) by (nonlinear_arith)
                    requires
                        -0x40000000000000000 < dp < 0x40000000000000000,
                ;
            }
            let grad: i128 = floor_div(dp * (ONE as i128), 2 * (hw as i128));
            let res = clip_wide((v[i] as i128) - grad);
            v.set(i, res);
        }
        i += 1;
    }
    proof {
        assert(v@ =~= target);
    }
}

/// Fixed-point backtraced source coordinate along one axis: trace
/// `dt * vel` upstream from lattice position `pos` and clamp to
/// `[0.5, dim - 1.5]`.
pub(crate) fn calc_backtrace(pos: usize, vel: i64, dim: usize) -> (c: i64)
    requires
        3 <= dim,
        dim <= MAX_CELLS,
        pos < dim,
    ensures
        c as int == backtrace(pos as int, vel as int, dim as int),
        HALF as int <= c as int <= (dim - 1) * (ONE as int) - HALF,
{
    proof {
        assert(0 <= (pos as int) * (ONE as int) < 0x200000000000000) by (nonlinear_arith)
            requires
                0 <= pos < 0x1000001,
                ONE == 0x100000000,
        ;
        assert(-0x20000000000000000000000000 < (DT as int) * (vel as int)
            < 0x20000000000000000000000000) by (nonlinear_arith)
            requires
                -0x8000000000000000 <= vel < 0x8000000000000000,
                DT == 429496730,
        ;
        assert(2 * (ONE as int) <= (dim - 1) * (ONE as int) < 0x200000000000000) by (nonlinear_arith)
            requires
                3 <= dim <= 0x1000000,
                ONE == 0x100000000,
        ;
    }
    let dtv = floor_div((DT as i128) * (vel as i128), ONE as i128);
    let raw: i128 = (pos as i128) * (ONE as i128) - dtv;
    let lo: i128 = HALF as i128;
    let hi: i128 = ((dim as i128) - 1) * (ONE as i128) - (HALF as i128);
    let c: i128 = if raw < lo {
        lo
    } else if raw > hi {
        hi
    } else {
        raw
    };
    c as i64
}

/// One corner's weighted contribution to a bilinear sample.
pub(crate) fn calc_bilin_term(f: i64, wx: i64, wy: i64) -> (t: i128)
    requires
        0 <= wx <= ONE,
        0 <= wy <= ONE,
    ensures
        t == bilin_term(f as int, wx as int, wy as int),
        -0x10000000000000000 <= t <= 0x10000000000000000,
{
    proof {
        assert(-0x100000000000000000000000000 <= (wx as int) * (f as int)
            <= 0x100000000000000000000000000) by (nonlinear_arith)
            requires
                0 <= wx <= 0x100000000,
                -0x8000000000000000 <= f < 0x8000000000000000,
        ;
    }
    let t1 = floor_div((wx as i128) * (f as i128), ONE as i128);
    proof {
        assert((wx as int) * (f as int) <= (ONE as int) * 0x10000000000000000) by (nonlinear_arith)
            requires
                0 <= wx <= 0x100000000,
                -0x8000000000000000 <= f < 0x8000000000000000,
                ONE == 0x100000000,
        ;
        assert((ONE as int) * -0x10000000000000000 <= (wx as int) * (f as int)) by (nonlinear_arith)
            requires
                0 <= wx <= 0x100000000,
                -0x8000000000000000 <= f < 0x8000000000000000,
                ONE == 0x100000000,
        ;
        vstd::arithmetic::div_mod::lemma_multiply_divide_le(
            (wx as int) * (f as int),
            ONE as int,
            0x10000000000000000,
        );
        vstd::arithmetic::div_mod::lemma_div_is_ordered(
            (ONE as int) * -0x10000000000000000,
            (wx as int) * (f as int),
            ONE as int,
        );
        vstd::arithmetic::div_mod::lemma_div_multiples_vanish(-0x10000000000000000, ONE as int);
    }
    proof {
        assert(-0x100000000000000000000000000 <= (wy as int) * (t1 as int)
            <= 0x100000000000000000000000000) by (nonlinear_arith)
            requires
                0 <= wy <= 0x100000000,
                -0x10000000000000000 <= t1 <= 0x10000000000000000,
        ;
    }
    let t = floor_div((wy as i128) * t1, ONE as i128);
    proof {
        assert((wy as int) * (t1 as int) <= (ONE as int) * 0x10000000000000000) by (nonlinear_arith)
            requires
                0 <= wy <= 0x100000000,
                -0x10000000000000000 <= t1 <= 0x10000000000000000,
                ONE == 0x100000000,
        ;
        assert((ONE as int) * -0x10000000000000000 <= (wy as int) * (t1 as int)) by (nonlinear_arith)
            requires
                0 <= wy <= 0x100000000,
                -0x10000000000000000 <= t1 <= 0x10000000000000000,
                ONE == 0x100000000,
        ;
        vstd::arithmetic::div_mod::lemma_multiply_divide_le(
            (wy as int) * (t1 as int),
            ONE as int,
            0x10000000000000000,
        );
        vstd::arithmetic::div_mod::lemma_div_is_ordered(
            (ONE as int) * -0x10000000000000000,
            (wy as int) * (t1 as int),
            ONE as int,
        );
        vstd::arithmetic::div_mod::lemma_div_multiples_vanish(-0x10000000000000000, ONE as int);
    }
    t
}

/// Bilinear sample of `f` at the clamped fixed-point coordinates
/// `(cx, cy)`, exactly as `model::sample` describes it.
pub(crate) fn calc_sample(f: &Vec<i64>, w: usize, h: usize, cx: i64, cy: i64) -> (res: i64)
    requires
        3 <= w,
        3 <= h,
        w * h <= MAX_CELLS,
        f@.len() == w * h,
        HALF as int <= cx as int <= (w - 1) * (ONE as int) - HALF,
        HALF as int <= cy as int <= (h - 1) * (ONE as int) - HALF,
    ensures
        res as int == crate::model::sample(f@, w as int, cx as int, cy as int),
{
    proof {
        vstd::arithmetic::div_mod::lemma_div_pos_is_pos(cx as int, ONE as int);
        vstd::arithmetic::div_mod::lemma_div_pos_is_pos(cy as int, ONE as int);
        lemma_grid_index(ONE as int, HALF as int, w - 2);
        lemma_grid_index(ONE as int, HALF as int, h - 2);
        assert((w - 2) * (ONE as int) + HALF == (w - 1) * (ONE as int) - HALF) by (nonlinear_arith)
            requires
                ONE == 0x100000000,
                HALF == 0x80000000,
        ;
        assert((h - 2) * (ONE as int) + HALF == (h - 1) * (ONE as int) - HALF) by (nonlinear_arith)
            requires
                ONE == 0x100000000,
                HALF == 0x80000000,
        ;
        vstd::arithmetic::div_mod::lemma_div_is_ordered(
            cx as int,
            (w - 2) * (ONE as int) + HALF,
            ONE as int,
        );
        vstd::arithmetic::div_mod::lemma_div_is_ordered(
            cy as int,
            (h - 2) * (ONE as int) + HALF,
            ONE as int,
        );
        lemma_mod_division_less_than_divisor(cx as int, ONE as int);
        lemma_mod_division_less_than_divisor(cy as int, ONE as int);
        lemma_fundamental_div_mod(cx as int, ONE as int);
        lemma_fundamental_div_mod(cy as int, ONE as int);
    }
    let x0 = (cx / ONE) as usize;
    let y0 = (cy / ONE) as usize;
    let fx = cx % ONE;
    let fy = cy % ONE;
    proof {
        assert((y0 as int) * (w as int) + x0 as int + w + 1 < w * h) by (nonlinear_arith)
            requires
                0 <= x0 as int <= w - 2,
                0 <= y0 as int <= h - 2,
                3 <= w,
                3 <= h,
        ;
    }
    let i00 = y0 * w + x0;
    proof {
        assert((y0 as int + 1) * (w as int) == (y0 as int) * (w as int) + w) by (nonlinear_arith);
        assert(crate::model::gidx(w as int, x0 as int, y0 as int) == i00 as int);
        assert(crate::model::gidx(w as int, x0 as int + 1, y0 as int) == i00 as int + 1);
        assert(crate::model::gidx(w as int, x0 as int, y0 as int + 1) == i00 as int + w);
        assert(crate::model::gidx(w as int, x0 as int + 1, y0 as int + 1) == i00 as int + w + 1);
    }
    let t00 = calc_bilin_term(f[i00], ONE - fx, ONE - fy);
    let t01 = calc_bilin_term(f[i00 + 1], fx, ONE - fy);
    let t10 = calc_bilin_term(f[i00 + w], ONE - fx, fy);
    let t11 = calc_bilin_term(f[i00 + w + 1], fx, fy);
    clip_wide(t00 + t01 + t10 + t11)
}

/// Semi-Lagrangian advection pass: every interior cell of `dst` is
/// replaced by the bilinear sample of `src` at its backtraced source
/// point; border cells are left alone.
pub(crate) fn pass_advect(
    w: usize,
    h: usize,
    btx: &Vec<i64>,
    bty: &Vec<i64>,
    src: &Vec<i64>,
    dst: &mut Vec<i64>,
)
    requires
        3 <= w,
        3 <= h,
        w * h <= MAX_CELLS,
        btx@.len() == w * h,
        bty@.len() == w * h,
        src@.len() == w * h,
        old(dst)@.len() == w * h,
    ensures
        final(dst)@ == advected(w as int, h as int, btx@, bty@, src@, old(dst)@),
{
    let ghost target = advected(w as int, h as int, btx@, bty@, src@, old(dst)@);
    proof {
        assert(w as int <= w * h && h as int <= w * h) by (nonlinear_arith)
            requires
                1 <= h,
                1 <= w,
        ;
    }
    let n = w * h;
    let mut i: usize = 0;
    while i < n
        invariant
            i <= n,
            n == w * h,
            3 <= w,
            3 <= h,
            w <= n,
            h <= n,
            n <= MAX_CELLS,
            btx@.len() == n,
            bty@.len() == n,
            src@.len() == n,
            dst@.len() == n,
            target == advected(w as int, h as int, btx@, bty@, src@, old(dst)@),
            forall|j: int| 0 <= j < i ==> dst@[j] == target[j],
            forall|j: int| i <= j < n ==> dst@[j] == old(dst)@[j],
        decreases n - i,
    {
        let x = i % w;
        let y = i / w;
        proof {
            lemma_cell_decomp(w as int, h as int, i as int);
        }
        if 1 <= x && x < w - 1 && 1 <= y && y < h - 1 {
            proof {
                assert(interior(w as int, h as int, i as int));
            }
            let cx = calc_backtrace(x, btx[i], w);
            let cy = calc_backtrace(y, bty[i], h);
            let v = calc_sample(src, w, h, cx, cy);
            dst.set(i, v);
        }
        i += 1;
    }
    proof {
        assert(dst@ =~= target);
    }
}

/// The exact total of a buffer, as a wide integer.
pub(crate) fn calc_sum(f: &Vec<i64>) -> (s: i128)
    requires
        f@.len() <= MAX_CELLS,
    ensures
        s == seq_sum(f@),
        -0x80000000000000000000000 <= s <= 0x80000000000000000000000,
{
    let n = f.len();
    let mut acc: i128 = 0;
    let mut i: usize = 0;
    while i < n
        invariant
            i <= n,
            n == f@.len(),
            n <= MAX_CELLS,
            acc == seq_sum(f@.subrange(0, i as int)),
            -(i as int) * 0x8000000000000000 <= acc <= (i as int) * 0x8000000000000000,
        decreases n - i,
    {
        proof {
            assert(f@.subrange(0, i + 1).drop_last() =~= f@.subrange(0, i as int));
            assert(-(i as int + 1) * 0x8000000000000000 <= acc + f@[i as int]
                <= (i as int + 1) * 0x8000000000000000) by (nonlinear_arith)
                requires
                    -(i as int) * 0x8000000000000000 <= acc <= (i as int) * 0x8000000000000000,
                    -0x8000000000000000 <= f@[i as int] < 0x8000000000000000,
            ;
            assert(-0x80000000000000000000000 <= -(i as int + 1) * 0x8000000000000000
                && (i as int + 1) * 0x8000000000000000 <= 0x80000000000000000000000) by (nonlinear_arith)
                requires
                    0 <= i as int + 1 <= 0x1000000,
            ;
        }
        acc = acc + (f[i] as i128);
        i += 1;
    }
    proof {
        assert(f@.subrange(0, n as int) =~= f@);
        assert(-(n as int) * 0x8000000000000000 >= -0x80000000000000000000000
            && (n as int) * 0x8000000000000000 <= 0x80000000000000000000000) by (nonlinear_arith)
            requires
                0 <= n as int <= 0x1000000,
        ;
    }
    acc
}

/// The fixed-point mass-correction factor `pre / post`.
pub(crate) fn calc_ratio(pre: i128, post: i128) -> (r: i64)
    requires
        0 < post <= 0x80000000000000000000000,
        -0x80000000000000000000000 <= pre <= 0x80000000000000000000000,
    ensures
        r as int == crate::model::ratio_spec(pre as int, post as int),
{
    proof {
        assert(-0x8000000000000000000000000000000 <= (pre as int) * (ONE as int)
            <= 0x8000000000000000000000000000000) by (nonlinear_arith)
            requires
                -0x80000000000000000000000 <= pre <= 0x80000000000000000000000,
                ONE == 0x100000000,
        ;
    }
    clip_wide(floor_div(pre * (ONE as i128), post))
}

/// Multiply every cell of `f` by the fixed-point factor `ratio`.
pub(crate) fn pass_rescale(ratio: i64, f: &mut Vec<i64>)
    ensures
        final(f)@ == rescale(old(f)@, ratio as int),
{
    let ghost target = rescale(old(f)@, ratio as int);
    let n = f.len();
    let mut i: usize = 0;
    while i < n
        invariant
            i <= n,
            n == f@.len(),
            n == old(f)@.len(),
            target == rescale(old(f)@, ratio as int),
            forall|j: int| 0 <= j < i ==> f@[j] == target[j],
            forall|j: int| i <= j < n ==> f@[j] == old(f)@[j],
        decreases n - i,
    {
        let c = f[i];
        proof {
            assert(-0x40000000000000000000000000000000 <= (c as int) * (ratio as int)
                <= 0x40000000000000000000000000000000) by (nonlinear_arith)
                requires
                    -0x8000000000000000 <= c < 0x8000000000000000,
                    -0x8000000000000000 <= ratio < 0x8000000000000000,
            ;
        }
        let v = clip_wide(floor_div((c as i128) * (ratio as i128), ONE as i128));
        f.set(i, v);
        i += 1;
    }
    proof {
        assert(f@ =~= target);
    }
}

/// Inject `fcomp * falloff` into one velocity component over the disk of
/// the given radius centred on `(cx, cy)`.
pub(crate) fn pass_force(
    w: usize,
    h: usize,
    cx: usize,
    cy: usize,
    fcomp: i64,
    radius: i64,
    v: &mut Vec<i64>,
)
    requires
        3 <= w,
        3 <= h,
        w * h <= MAX_CELLS,
        cx < w,
        cy < h,
        old(v)@.len() == w * h,
        0x10000 <= radius,
    ensures
        final(v)@ == crate::model::force_applied(
            w as int,
            h as int,
            old(v)@,
            cx as int,
            cy as int,
            fcomp as int,
            radius as int,
        ),
{
    let ghost target = crate::model::force_applied(
        w as int,
        h as int,
        old(v)@,
        cx as int,
        cy as int,
        fcomp as int,
        radius as int,
    );
    proof {
        assert(0x100000000 <= (radius as int) * (radius as int)
            < 0x40000000000000000000000000000000) by (nonlinear_arith)
            requires
                0x10000 <= radius < 0x8000000000000000,
        ;
        vstd::arithmetic::div_mod::lemma_div_non_zero((radius as int) * (radius as int), ONE as int);
        vstd::arithmetic::div_mod::lemma_multiply_divide_lt(
            (radius as int) * (radius as int),
            ONE as int,
            0x400000000000000000000000,
        );
        assert((radius as int) * (radius as int) < (ONE as int) * 0x400000000000000000000000)
            by (nonlinear_arith)
            requires
                0x10000 <= radius < 0x8000000000000000,
                ONE == 0x100000000,
        ;
    }
    let rsq: i128 = ((radius as i128) * (radius as i128)) / (ONE as i128);
    let n = w * h;
    let mut i: usize = 0;
    while i < n
        invariant
            i <= n,
            n == w * h,
            3 <= w,
            3 <= h,
            n <= MAX_CELLS,
            cx < w,
            cy < h,
            v@.len() == n,
            0 < rsq < 0x400000000000000000000000,
            rsq == crate::model::radius_sq(radius as int),
            target == crate::model::force_applied(
                w as int,
                h as int,
                old(v)@,
                cx as int,
                cy as int,
                fcomp as int,
                radius as int,
            ),
            forall|j: int| 0 <= j < i ==> v@[j] == target[j],
            forall|j: int| i <= j < n ==> v@[j] == old(v)@[j],
        decreases n - i,
    {
        let x = i % w;
        let y = i / w;
        proof {
            lemma_cell_decomp(w as int, h as int, i as int);
            assert(w as int <= n && h as int <= n) by (nonlinear_arith)
                requires
                    1 <= h,
                    1 <= w,
                    n == w * h,
            ;
        }
        let dx: i128 = (x as i128) - (cx as i128);
        let dy: i128 = (y as i128) - (cy as i128);
        proof {
            assert(0 <= dx * dx < 0x10000000000000) by (nonlinear_arith)
                requires
                    -0x1000000 < dx < 0x1000000,
            ;
            assert(0 <= dy * dy < 0x10000000000000) by (nonlinear_arith)
                requires
                    -0x1000000 < dy < 0x1000000,
            ;
        }
        let d2: i128 = dx * dx + dy * dy;
        proof {
            assert(0 <= d2 * (ONE as int) < 0x2000000000000000000000) by (nonlinear_arith)
                requires
                    0 <= d2 < 0x20000000000000,
                    ONE == 0x100000000,
            ;
        }
        if d2 * (ONE as i128) <= rsq {
            proof {
                assert(0 <= d2 * (ONE as int) * (ONE as int) < 0x200000000000000000000000000000)
                    by (nonlinear_arith)
                    requires
                        0 <= d2 < 0x20000000000000,
                        ONE == 0x100000000,
                ;
                vstd::arithmetic::div_mod::lemma_div_pos_is_pos(
                    d2 * (ONE as int) * (ONE as int),
                    rsq as int,
                );
                vstd::arithmetic::div_mod::lemma_multiply_divide_le(
                    d2 * (ONE as int) * (ONE as int),
                    rsq as int,
                    ONE as int,
                );
                assert(d2 * (ONE as int) * (ONE as int) <= rsq * (ONE as int)) by (nonlinear_arith)
                    requires
                        d2 * (ONE as int) <= rsq,
                        ONE == 0x100000000,
                ;
            }
            let ratio: i128 = floor_div(d2 * (ONE as i128) * (ONE as i128), rsq);
            let fall: i128 = (ONE as i128) - ratio;
            proof {
                assert(-0x100000000000000000000000000 <= (fcomp as int) * (fall as int)
                    <= 0x100000000000000000000000000) by (nonlinear_arith)
                    requires
                        -0x8000000000000000 <= fcomp < 0x8000000000000000,
                        0 <= fall <= 0x100000000,
                ;
            }
            let incr = floor_div((fcomp as i128) * fall, ONE as i128);
            let nv = clip_wide((v[i] as i128) + incr);
            v.set(i, nv);
        }
        i += 1;
    }
    proof {
        assert(v@ =~= target);
    }
}

/// A field of non-negative cells has a non-negative total.
pub(crate) proof fn lemma_seq_sum_nonneg(f: Seq<i64>)
    requires
        nonneg(f),
    ensures
        seq_sum(f) >= 0,
    decreases f.len(),
{
    if f.len() == 0 {
    } else {
        assert(nonneg(f.drop_last())) by {
            assert(forall|i: int| 0 <= i < f.len() - 1 ==> f.drop_last()[i] == f[i]);
        }
        lemma_seq_sum_nonneg(f.drop_last());
        assert(f.last() >= 0);
    }
}

/// The diffusion relaxation keeps non-negative inputs non-negative.
pub(crate) proof fn lemma_diffuse_cell_nonneg(src: int, l: int, r: int, u: int, d: int, a: int)
    requires
        src >= 0,
        l >= 0,
        r >= 0,
        u >= 0,
        d >= 0,
        a >= 0,
    ensures
        crate::model::diffuse_cell(src, l, r, u, d, a) >= 0,
{
    assert(src * ONE >= 0 && a * (l + r + u + d) >= 0) by (nonlinear_arith)
        requires
            src >= 0,
            a >= 0,
            l + r + u + d >= 0,
            ONE == 0x100000000,
    ;
    vstd::arithmetic::div_mod::lemma_div_pos_is_pos(src * ONE + a * (l + r + u + d), ONE + 4 * a);
}

/// A diffusion sweep of non-negative fields is non-negative.
pub(crate) proof fn lemma_sweep_diffuse_nonneg(w: int, h: int, src: Seq<i64>, cur: Seq<i64>, a: int)
    requires
        3 <= w,
        3 <= h,
        src.len() == w * h,
        cur.len() == w * h,
        nonneg(src),
        nonneg(cur),
        a >= 0,
    ensures
        nonneg(sweep_diffuse(w, h, src, cur, a)),
{
    let res = sweep_diffuse(w, h, src, cur, a);
    assert forall|i: int| 0 <= i < res.len() implies res[i] >= 0 by {
        if interior(w, h, i) {
            lemma_interior_neighbors(w, h, i);
            lemma_diffuse_cell_nonneg(
                src[i] as int,
                cur[i - 1] as int,
                cur[i + 1] as int,
                cur[i - w] as int,
                cur[i + w] as int,
                a,
            );
        }
    }
}

/// The row boundary copy keeps a non-negative field non-negative.
pub(crate) proof fn lemma_rows_copy_nonneg(w: int, h: int, f: Seq<i64>)
    requires
        3 <= w,
        3 <= h,
        f.len() == w * h,
        nonneg(f),
    ensures
        nonneg(rows_copy(w, h, f)),
{
    let res = rows_copy(w, h, f);
    assert forall|i: int| 0 <= i < res.len() implies res[i] >= 0 by {
        lemma_cell_decomp(w, h, i);
        if i / w == 0 {
            assert(0 <= i + w < w * h) by (nonlinear_arith)
                requires
                    i == w * (i / w) + i % w,
                    i / w == 0,
                    0 <= i % w < w,
                    3 <= h,
                    3 <= w,
            ;
        } else if i / w == h - 1 {
            assert(0 <= i - w < w * h) by (nonlinear_arith)
                requires
                    i == w * (i / w) + i % w,
                    i / w == h - 1,
                    0 <= i % w < w,
                    i < w * h,
                    3 <= h,
                    3 <= w,
            ;
        }
    }
}

/// The column boundary copy keeps a non-negative field non-negative.
pub(crate) proof fn lemma_cols_copy_nonneg(w: int, h: int, f: Seq<i64>)
    requires
        3 <= w,
        3 <= h,
        f.len() == w * h,
        nonneg(f),
    ensures
        nonneg(cols_copy(w, h, f)),
{
    let res = cols_copy(w, h, f);
    assert forall|i: int| 0 <= i < res.len() implies res[i] >= 0 by {
        lemma_cell_decomp(w, h, i);
        if i % w == 0 {
            assert(0 <= i + 1 < w * h) by (nonlinear_arith)
                requires
                    i == w * (i / w) + i % w,
                    i % w == 0,
                    0 <= i / w < h,
                    i < w * h,
                    3 <= h,
                    3 <= w,
            ;
        }
    }
}

/// The full zero-gradient boundary keeps a non-negative field non-negative.
pub(crate) proof fn lemma_neumann_nonneg(w: int, h: int, f: Seq<i64>)
    requires
        3 <= w,
        3 <= h,
        f.len() == w * h,
        nonneg(f),
    ensures
        nonneg(crate::model::neumann(w, h, f)),
{
    lemma_rows_copy_nonneg(w, h, f);
    lemma_cols_copy_nonneg(w, h, rows_copy(w, h, f));
}

/// Iterated dye diffusion keeps a non-negative field non-negative.
pub(crate) proof fn lemma_dye_iter_nonneg(n: nat, w: int, h: int, src: Seq<i64>, cur: Seq<i64>, a: int)
    requires
        3 <= w,
        3 <= h,
        src.len() == w * h,
        cur.len() == w * h,
        nonneg(src),
        nonneg(cur),
        a >= 0,
    ensures
        nonneg(crate::model::dye_diffuse_iter(n, w, h, src, cur, a)),
        crate::model::dye_diffuse_iter(n, w, h, src, cur, a).len() == w * h,
    decreases n,
{
    if n == 0 {
    } else {
        lemma_dye_iter_nonneg((n - 1) as nat, w, h, src, cur, a);
        let prev = crate::model::dye_diffuse_iter((n - 1) as nat, w, h, src, cur, a);
        lemma_sweep_diffuse_nonneg(w, h, src, prev, a);
        lemma_neumann_nonneg(w, h, sweep_diffuse(w, h, src, prev, a));
    }
}

/// Rescaling by a non-negative factor keeps a non-negative field
/// non-negative.
pub(crate) proof fn lemma_rescale_nonneg(f: Seq<i64>, ratio: int)
    requires
        nonneg(f),
        ratio >= 0,
    ensures
        nonneg(rescale(f, ratio)),
{
    let res = rescale(f, ratio);
    assert forall|i: int| 0 <= i < res.len() implies res[i] >= 0 by {
        assert(f[i] * ratio >= 0) by (nonlinear_arith)
            requires
                f[i] >= 0,
                ratio >= 0,
        ;
        vstd::arithmetic::div_mod::lemma_div_pos_is_pos(f[i] * ratio, ONE as int);
    }
}

/// The mass correction keeps a non-negative field non-negative when the
/// recorded pre-total is itself non-negative.
pub(crate) proof fn lemma_mass_correct_nonneg(f: Seq<i64>, pre: int)
    requires
        nonneg(f),
        pre >= 0,
    ensures
        nonneg(crate::model::mass_correct(f, pre)),
        crate::model::mass_correct(f, pre).len() == f.len(),
{
    if seq_sum(f) > 0 {
        assert(pre * (ONE as int) >= 0) by (nonlinear_arith)
            requires
                pre >= 0,
                ONE == 0x100000000,
        ;
        vstd::arithmetic::div_mod::lemma_div_pos_is_pos(pre * (ONE as int), seq_sum(f));
        lemma_rescale_nonneg(f, crate::model::ratio_spec(pre, seq_sum(f)));
    }
}

/// A backtraced coordinate always lands inside the clamped band.
pub(crate) proof fn lemma_backtrace_range(pos: int, vel: int, dim: int)
    requires
        3 <= dim,
    ensures
        HALF as int <= backtrace(pos, vel, dim) <= (dim - 1) * (ONE as int) - HALF,
{
    assert(2 * (ONE as int) <= (dim - 1) * (ONE as int)) by (nonlinear_arith)
        requires
            3 <= dim,
            ONE == 0x100000000,
    ;
}

/// A bilinear sample of a non-negative field is non-negative.
pub(crate) proof fn lemma_sample_nonneg(f: Seq<i64>, w: int, h: int, cx: int, cy: int)
    requires
        3 <= w,
        3 <= h,
        f.len() == w * h,
        nonneg(f),
        HALF as int <= cx <= (w - 1) * (ONE as int) - HALF,
        HALF as int <= cy <= (h - 1) * (ONE as int) - HALF,
    ensures
        crate::model::sample(f, w, cx, cy) >= 0,
{
    let x0 = cx / (ONE as int);
    let y0 = cy / (ONE as int);
    let fx = cx % (ONE as int);
    let fy = cy % (ONE as int);
    vstd::arithmetic::div_mod::lemma_div_pos_is_pos(cx, ONE as int);
    vstd::arithmetic::div_mod::lemma_div_pos_is_pos(cy, ONE as int);
    lemma_grid_index(ONE as int, HALF as int, w - 2);
    lemma_grid_index(ONE as int, HALF as int, h - 2);
    assert((w - 2) * (ONE as int) + HALF == (w - 1) * (ONE as int) - HALF) by (nonlinear_arith)
        requires
            ONE == 0x100000000,
            HALF == 0x80000000,
    ;
    assert((h - 2) * (ONE as int) + HALF == (h - 1) * (ONE as int) - HALF) by (nonlinear_arith)
        requires
            ONE == 0x100000000,
            HALF == 0x80000000,
    ;
    vstd::arithmetic::div_mod::lemma_div_is_ordered(cx, (w - 2) * (ONE as int) + HALF, ONE as int);
    vstd::arithmetic::div_mod::lemma_div_is_ordered(cy, (h - 2) * (ONE as int) + HALF, ONE as int);
    lemma_mod_division_less_than_divisor(cx, ONE as int);
    lemma_mod_division_less_than_divisor(cy, ONE as int);
    assert(fx >= 0 && fy >= 0);
    assert(0 <= y0 * w + x0 && (y0 + 1) * w + (x0 + 1) < w * h) by (nonlinear_arith)
        requires
            0 <= x0 <= w - 2,
            0 <= y0 <= h - 2,
            3 <= w,
            3 <= h,
    ;
    assert((y0 + 1) * w == y0 * w + w) by (nonlinear_arith);
    lemma_bilin_term_nonneg(f[crate::model::gidx(w, x0, y0)] as int, ONE - fx, ONE - fy);
    lemma_bilin_term_nonneg(f[crate::model::gidx(w, x0 + 1, y0)] as int, fx, ONE - fy);
    lemma_bilin_term_nonneg(f[crate::model::gidx(w, x0, y0 + 1)] as int, ONE - fx, fy);
    lemma_bilin_term_nonneg(f[crate::model::gidx(w, x0 + 1, y0 + 1)] as int, fx, fy);
}

/// One bilinear corner term is non-negative for non-negative inputs.
pub(crate) proof fn lemma_bilin_term_nonneg(f: int, wx: int, wy: int)
    requires
        f >= 0,
        wx >= 0,
        wy >= 0,
    ensures
        bilin_term(f, wx, wy) >= 0,
{
    assert(wx * f >= 0) by (nonlinear_arith)
        requires
            wx >= 0,
            f >= 0,
    ;
    vstd::arithmetic::div_mod::lemma_div_pos_is_pos(wx * f, ONE as int);
    assert(wy * ((wx * f) / (ONE as int)) >= 0) by (nonlinear_arith)
        requires
            wy >= 0,
            (wx * f) / (ONE as int) >= 0,
    ;
    vstd::arithmetic::div_mod::lemma_div_pos_is_pos(wy * ((wx * f) / (ONE as int)), ONE as int);
}

/// Advection of a non-negative field over a non-negative target stays
/// non-negative.
pub(crate) proof fn lemma_advected_nonneg(
    w: int,
    h: int,
    btx: Seq<i64>,
    bty: Seq<i64>,
    src: Seq<i64>,
    cur: Seq<i64>,
)
    requires
        3 <= w,
        3 <= h,
        src.len() == w * h,
        cur.len() == w * h,
        btx.len() == w * h,
        bty.len() == w * h,
        nonneg(src),
        nonneg(cur),
    ensures
        nonneg(advected(w, h, btx, bty, src, cur)),
{
    let res = advected(w, h, btx, bty, src, cur);
    assert forall|i: int| 0 <= i < res.len() implies res[i] >= 0 by {
        if interior(w, h, i) {
            lemma_cell_decomp(w, h, i);
            lemma_backtrace_range(i % w, btx[i] as int, w);
            lemma_backtrace_range(i / w, bty[i] as int, h);
            lemma_sample_nonneg(
                src,
                w,
                h,
                backtrace(i % w, btx[i] as int, w),
                backtrace(i / w, bty[i] as int, h),
            );
        }
    }
}

} // verus!
