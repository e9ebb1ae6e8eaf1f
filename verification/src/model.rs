//! Mathematical model of the solver.
//!
//! Every stage of the simulation is defined here as a pure function from
//! sequences of fixed-point scalars to sequences of fixed-point scalars.
//! The executable methods of `FluidGrid` are verified to return exactly
//! these values, so the whole simulation is pinned down, cell by cell, by
//! the functions in this module.
//!
//! Geometry: a `width x height` grid is a flat row-major sequence of length
//! `width * height`, indexed `y * width + x`.  The interior is
//! `[1, width-2] x [1, height-2]`; everything else is the border frame.

use vstd::prelude::*;
use crate::fixed::{ONE, HALF, DT, VISCOSITY, DYE_DIFFUSION, clip, clip64};

verus! {

/// Flat index of the cell at column `x`, row `y`.
pub open spec fn gidx(w: int, x: int, y: int) -> int {
    y * w + x
}

/// Does flat index `i` lie in the interior of a `w x h` grid?
pub open spec fn interior(w: int, h: int, i: int) -> bool {
    &&& 0 <= i < w * h
    &&& 1 <= i % w < w - 1
    &&& 1 <= i / w < h - 1
}

/// All cells hold non-negative scalars (the dye-field invariant).
pub open spec fn nonneg(f: Seq<i64>) -> bool {
    forall|i: int| 0 <= i < f.len() ==> f[i] >= 0
}

/// An all-zero field of `n` cells.
pub open spec fn zeros(n: nat) -> Seq<i64> {
    Seq::new(n, |i: int| 0i64)
}

/// Grid-size-dependent diffusion coefficient for the velocity field:
/// `dt * viscosity * (w*h)`, in fixed point.
pub open spec fn visc_coef(wh: int) -> int {
    (DT * VISCOSITY * wh) / (ONE as int)
}

/// Grid-size-dependent diffusion coefficient for the dye field:
/// `dt * dye_diffusion * (w*h)`, in fixed point.
pub open spec fn dye_coef(wh: int) -> int {
    (DT * DYE_DIFFUSION * wh) / (ONE as int)
}

/// The mesh spacing `1/width`, in fixed point.
pub open spec fn hcoef(w: int) -> int {
    (ONE as int) / w
}

// ---------------------------------------------------------------------------
// Boundary policies
// ---------------------------------------------------------------------------

/// No-slip walls: every border cell forced to zero.
pub open spec fn zero_border(w: int, h: int, f: Seq<i64>) -> Seq<i64> {
    Seq::new((w * h) as nat, |i: int| if interior(w, h, i) { f[i] } else { 0i64 })
}

/// First half of the zero-gradient copy: the top row takes row 1, the
/// bottom row takes row `h-2`.
pub open spec fn rows_copy(w: int, h: int, f: Seq<i64>) -> Seq<i64> {
    Seq::new(
        (w * h) as nat,
        |i: int|
            if i / w == 0 {
                f[i + w]
            } else if i / w == h - 1 {
                f[i - w]
            } else {
                f[i]
            },
    )
}

/// Second half of the zero-gradient copy: the left column takes column 1,
/// the right column takes column `w-2`.
pub open spec fn cols_copy(w: int, h: int, f: Seq<i64>) -> Seq<i64> {
    Seq::new(
        (w * h) as nat,
        |i: int|
            if i % w == 0 {
                f[i + 1]
            } else if i % w == w - 1 {
                f[i - 1]
            } else {
                f[i]
            },
    )
}

/// Zero-gradient (Neumann) walls for dye and pressure: each border cell
/// copies its nearest interior neighbour, rows first, then columns.
pub open spec fn neumann(w: int, h: int, f: Seq<i64>) -> Seq<i64> {
    cols_copy(w, h, rows_copy(w, h, f))
}

// ---------------------------------------------------------------------------
// Diffusion
// ---------------------------------------------------------------------------

/// One cell of a Jacobi relaxation sweep for implicit diffusion:
/// `(src + a * (left + right + up + down)) / (1 + 4a)`, in fixed point.
pub open spec fn diffuse_cell(src: int, l: int, r: int, u: int, d: int, a: int) -> int {
    clip((src * ONE + a * (l + r + u + d)) / (ONE + 4 * a))
}

/// One full Jacobi sweep: every interior cell is relaxed against the
/// previous iterate `cur`, with `src` as the fixed source term; border
/// cells are left as they were.
pub open spec fn sweep_diffuse(w: int, h: int, src: Seq<i64>, cur: Seq<i64>, a: int) -> Seq<i64> {
    Seq::new(
        (w * h) as nat,
        |i: int|
            if interior(w, h, i) {
                clip64(diffuse_cell(src[i] as int, cur[i - 1] as int, cur[i + 1] as int, cur[i - w] as int, cur[i + w] as int, a))
            } else {
                cur[i]
            },
    )
}

/// `n` velocity diffusion sweeps, each followed by the no-slip boundary.
pub open spec fn vel_diffuse_iter(n: nat, w: int, h: int, src: Seq<i64>, cur: Seq<i64>, a: int) -> Seq<i64>
    decreases n,
{
    if n == 0 {
        cur
    } else {
        zero_border(w, h, sweep_diffuse(w, h, src, vel_diffuse_iter((n - 1) as nat, w, h, src, cur, a), a))
    }
}

/// `n` dye diffusion sweeps, each followed by the zero-gradient boundary.
pub open spec fn dye_diffuse_iter(n: nat, w: int, h: int, src: Seq<i64>, cur: Seq<i64>, a: int) -> Seq<i64>
    decreases n,
{
    if n == 0 {
        cur
    } else {
        neumann(w, h, sweep_diffuse(w, h, src, dye_diffuse_iter((n - 1) as nat, w, h, src, cur, a), a))
    }
}

// ---------------------------------------------------------------------------
// Mass bookkeeping
// ---------------------------------------------------------------------------

/// Total mass of a field: the exact integer sum of all its cells.
pub open spec fn seq_sum(f: Seq<i64>) -> int
    decreases f.len(),
{
    if f.len() == 0 {
        0
    } else {
        seq_sum(f.drop_last()) + f.last()
    }
}

/// The correction factor `pre / post` in fixed point (meaningful for
/// `post > 0`).
pub open spec fn ratio_spec(pre: int, post: int) -> int {
    clip((pre * (ONE as int)) / post)
}

/// Multiply every cell by the fixed-point factor `ratio`.
pub open spec fn rescale(f: Seq<i64>, ratio: int) -> Seq<i64> {
    Seq::new(f.len(), |i: int| clip64((f[i] * ratio) / (ONE as int)))
}

/// Mass-conservation correction: if the field still holds any mass, rescale
/// it so that its total returns to `pre`; a fully drained field is left
/// alone.
pub open spec fn mass_correct(f: Seq<i64>, pre: int) -> Seq<i64> {
    if seq_sum(f) > 0 {
        rescale(f, ratio_spec(pre, seq_sum(f)))
    } else {
        f
    }
}

// ---------------------------------------------------------------------------
// Semi-Lagrangian advection
// ---------------------------------------------------------------------------

/// Clamp `v` into `[lo, hi]`.
pub open spec fn clamp(v: int, lo: int, hi: int) -> int {
    if v < lo {
        lo
    } else if v > hi {
        hi
    } else {
        v
    }
}

/// Fixed-point source coordinate for the cell at 1-D position `pos`:
/// trace back `dt * vel` and clamp to `[0.5, dim - 1.5]`.
pub open spec fn backtrace(pos: int, vel: int, dim: int) -> int {
    clamp(pos * (ONE as int) - (DT * vel) / (ONE as int), HALF as int, (dim - 1) * (ONE as int) - HALF)
}

/// One corner's contribution to a bilinear sample: `f` weighted by the two
/// axis weights `wx, wy` (each in `[0, ONE]`).
pub open spec fn bilin_term(f: int, wx: int, wy: int) -> int {
    (wy * ((wx * f) / (ONE as int))) / (ONE as int)
}

/// Bilinear blend of the four corner values with fractional offsets
/// `fx, fy` in `[0, ONE)`.
pub open spec fn bilin(f00: int, f01: int, f10: int, f11: int, fx: int, fy: int) -> int {
    clip(
        bilin_term(f00, ONE - fx, ONE - fy) + bilin_term(f01, fx, ONE - fy) + bilin_term(
            f10,
            ONE - fx,
            fy,
        ) + bilin_term(f11, fx, fy),
    )
}

/// Sample the field `f` at the fixed-point coordinates `(cx, cy)` by
/// bilinear interpolation of the four surrounding lattice cells.
pub open spec fn sample(f: Seq<i64>, w: int, cx: int, cy: int) -> int {
    let x0 = cx / (ONE as int);
    let y0 = cy / (ONE as int);
    let fx = cx % (ONE as int);
    let fy = cy % (ONE as int);
    bilin(
        f[gidx(w, x0, y0)] as int,
        f[gidx(w, x0 + 1, y0)] as int,
        f[gidx(w, x0, y0 + 1)] as int,
        f[gidx(w, x0 + 1, y0 + 1)] as int,
        fx,
        fy,
    )
}

/// Semi-Lagrangian advection: every interior cell backtraces along the
/// velocity field `(btx, bty)` and bilinearly resamples `src`; border cells
/// keep their value from `cur`.
pub open spec fn advected(
    w: int,
    h: int,
    btx: Seq<i64>,
    bty: Seq<i64>,
    src: Seq<i64>,
    cur: Seq<i64>,
) -> Seq<i64> {
    Seq::new(
        (w * h) as nat,
        |i: int|
            if interior(w, h, i) {
                clip64(sample(src, w, backtrace(i % w, btx[i] as int, w), backtrace(i / w, bty[i] as int, h)))
            } else {
                cur[i]
            },
    )
}

// ---------------------------------------------------------------------------
// Pressure projection
// ---------------------------------------------------------------------------

/// Central-difference divergence, scaled by `-h/2`.
pub open spec fn divergence_cell(w: int, xl: int, xr: int, yu: int, yd: int) -> int {
    clip((-(hcoef(w) * ((xr - xl) + (yd - yu)))) / (2 * (ONE as int)))
}

/// The divergence field of `(vx, vy)` over the interior; border cells keep
/// their value from `old`.
pub open spec fn divergence_field(w: int, h: int, vx: Seq<i64>, vy: Seq<i64>, old_dv: Seq<i64>) -> Seq<i64> {
    Seq::new(
        (w * h) as nat,
        |i: int|
            if interior(w, h, i) {
                clip64(
                    divergence_cell(
                        w,
                        vx[i - 1] as int,
                        vx[i + 1] as int,
                        vy[i - w] as int,
                        vy[i + w] as int,
                    ),
                )
            } else {
                old_dv[i]
            },
    )
}

/// One Jacobi sweep of the pressure Poisson solve.
pub open spec fn sweep_pressure(w: int, h: int, dv: Seq<i64>, p: Seq<i64>) -> Seq<i64> {
    Seq::new(
        (w * h) as nat,
        |i: int|
            if interior(w, h, i) {
                clip64(clip((dv[i] + p[i - 1] + p[i + 1] + p[i - w] + p[i + w]) / 4))
            } else {
                p[i]
            },
    )
}

/// `n` pressure sweeps, each followed by the zero-gradient boundary.
pub open spec fn pressure_iter(n: nat, w: int, h: int, dv: Seq<i64>, p: Seq<i64>) -> Seq<i64>
    decreases n,
{
    if n == 0 {
        p
    } else {
        neumann(w, h, sweep_pressure(w, h, dv, pressure_iter((n - 1) as nat, w, h, dv, p)))
    }
}

/// Subtract the x component of the pressure gradient from `vx`.
pub open spec fn gradient_cell(w: int, v: int, pl: int, pr: int) -> int {
    clip(v - ((pr - pl) * (ONE as int)) / (2 * hcoef(w)))
}

/// The velocity x field after the pressure-gradient subtraction.
pub open spec fn subtract_gradient_x(w: int, h: int, p: Seq<i64>, vx: Seq<i64>) -> Seq<i64> {
    Seq::new(
        (w * h) as nat,
        |i: int|
            if interior(w, h, i) {
                clip64(gradient_cell(w, vx[i] as int, p[i - 1] as int, p[i + 1] as int))
            } else {
                vx[i]
            },
    )
}

/// The velocity y field after the pressure-gradient subtraction.
pub open spec fn subtract_gradient_y(w: int, h: int, p: Seq<i64>, vy: Seq<i64>) -> Seq<i64> {
    Seq::new(
        (w * h) as nat,
        |i: int|
            if interior(w, h, i) {
                clip64(gradient_cell(w, vy[i] as int, p[i - w] as int, p[i + w] as int))
            } else {
                vy[i]
            },
    )
}

// ---------------------------------------------------------------------------
// Momentum injection
// ---------------------------------------------------------------------------

/// The squared force radius, in fixed point.
pub open spec fn radius_sq(radius: int) -> int {
    (radius * radius) / (ONE as int)
}

/// Linear radial falloff: 1 at the centre of the disk, 0 at its rim.
/// `d2` is the squared cell distance (a plain integer), `rsq` the squared
/// radius in fixed point.
pub open spec fn falloff(d2: int, rsq: int) -> int {
    (ONE as int) - (d2 * (ONE as int) * (ONE as int)) / rsq
}

/// One velocity component after injecting `fcomp * falloff` into the disk
/// of the given radius around `(cx, cy)`.
pub open spec fn force_applied(
    w: int,
    h: int,
    v: Seq<i64>,
    cx: int,
    cy: int,
    fcomp: int,
    radius: int,
) -> Seq<i64> {
    Seq::new(
        (w * h) as nat,
        |i: int|
            {
                let dx = i % w - cx;
                let dy = i / w - cy;
                let d2 = dx * dx + dy * dy;
                if d2 * (ONE as int) <= radius_sq(radius) {
                    clip64(v[i] + (fcomp * falloff(d2, radius_sq(radius))) / (ONE as int))
                } else {
                    v[i]
                }
            },
    )
}

// ---------------------------------------------------------------------------
// The whole grid
// ---------------------------------------------------------------------------

/// The abstract state of a `FluidGrid`: its dimensions and all of its
/// per-cell buffers, as mathematical sequences.
pub struct GridState {
    pub w: int,
    pub h: int,
    pub vx: Seq<i64>,
    pub vy: Seq<i64>,
    pub vxp: Seq<i64>,
    pub vyp: Seq<i64>,
    pub r: Seq<i64>,
    pub g: Seq<i64>,
    pub b: Seq<i64>,
    pub rp: Seq<i64>,
    pub gp: Seq<i64>,
    pub bp: Seq<i64>,
    pub pr: Seq<i64>,
    pub dv: Seq<i64>,
}

/// Well-formedness: admitted dimensions, every buffer of the right length,
/// and non-negative dye everywhere.
pub open spec fn wf_state(s: GridState) -> bool {
    &&& 3 <= s.w
    &&& 3 <= s.h
    &&& s.w * s.h <= crate::fixed::MAX_CELLS
    &&& s.vx.len() == s.w * s.h
    &&& s.vy.len() == s.w * s.h
    &&& s.vxp.len() == s.w * s.h
    &&& s.vyp.len() == s.w * s.h
    &&& s.r.len() == s.w * s.h
    &&& s.g.len() == s.w * s.h
    &&& s.b.len() == s.w * s.h
    &&& s.rp.len() == s.w * s.h
    &&& s.gp.len() == s.w * s.h
    &&& s.bp.len() == s.w * s.h
    &&& s.pr.len() == s.w * s.h
    &&& s.dv.len() == s.w * s.h
    &&& nonneg(s.r)
    &&& nonneg(s.g)
    &&& nonneg(s.b)
    &&& nonneg(s.rp)
    &&& nonneg(s.gp)
    &&& nonneg(s.bp)
}

/// The freshly constructed state: everything zero.
pub open spec fn initial_state(w: int, h: int) -> GridState {
    GridState {
        w: w,
        h: h,
        vx: zeros((w * h) as nat),
        vy: zeros((w * h) as nat),
        vxp: zeros((w * h) as nat),
        vyp: zeros((w * h) as nat),
        r: zeros((w * h) as nat),
        g: zeros((w * h) as nat),
        b: zeros((w * h) as nat),
        rp: zeros((w * h) as nat),
        gp: zeros((w * h) as nat),
        bp: zeros((w * h) as nat),
        pr: zeros((w * h) as nat),
        dv: zeros((w * h) as nat),
    }
}

/// `add_dye`: an in-bounds target cell takes the colour additively
/// (saturating); out-of-bounds coordinates change nothing at all.
pub open spec fn add_dye_spec(s: GridState, x: int, y: int, dr: int, dg: int, db: int) -> GridState {
    if 0 <= x < s.w && 0 <= y < s.h {
        let i = gidx(s.w, x, y);
        GridState {
            r: s.r.update(i, clip64(s.r[i] + dr)),
            g: s.g.update(i, clip64(s.g[i] + dg)),
            b: s.b.update(i, clip64(s.b[i] + db)),
            ..s
        }
    } else {
        s
    }
}

/// `add_force`: both velocity components take `force * falloff` over the
/// disk of the given radius; an out-of-bounds centre changes nothing.
pub open spec fn add_force_spec(s: GridState, x: int, y: int, fx: int, fy: int, radius: int) -> GridState {
    if 0 <= x < s.w && 0 <= y < s.h {
        GridState {
            vx: force_applied(s.w, s.h, s.vx, x, y, fx, radius),
            vy: force_applied(s.w, s.h, s.vy, x, y, fy, radius),
            ..s
        }
    } else {
        s
    }
}

/// Stage 1 of `step`: snapshot the velocity and dye fields.
pub open spec fn snapshot_spec(s: GridState) -> GridState {
    GridState { vxp: s.vx, vyp: s.vy, rp: s.r, gp: s.g, bp: s.b, ..s }
}

/// Stage 2 of `step`: four velocity diffusion sweeps, sourced from the
/// snapshot, each followed by the no-slip boundary.
pub open spec fn diffuse_velocity_spec(s: GridState) -> GridState {
    let a = visc_coef(s.w * s.h);
    GridState {
        vx: vel_diffuse_iter(4, s.w, s.h, s.vxp, s.vx, a),
        vy: vel_diffuse_iter(4, s.w, s.h, s.vyp, s.vy, a),
        ..s
    }
}

/// Stages 3 and 5 of `step`: the pressure projection.  Divergence is
/// measured, the pressure Poisson equation is relaxed for 20 Jacobi sweeps
/// from a zero initial guess, and the pressure gradient is subtracted from
/// the velocity, which is then re-clamped to the no-slip walls.
pub open spec fn project_spec(s: GridState) -> GridState {
    let d = divergence_field(s.w, s.h, s.vx, s.vy, s.dv);
    let p = pressure_iter(20, s.w, s.h, d, zeros((s.w * s.h) as nat));
    GridState {
        vx: zero_border(s.w, s.h, subtract_gradient_x(s.w, s.h, p, s.vx)),
        vy: zero_border(s.w, s.h, subtract_gradient_y(s.w, s.h, p, s.vy)),
        pr: p,
        dv: d,
        ..s
    }
}

/// Stage 4 of `step`: semi-Lagrangian advection of the velocity along (and
/// sampling) its own pre-step snapshot.
pub open spec fn advect_velocity_spec(s: GridState) -> GridState {
    GridState {
        vx: zero_border(s.w, s.h, advected(s.w, s.h, s.vxp, s.vyp, s.vxp, s.vx)),
        vy: zero_border(s.w, s.h, advected(s.w, s.h, s.vxp, s.vyp, s.vyp, s.vy)),
        ..s
    }
}

/// Stage 6 of `step`: two dye diffusion sweeps per channel, the
/// mass-conservation correction, and a refresh of the dye snapshots so
/// that advection resamples the diffused field.
pub open spec fn diffuse_dye_spec(s: GridState) -> GridState {
    let a = dye_coef(s.w * s.h);
    let r1 = mass_correct(dye_diffuse_iter(2, s.w, s.h, s.rp, s.r, a), seq_sum(s.r));
    let g1 = mass_correct(dye_diffuse_iter(2, s.w, s.h, s.gp, s.g, a), seq_sum(s.g));
    let b1 = mass_correct(dye_diffuse_iter(2, s.w, s.h, s.bp, s.b, a), seq_sum(s.b));
    GridState { r: r1, g: g1, b: b1, rp: r1, gp: g1, bp: b1, ..s }
}

/// Stage 7 of `step`: semi-Lagrangian advection of each dye channel along
/// the current velocity, followed by the zero-gradient boundary and the
/// mass-conservation correction against the pre-advection totals.
pub open spec fn advect_dye_spec(s: GridState) -> GridState {
    GridState {
        r: mass_correct(neumann(s.w, s.h, advected(s.w, s.h, s.vx, s.vy, s.rp, s.r)), seq_sum(s.rp)),
        g: mass_correct(neumann(s.w, s.h, advected(s.w, s.h, s.vx, s.vy, s.gp, s.g)), seq_sum(s.gp)),
        b: mass_correct(neumann(s.w, s.h, advected(s.w, s.h, s.vx, s.vy, s.bp, s.b)), seq_sum(s.bp)),
        ..s
    }
}

/// Stage 8 of `step`: final boundary enforcement on both fields.
pub open spec fn boundary_spec(s: GridState) -> GridState {
    GridState {
        vx: zero_border(s.w, s.h, s.vx),
        vy: zero_border(s.w, s.h, s.vy),
        r: neumann(s.w, s.h, s.r),
        g: neumann(s.w, s.h, s.g),
        b: neumann(s.w, s.h, s.b),
        ..s
    }
}

/// One full simulation tick: the fixed stage sequence of `step`.
pub open spec fn step_spec(s: GridState) -> GridState {
    boundary_spec(
        advect_dye_spec(
            diffuse_dye_spec(
                project_spec(advect_velocity_spec(project_spec(diffuse_velocity_spec(snapshot_spec(s))))),
            ),
        ),
    )
}

} // verus!
