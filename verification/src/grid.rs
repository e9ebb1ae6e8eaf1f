//! The solver itself: a `width x height` grid of fluid state advanced tick
//! by tick with the stable-fluids method (implicit diffusion, pressure
//! projection and semi-Lagrangian advection).
//!
//! Every method's contract pins its result down exactly, as the
//! corresponding function of `crate::model` on the grid's abstract state,
//! so two grids driven through the same calls end bit-for-bit equal.

use vstd::prelude::*;
use vstd::pervasive::VecAdditionalExecFns;
use crate::fixed::{MAX_CELLS, VISCOSITY, DYE_DIFFUSION};
use crate::model::{
    GridState, wf_state, initial_state, add_dye_spec, add_force_spec, interior, nonneg,
};
use crate::passes::{
    buf_zeros, buf_copy, pass_zero_border, pass_rows_copy, pass_cols_copy, pass_sweep_diffuse,
    pass_sweep_pressure, pass_divergence, pass_gradient, pass_advect, pass_force, pass_rescale,
    calc_coef, calc_sum, calc_ratio,
};

verus! {

/// All per-cell state of the simulation.  Buffers are flat row-major
/// arrays of length `width * height` of fixed-point scalars; the `_prev`
/// buffers hold the snapshots that diffusion sources and advection samples.
pub struct FluidGrid {
    pub width: usize,
    pub height: usize,
    pub velocity_x: Vec<i64>,
    pub velocity_y: Vec<i64>,
    pub velocity_x_prev: Vec<i64>,
    pub velocity_y_prev: Vec<i64>,
    pub dye_r: Vec<i64>,
    pub dye_g: Vec<i64>,
    pub dye_b: Vec<i64>,
    pub dye_r_prev: Vec<i64>,
    pub dye_g_prev: Vec<i64>,
    pub dye_b_prev: Vec<i64>,
    pub pressure: Vec<i64>,
    pub divergence: Vec<i64>,
}

impl View for FluidGrid {
    type V = GridState;

    open spec fn view(&self) -> GridState {
        GridState {
            w: self.width as int,
            h: self.height as int,
            vx: self.velocity_x@,
            vy: self.velocity_y@,
            vxp: self.velocity_x_prev@,
            vyp: self.velocity_y_prev@,
            r: self.dye_r@,
            g: self.dye_g@,
            b: self.dye_b@,
            rp: self.dye_r_prev@,
            gp: self.dye_g_prev@,
            bp: self.dye_b_prev@,
            pr: self.pressure@,
            dv: self.divergence@,
        }
    }
}

impl FluidGrid {
    /// Well-formedness: admitted dimensions, all buffers of length
    /// `width * height`, and non-negative dye.
    pub open spec fn wf(&self) -> bool {
        wf_state(self@)
    }

    /// Allocate a grid with every field zero.  Both dimensions must be at
    /// least 3 (the interior loops are meaningless below that), and the
    /// cell count is capped so that whole-grid arithmetic stays in range.
    pub fn new(width: usize, height: usize) -> (g: FluidGrid)
        requires
            3 <= width,
            3 <= height,
            width * height <= MAX_CELLS,
        ensures
            g.wf(),
            g@ == initial_state(width as int, height as int),
    {
        let n = width * height;
        let g = FluidGrid {
            width,
            height,
            velocity_x: buf_zeros(n),
            velocity_y: buf_zeros(n),
            velocity_x_prev: buf_zeros(n),
            velocity_y_prev: buf_zeros(n),
            dye_r: buf_zeros(n),
            dye_g: buf_zeros(n),
            dye_b: buf_zeros(n),
            dye_r_prev: buf_zeros(n),
            dye_g_prev: buf_zeros(n),
            dye_b_prev: buf_zeros(n),
            pressure: buf_zeros(n),
            divergence: buf_zeros(n),
        };
        proof {
            assert(g@ =~~= initial_state(width as int, height as int));
        }
        g
    }

    /// The grid width.
    pub fn width(&self) -> (r: usize)
        ensures
            r == self.width,
    {
        self.width
    }

    /// The grid height.
    pub fn height(&self) -> (r: usize)
        ensures
            r == self.height,
    {
        self.height
    }

    /// Additively inject dye into the cell at `(x, y)`.  Out-of-bounds
    /// coordinates are a silent no-op that leaves every buffer unchanged;
    /// an in-bounds cell takes exactly `color` more of each channel
    /// (saturating at the scalar range).
    pub fn add_dye(&mut self, x: usize, y: usize, color: (i64, i64, i64))
        requires
            old(self).wf(),
            color.0 >= 0,
            color.1 >= 0,
            color.2 >= 0,
        ensures
            final(self).wf(),
            final(self)@ == add_dye_spec(
                old(self)@,
                x as int,
                y as int,
                color.0 as int,
                color.1 as int,
                color.2 as int,
            ),
    {
        if x < self.width && y < self.height {
            proof {
                assert((y as int) * (self.width as int) + x < self.width as int * (self.height as int))
                    by (nonlinear_arith)
                    requires
                        0 <= x < self.width as int,
                        0 <= y < self.height as int,
                ;
            }
            let i = y * self.width + x;
            let r = crate::fixed::sat_add(self.dye_r[i], color.0);
            self.dye_r.set(i, r);
            let g = crate::fixed::sat_add(self.dye_g[i], color.1);
            self.dye_g.set(i, g);
            let b = crate::fixed::sat_add(self.dye_b[i], color.2);
            self.dye_b.set(i, b);
            proof {
                assert(self@ =~~= add_dye_spec(
                    old(self)@,
                    x as int,
                    y as int,
                    color.0 as int,
                    color.1 as int,
                    color.2 as int,
                ));
                assert forall|j: int| 0 <= j < self.dye_r@.len() implies self.dye_r@[j] >= 0 by {
                    if j != i {
                        assert(self.dye_r@[j] == old(self).dye_r@[j]);
                    }
                }
                assert forall|j: int| 0 <= j < self.dye_g@.len() implies self.dye_g@[j] >= 0 by {
                    if j != i {
                        assert(self.dye_g@[j] == old(self).dye_g@[j]);
                    }
                }
                assert forall|j: int| 0 <= j < self.dye_b@.len() implies self.dye_b@[j] >= 0 by {
                    if j != i {
                        assert(self.dye_b@[j] == old(self).dye_b@[j]);
                    }
                }
            }
        }
    }

    /// Additively inject momentum into the disk of the given radius around
    /// `(x, y)`: each covered cell takes `force * falloff`, where the
    /// falloff is 1 at the centre and 0 at the rim.  An out-of-bounds
    /// centre is a silent no-op.  The radius must be at least one
    /// fixed-point resolution step of a cell, else the falloff quotient is
    /// meaningless.
    pub fn add_force(&mut self, x: usize, y: usize, force: (i64, i64), radius: i64)
        requires
            old(self).wf(),
            0x10000 <= radius,
        ensures
            final(self).wf(),
            final(self)@ == add_force_spec(
                old(self)@,
                x as int,
                y as int,
                force.0 as int,
                force.1 as int,
                radius as int,
            ),
    {
        if x < self.width && y < self.height {
            let w = self.width;
            let h = self.height;
            pass_force(w, h, x, y, force.0, radius, &mut self.velocity_x);
            pass_force(w, h, x, y, force.1, radius, &mut self.velocity_y);
            proof {
                assert(self@ =~~= add_force_spec(
                    old(self)@,
                    x as int,
                    y as int,
                    force.0 as int,
                    force.1 as int,
                    radius as int,
                ));
            }
        }
    }

    /// Four implicit-diffusion Jacobi sweeps on each velocity component,
    /// sourced from the pre-step snapshot, each sweep followed by the
    /// no-slip walls so that the relaxation always sees correct boundary
    /// values.
    pub fn diffuse_velocity(&mut self)
        requires
            old(self).wf(),
        ensures
            final(self).wf(),
            final(self)@ == crate::model::diffuse_velocity_spec(old(self)@),
    {
        let w = self.width;
        let h = self.height;
        let wh = w * h;
        proof {
            assert(9 <= (w as int) * (h as int)) by (nonlinear_arith)
                requires
                    3 <= w,
                    3 <= h,
            ;
        }
        let a = calc_coef(VISCOSITY, wh);
        let mut k: usize = 0;
        while k < 4
            invariant
                k <= 4,
                3 <= w,
                3 <= h,
                wh == w * h,
                wh <= MAX_CELLS,
                self.width == w,
                self.height == h,
                a as int == crate::model::visc_coef((w as int) * (h as int)),
                0 <= a < 0x4000000000000,
                self.velocity_x_prev@ == old(self).velocity_x_prev@,
                self.velocity_y_prev@ == old(self).velocity_y_prev@,
                self.velocity_x_prev@.len() == wh,
                self.velocity_y_prev@.len() == wh,
                self.dye_r@ == old(self).dye_r@,
                self.dye_g@ == old(self).dye_g@,
                self.dye_b@ == old(self).dye_b@,
                self.dye_r_prev@ == old(self).dye_r_prev@,
                self.dye_g_prev@ == old(self).dye_g_prev@,
                self.dye_b_prev@ == old(self).dye_b_prev@,
                self.pressure@ == old(self).pressure@,
                self.divergence@ == old(self).divergence@,
                self.velocity_x@.len() == wh,
                self.velocity_y@.len() == wh,
                self.velocity_x@ == crate::model::vel_diffuse_iter(
                    k as nat,
                    w as int,
                    h as int,
                    old(self).velocity_x_prev@,
                    old(self).velocity_x@,
                    a as int,
                ),
                self.velocity_y@ == crate::model::vel_diffuse_iter(
                    k as nat,
                    w as int,
                    h as int,
                    old(self).velocity_y_prev@,
                    old(self).velocity_y@,
                    a as int,
                ),
            decreases 4 - k,
        {
            pass_sweep_diffuse(w, h, &self.velocity_x_prev, &mut self.velocity_x, a);
            pass_zero_border(w, h, &mut self.velocity_x);
            pass_sweep_diffuse(w, h, &self.velocity_y_prev, &mut self.velocity_y, a);
            pass_zero_border(w, h, &mut self.velocity_y);
            k += 1;
        }
        proof {
            assert(self@ =~~= crate::model::diffuse_velocity_spec(old(self)@));
        }
    }

    /// Pressure projection: measure the divergence of the velocity field,
    /// relax the pressure Poisson equation for 20 Jacobi sweeps from a
    /// zero initial guess (re-applying the zero-gradient pressure walls
    /// after every sweep), subtract the pressure gradient from the
    /// velocity, and re-clamp the no-slip walls.
    pub fn project_velocity(&mut self)
        requires
            old(self).wf(),
        ensures
            final(self).wf(),
            final(self)@ == crate::model::project_spec(old(self)@),
    {
        let w = self.width;
        let h = self.height;
        let n = w * h;
        pass_divergence(w, h, &self.velocity_x, &self.velocity_y, &mut self.divergence);
        self.pressure = buf_zeros(n);
        let ghost dfield = self.divergence@;
        let mut k: usize = 0;
        while k < 20
            invariant
                k <= 20,
                3 <= w,
                3 <= h,
                n == w * h,
                n <= MAX_CELLS,
                self.width == w,
                self.height == h,
                self.velocity_x@ == old(self).velocity_x@,
                self.velocity_y@ == old(self).velocity_y@,
                self.velocity_x@.len() == n,
                self.velocity_y@.len() == n,
                self.velocity_x_prev@ == old(self).velocity_x_prev@,
                self.velocity_y_prev@ == old(self).velocity_y_prev@,
                self.dye_r@ == old(self).dye_r@,
                self.dye_g@ == old(self).dye_g@,
                self.dye_b@ == old(self).dye_b@,
                self.dye_r_prev@ == old(self).dye_r_prev@,
                self.dye_g_prev@ == old(self).dye_g_prev@,
                self.dye_b_prev@ == old(self).dye_b_prev@,
                self.divergence@ == dfield,
                dfield == crate::model::divergence_field(
                    w as int,
                    h as int,
                    old(self).velocity_x@,
                    old(self).velocity_y@,
                    old(self).divergence@,
                ),
                self.divergence@.len() == n,
                self.pressure@.len() == n,
                self.pressure@ == crate::model::pressure_iter(
                    k as nat,
                    w as int,
                    h as int,
                    dfield,
                    crate::model::zeros(n as nat),
                ),
            decreases 20 - k,
        {
            pass_sweep_pressure(w, h, &self.divergence, &mut self.pressure);
            pass_rows_copy(w, h, &mut self.pressure);
            pass_cols_copy(w, h, &mut self.pressure);
            k += 1;
        }
        pass_gradient(w, h, 1, &self.pressure, &mut self.velocity_x);
        pass_gradient(w, h, w, &self.pressure, &mut self.velocity_y);
        pass_zero_border(w, h, &mut self.velocity_x);
        pass_zero_border(w, h, &mut self.velocity_y);
        proof {
            assert(self@ =~~= crate::model::project_spec(old(self)@));
        }
    }

    /// Semi-Lagrangian advection of the velocity: each interior cell
    /// backtraces along the pre-step snapshot field and resamples that
    /// same snapshot, then the no-slip walls are re-applied.
    pub fn advect_velocity(&mut self)
        requires
            old(self).wf(),
        ensures
            final(self).wf(),
            final(self)@ == crate::model::advect_velocity_spec(old(self)@),
    {
        let w = self.width;
        let h = self.height;
        pass_advect(
            w,
            h,
            &self.velocity_x_prev,
            &self.velocity_y_prev,
            &self.velocity_x_prev,
            &mut self.velocity_x,
        );
        pass_advect(
            w,
            h,
            &self.velocity_x_prev,
            &self.velocity_y_prev,
            &self.velocity_y_prev,
            &mut self.velocity_y,
        );
        pass_zero_border(w, h, &mut self.velocity_x);
        pass_zero_border(w, h, &mut self.velocity_y);
        proof {
            assert(self@ =~~= crate::model::advect_velocity_spec(old(self)@));
        }
    }

    /// Two implicit-diffusion sweeps per dye channel, followed by the
    /// mass-conservation correction against the channel's pre-diffusion
    /// total, and a refresh of the dye snapshots so that advection
    /// resamples the diffused field.
    pub fn diffuse_dye(&mut self)
        requires
            old(self).wf(),
        ensures
            final(self).wf(),
            final(self)@ == crate::model::diffuse_dye_spec(old(self)@),
    {
        let w = self.width;
        let h = self.height;
        let wh = w * h;
        proof {
            assert(9 <= (w as int) * (h as int)) by (nonlinear_arith)
                requires
                    3 <= w,
                    3 <= h,
            ;
        }
        let a = calc_coef(DYE_DIFFUSION, wh);
        dye_diffuse_channel(w, h, &self.dye_r_prev, &mut self.dye_r, a);
        self.dye_r_prev = buf_copy(&self.dye_r);
        dye_diffuse_channel(w, h, &self.dye_g_prev, &mut self.dye_g, a);
        self.dye_g_prev = buf_copy(&self.dye_g);
        dye_diffuse_channel(w, h, &self.dye_b_prev, &mut self.dye_b, a);
        self.dye_b_prev = buf_copy(&self.dye_b);
        proof {
            assert(self@ =~~= crate::model::diffuse_dye_spec(old(self)@));
        }
    }

    /// Semi-Lagrangian advection of each dye channel along the current
    /// velocity field, sampling the diffused snapshot, followed by the
    /// zero-gradient walls and the mass-conservation correction against
    /// the pre-advection totals.
    pub fn advect_dye(&mut self)
        requires
            old(self).wf(),
        ensures
            final(self).wf(),
            final(self)@ == crate::model::advect_dye_spec(old(self)@),
    {
        let w = self.width;
        let h = self.height;
        dye_advect_channel(
            w,
            h,
            &self.velocity_x,
            &self.velocity_y,
            &self.dye_r_prev,
            &mut self.dye_r,
        );
        dye_advect_channel(
            w,
            h,
            &self.velocity_x,
            &self.velocity_y,
            &self.dye_g_prev,
            &mut self.dye_g,
        );
        dye_advect_channel(
            w,
            h,
            &self.velocity_x,
            &self.velocity_y,
            &self.dye_b_prev,
            &mut self.dye_b,
        );
        proof {
            assert(self@ =~~= crate::model::advect_dye_spec(old(self)@));
        }
    }

    /// Enforce both boundary policies: no-slip walls for the velocity and
    /// zero-gradient walls for the dye.
    fn set_boundaries(&mut self)
        requires
            old(self).wf(),
        ensures
            final(self).wf(),
            final(self)@ == crate::model::boundary_spec(old(self)@),
    {
        let w = self.width;
        let h = self.height;
        pass_zero_border(w, h, &mut self.velocity_x);
        pass_zero_border(w, h, &mut self.velocity_y);
        pass_rows_copy(w, h, &mut self.dye_r);
        pass_cols_copy(w, h, &mut self.dye_r);
        pass_rows_copy(w, h, &mut self.dye_g);
        pass_cols_copy(w, h, &mut self.dye_g);
        pass_rows_copy(w, h, &mut self.dye_b);
        pass_cols_copy(w, h, &mut self.dye_b);
        proof {
            crate::passes::lemma_neumann_nonneg(w as int, h as int, old(self).dye_r@);
            crate::passes::lemma_neumann_nonneg(w as int, h as int, old(self).dye_g@);
            crate::passes::lemma_neumann_nonneg(w as int, h as int, old(self).dye_b@);
            assert(self@ =~~= crate::model::boundary_spec(old(self)@));
        }
    }

    /// Advance the simulation by one tick: snapshot, diffuse the velocity,
    /// project, advect the velocity, project again, diffuse the dye,
    /// advect the dye, and enforce both boundary policies.  The stage
    /// order is fixed; each stage consumes buffers the previous one
    /// populated.  After every step all border velocity cells are exactly
    /// zero.
    pub fn step(&mut self)
        requires
            old(self).wf(),
        ensures
            final(self).wf(),
            final(self)@ == crate::model::step_spec(old(self)@),
            forall|i: int|
                0 <= i < final(self)@.w * final(self)@.h && !interior(
                    final(self)@.w,
                    final(self)@.h,
                    i,
                ) ==> final(self)@.vx[i] == 0i64 && final(self)@.vy[i] == 0i64,
    {
        self.velocity_x_prev = buf_copy(&self.velocity_x);
        self.velocity_y_prev = buf_copy(&self.velocity_y);
        self.dye_r_prev = buf_copy(&self.dye_r);
        self.dye_g_prev = buf_copy(&self.dye_g);
        self.dye_b_prev = buf_copy(&self.dye_b);
        proof {
            assert(self@ =~~= crate::model::snapshot_spec(old(self)@));
        }
        self.diffuse_velocity();
        self.project_velocity();
        self.advect_velocity();
        self.project_velocity();
        self.diffuse_dye();
        self.advect_dye();
        self.set_boundaries();
    }
}

/// The disk radius used when momentum is injected through the
/// `FluidSimulation` interface (3 cells, in fixed point).
pub const DEFAULT_FORCE_RADIUS: i64 = 12884901888;

/// The capability set shared by fluid solvers: advancing time and
/// injecting dye and momentum.  `sim_inv` is the solver's own
/// well-formedness condition, preserved by every operation.
pub trait FluidSimulation {
    spec fn sim_inv(&self) -> bool;

    fn step(&mut self)
        requires
            old(self).sim_inv(),
        ensures
            final(self).sim_inv(),
    ;

    fn add_force(&mut self, x: usize, y: usize, force: (i64, i64))
        requires
            old(self).sim_inv(),
        ensures
            final(self).sim_inv(),
    ;

    fn add_dye(&mut self, x: usize, y: usize, color: (i64, i64, i64))
        requires
            old(self).sim_inv(),
            color.0 >= 0,
            color.1 >= 0,
            color.2 >= 0,
        ensures
            final(self).sim_inv(),
    ;

    fn width(&self) -> usize;

    fn height(&self) -> usize;
}

impl FluidSimulation for FluidGrid {
    open spec fn sim_inv(&self) -> bool {
        self.wf()
    }

    fn step(&mut self) {
        FluidGrid::step(self)
    }

    fn add_force(&mut self, x: usize, y: usize, force: (i64, i64)) {
        FluidGrid::add_force(self, x, y, force, DEFAULT_FORCE_RADIUS)
    }

    fn add_dye(&mut self, x: usize, y: usize, color: (i64, i64, i64)) {
        FluidGrid::add_dye(self, x, y, color)
    }

    fn width(&self) -> usize {
        self.width
    }

    fn height(&self) -> usize {
        self.height
    }
}

/// Diffuse one dye channel: two Jacobi sweeps sourced from `src`, each
/// followed by the zero-gradient walls, then the mass correction that
/// restores the channel's pre-diffusion total.
fn dye_diffuse_channel(w: usize, h: usize, src: &Vec<i64>, cur: &mut Vec<i64>, a: i64)
    requires
        3 <= w,
        3 <= h,
        w * h <= MAX_CELLS,
        src@.len() == w * h,
        old(cur)@.len() == w * h,
        0 <= a < 0x4000000000000,
        nonneg(src@),
        nonneg(old(cur)@),
    ensures
        final(cur)@ == crate::model::mass_correct(
            crate::model::dye_diffuse_iter(2, w as int, h as int, src@, old(cur)@, a as int),
            crate::model::seq_sum(old(cur)@),
        ),
        final(cur)@.len() == w * h,
        nonneg(final(cur)@),
{
    let pre = calc_sum(cur);
    let mut k: usize = 0;
    while k < 2
        invariant
            k <= 2,
            3 <= w,
            3 <= h,
            w * h <= MAX_CELLS,
            src@.len() == w * h,
            0 <= a < 0x4000000000000,
            cur@.len() == w * h,
            cur@ == crate::model::dye_diffuse_iter(
                k as nat,
                w as int,
                h as int,
                src@,
                old(cur)@,
                a as int,
            ),
        decreases 2 - k,
    {
        pass_sweep_diffuse(w, h, src, cur, a);
        pass_rows_copy(w, h, cur);
        pass_cols_copy(w, h, cur);
        k += 1;
    }
    proof {
        crate::passes::lemma_dye_iter_nonneg(
            2,
            w as int,
            h as int,
            src@,
            old(cur)@,
            a as int,
        );
        crate::passes::lemma_seq_sum_nonneg(old(cur)@);
    }
    let post = calc_sum(cur);
    if post > 0 {
        let ratio = calc_ratio(pre, post);
        pass_rescale(ratio, cur);
        proof {
            crate::passes::lemma_mass_correct_nonneg(
                crate::model::dye_diffuse_iter(2, w as int, h as int, src@, old(cur)@, a as int),
                crate::model::seq_sum(old(cur)@),
            );
        }
    }
}

/// Advect one dye channel along `(btx, bty)`, sampling `src`, then apply
/// the zero-gradient walls and the mass correction that restores the
/// snapshot's total.
fn dye_advect_channel(
    w: usize,
    h: usize,
    btx: &Vec<i64>,
    bty: &Vec<i64>,
    src: &Vec<i64>,
    cur: &mut Vec<i64>,
)
    requires
        3 <= w,
        3 <= h,
        w * h <= MAX_CELLS,
        btx@.len() == w * h,
        bty@.len() == w * h,
        src@.len() == w * h,
        old(cur)@.len() == w * h,
        nonneg(src@),
        nonneg(old(cur)@),
    ensures
        final(cur)@ == crate::model::mass_correct(
            crate::model::neumann(
                w as int,
                h as int,
                crate::model::advected(w as int, h as int, btx@, bty@, src@, old(cur)@),
            ),
            crate::model::seq_sum(src@),
        ),
        final(cur)@.len() == w * h,
        nonneg(final(cur)@),
{
    let pre = calc_sum(src);
    pass_advect(w, h, btx, bty, src, cur);
    pass_rows_copy(w, h, cur);
    pass_cols_copy(w, h, cur);
    proof {
        crate::passes::lemma_advected_nonneg(w as int, h as int, btx@, bty@, src@, old(cur)@);
        crate::passes::lemma_neumann_nonneg(
            w as int,
            h as int,
            crate::model::advected(w as int, h as int, btx@, bty@, src@, old(cur)@),
        );
        crate::passes::lemma_seq_sum_nonneg(src@);
    }
    let post = calc_sum(cur);
    if post > 0 {
        let ratio = calc_ratio(pre, post);
        pass_rescale(ratio, cur);
        proof {
            crate::passes::lemma_mass_correct_nonneg(
                crate::model::neumann(
                    w as int,
                    h as int,
                    crate::model::advected(w as int, h as int, btx@, bty@, src@, old(cur)@),
                ),
                crate::model::seq_sum(src@),
            );
        }
    }
}

} // verus!
