//! The solver's global laws, stated and proved against the model.
//!
//! These proof functions are part of the library's public statement: they
//! pin down mass conservation of the dye correction, additivity of dye
//! injection, and determinism of whole call sequences.

use vstd::prelude::*;
use crate::fixed::{ONE, DT, DYE_DIFFUSION};
use crate::model::{
    GridState, wf_state, nonneg, seq_sum, rescale, ratio_spec, mass_correct, add_dye_spec,
    add_force_spec, step_spec, dye_diffuse_iter, dye_coef, diffuse_dye_spec,
};
use crate::passes::{lemma_seq_sum_nonneg, lemma_dye_iter_nonneg};
use vstd::arithmetic::div_mod::{
    lemma_fundamental_div_mod, lemma_mod_division_less_than_divisor, lemma_div_pos_is_pos,
    lemma_div_is_ordered, lemma_div_multiples_vanish,
};

verus! {

/// In a non-negative field, no single cell exceeds the total.
pub proof fn lemma_element_le_sum(f: Seq<i64>, i: int)
    requires
        nonneg(f),
        0 <= i < f.len(),
    ensures
        f[i] <= seq_sum(f),
    decreases f.len(),
{
    assert(nonneg(f.drop_last())) by {
        assert(forall|j: int| 0 <= j < f.len() - 1 ==> f.drop_last()[j] == f[j]);
    }
    if i == f.len() - 1 {
        lemma_seq_sum_nonneg(f.drop_last());
    } else {
        lemma_element_le_sum(f.drop_last(), i);
        assert(f.drop_last()[i] == f[i]);
    }
}

/// Summed bounds of a whole-field rescale by the non-negative factor `q`,
/// provided no cell's product saturates: the scaled total is wedged
/// between `q * total / ONE` exactly computed and that value less one
/// fixed-point rounding unit per cell.
pub proof fn lemma_sum_rescale_bounds(f: Seq<i64>, q: int)
    requires
        nonneg(f),
        0 <= q,
        forall|i: int| 0 <= i < f.len() ==> (f[i] * q) / (ONE as int) <= i64::MAX,
    ensures
        (ONE as int) * seq_sum(rescale(f, q)) <= q * seq_sum(f),
        q * seq_sum(f) <= (ONE as int) * (seq_sum(rescale(f, q)) + f.len()),
    decreases f.len(),
{
    let s = ONE as int;
    let res = rescale(f, q);
    if f.len() == 0 {
        assert(res.len() == 0);
        assert(q * 0 == 0) by (nonlinear_arith);
        assert(s * 0 == 0) by (nonlinear_arith);
    } else {
        let d = f.drop_last();
        assert(nonneg(d) && forall|i: int| 0 <= i < d.len() ==> d[i] == f[i]) by {
            assert(forall|j: int| 0 <= j < f.len() - 1 ==> f.drop_last()[j] == f[j]);
        }
        lemma_sum_rescale_bounds(d, q);
        assert(res.drop_last() =~= rescale(d, q));
        let last = f.last() as int;
        assert(last * q >= 0) by (nonlinear_arith)
            requires
                last >= 0,
                q >= 0,
        ;
        lemma_div_pos_is_pos(last * q, s);
        let e = (last * q) / s;
        assert(res.last() as int == e);
        lemma_fundamental_div_mod(last * q, s);
        lemma_mod_division_less_than_divisor(last * q, s);
        assert(s * e <= last * q < s * (e + 1)) by (nonlinear_arith)
            requires
                last * q == s * e + (last * q) % s,
                0 <= (last * q) % s < s,
        ;
        assert(seq_sum(res) == seq_sum(rescale(d, q)) + e);
        assert(q * seq_sum(f) == q * seq_sum(d) + q * last) by (nonlinear_arith)
            requires
                seq_sum(f) == seq_sum(d) + last,
        ;
        assert(last * q == q * last) by (nonlinear_arith);
        assert(s * (seq_sum(rescale(d, q)) + e) == s * seq_sum(rescale(d, q)) + s * e)
            by (nonlinear_arith);
        assert(s * (seq_sum(rescale(d, q)) + e + d.len() + 1) == s * (seq_sum(rescale(d, q))
            + d.len()) + s * (e + 1)) by (nonlinear_arith);
    }
}

/// Mass conservation of the correction step.
///
/// Whenever a dye channel still holds mass (`seq_sum(f) > 0`), the
/// recorded pre-total is a representable non-negative scalar, and the
/// correction factor does not saturate, the corrected channel's total
/// lands within `len + total/ONE` fixed-point units below the recorded
/// total and never above it: a relative drift of at most one part in
/// `2^32` plus one rounding unit per cell.  `diffuse_dye` and `advect_dye`
/// apply exactly this correction to each channel.
pub proof fn lemma_mass_correct_bound(f: Seq<i64>, pre: int)
    requires
        nonneg(f),
        0 <= pre <= i64::MAX,
        seq_sum(f) > 0,
        (pre * (ONE as int)) / seq_sum(f) <= i64::MAX,
    ensures
        pre - f.len() - seq_sum(f) / (ONE as int) <= seq_sum(mass_correct(f, pre)),
        seq_sum(mass_correct(f, pre)) <= pre,
{
    let s = ONE as int;
    let post = seq_sum(f);
    assert(pre * s >= 0) by (nonlinear_arith)
        requires
            pre >= 0,
            s > 0,
    ;
    let q = (pre * s) / post;
    lemma_div_pos_is_pos(pre * s, post);
    assert(ratio_spec(pre, post) == q);
    assert(mass_correct(f, pre) == rescale(f, q));
    lemma_fundamental_div_mod(pre * s, post);
    lemma_mod_division_less_than_divisor(pre * s, post);
    assert(q * post <= pre * s) by (nonlinear_arith)
        requires
            pre * s == post * q + (pre * s) % post,
            0 <= (pre * s) % post,
    ;
    assert(pre * s < q * post + post) by (nonlinear_arith)
        requires
            pre * s == post * q + (pre * s) % post,
            (pre * s) % post < post,
    ;
    assert forall|i: int| 0 <= i < f.len() implies (f[i] * q) / s <= i64::MAX by {
        lemma_element_le_sum(f, i);
        assert(f[i] * q <= post * q) by (nonlinear_arith)
            requires
                f[i] <= post,
                q >= 0,
        ;
        lemma_div_is_ordered(f[i] * q, pre * s, s);
        lemma_div_multiples_vanish(pre, s);
        assert(pre * s == s * pre) by (nonlinear_arith);
    }
    lemma_sum_rescale_bounds(f, q);
    let total = seq_sum(rescale(f, q));
    // upper bound: s * total <= q * post <= pre * s, so total <= pre
    assert(total <= pre) by (nonlinear_arith)
        requires
            s * total <= q * post,
            q * post <= pre * s,
            s > 0,
    ;
    // lower bound: pre * s < q * post + post < s * (total + len) + post
    assert(s * (pre - total - f.len()) < post) by (nonlinear_arith)
        requires
            pre * s < q * post + post,
            q * post <= s * (total + f.len()),
            s > 0,
    ;
    if pre - total - f.len() > 0 {
        let x = pre - total - f.len();
        assert(s * x <= post - 1);
        lemma_div_is_ordered(s * x, post - 1, s);
        lemma_div_multiples_vanish(x, s);
        lemma_div_is_ordered(post - 1, post, s);
        assert(x <= post / s);
    } else {
        lemma_div_pos_is_pos(post, s);
    }
}

/// The mass law applied to one diffused channel: after `diffuse_dye`, the
/// red channel's total is wedged just below its pre-diffusion total (the
/// green and blue channels satisfy the same bound by the same argument).
pub proof fn lemma_diffuse_dye_mass(s: GridState)
    requires
        wf_state(s),
        seq_sum(dye_diffuse_iter(2, s.w, s.h, s.rp, s.r, dye_coef(s.w * s.h))) > 0,
        seq_sum(s.r) <= i64::MAX,
        (seq_sum(s.r) * (ONE as int)) / seq_sum(
            dye_diffuse_iter(2, s.w, s.h, s.rp, s.r, dye_coef(s.w * s.h)),
        ) <= i64::MAX,
    ensures
        seq_sum(diffuse_dye_spec(s).r) <= seq_sum(s.r),
        seq_sum(s.r) - s.w * s.h - seq_sum(
            dye_diffuse_iter(2, s.w, s.h, s.rp, s.r, dye_coef(s.w * s.h)),
        ) / (ONE as int) <= seq_sum(diffuse_dye_spec(s).r),
{
    let f = dye_diffuse_iter(2, s.w, s.h, s.rp, s.r, dye_coef(s.w * s.h));
    assert(0 <= (DT as int) * (DYE_DIFFUSION as int) * (s.w * s.h)) by (nonlinear_arith)
        requires
            3 <= s.w,
            3 <= s.h,
            DT == 429496730,
            DYE_DIFFUSION == 429497,
    ;
    lemma_div_pos_is_pos((DT as int) * (DYE_DIFFUSION as int) * (s.w * s.h), ONE as int);
    lemma_dye_iter_nonneg(2, s.w, s.h, s.rp, s.r, dye_coef(s.w * s.h));
    lemma_seq_sum_nonneg(s.r);
    lemma_mass_correct_bound(f, seq_sum(s.r));
    assert(diffuse_dye_spec(s).r == mass_correct(f, seq_sum(s.r)));
}

/// The mass law applied to one advected channel: after `advect_dye`, the
/// red channel's total is wedged just below its snapshot total (the green
/// and blue channels satisfy the same bound by the same argument).
pub proof fn lemma_advect_dye_mass(s: GridState)
    requires
        wf_state(s),
        seq_sum(
            crate::model::neumann(s.w, s.h, crate::model::advected(s.w, s.h, s.vx, s.vy, s.rp, s.r)),
        ) > 0,
        seq_sum(s.rp) <= i64::MAX,
        (seq_sum(s.rp) * (ONE as int)) / seq_sum(
            crate::model::neumann(s.w, s.h, crate::model::advected(s.w, s.h, s.vx, s.vy, s.rp, s.r)),
        ) <= i64::MAX,
    ensures
        seq_sum(crate::model::advect_dye_spec(s).r) <= seq_sum(s.rp),
        seq_sum(s.rp) - s.w * s.h - seq_sum(
            crate::model::neumann(s.w, s.h, crate::model::advected(s.w, s.h, s.vx, s.vy, s.rp, s.r)),
        ) / (ONE as int) <= seq_sum(crate::model::advect_dye_spec(s).r),
{
    let f = crate::model::neumann(
        s.w,
        s.h,
        crate::model::advected(s.w, s.h, s.vx, s.vy, s.rp, s.r),
    );
    crate::passes::lemma_advected_nonneg(s.w, s.h, s.vx, s.vy, s.rp, s.r);
    crate::passes::lemma_neumann_nonneg(
        s.w,
        s.h,
        crate::model::advected(s.w, s.h, s.vx, s.vy, s.rp, s.r),
    );
    lemma_seq_sum_nonneg(s.rp);
    lemma_mass_correct_bound(f, seq_sum(s.rp));
    assert(crate::model::advect_dye_spec(s).r == mass_correct(f, seq_sum(s.rp)));
}

/// Additivity of dye injection: adding `c1` and then `c2` at one cell
/// yields exactly the state of a single injection of `c1 + c2`, before
/// any `step`.
pub proof fn lemma_add_dye_additive(
    s: GridState,
    x: int,
    y: int,
    r1: int,
    g1: int,
    b1: int,
    r2: int,
    g2: int,
    b2: int,
)
    requires
        wf_state(s),
        r1 >= 0,
        g1 >= 0,
        b1 >= 0,
        r2 >= 0,
        g2 >= 0,
        b2 >= 0,
    ensures
        add_dye_spec(add_dye_spec(s, x, y, r1, g1, b1), x, y, r2, g2, b2) == add_dye_spec(
            s,
            x,
            y,
            r1 + r2,
            g1 + g2,
            b1 + b2,
        ),
{
    if 0 <= x < s.w && 0 <= y < s.h {
        let i = crate::model::gidx(s.w, x, y);
        assert(0 <= i < s.w * s.h) by (nonlinear_arith)
            requires
                0 <= x < s.w,
                0 <= y < s.h,
                i == y * s.w + x,
        ;
        let lhs = add_dye_spec(add_dye_spec(s, x, y, r1, g1, b1), x, y, r2, g2, b2);
        let rhs = add_dye_spec(s, x, y, r1 + r2, g1 + g2, b1 + b2);
        assert(lhs.r =~= rhs.r);
        assert(lhs.g =~= rhs.g);
        assert(lhs.b =~= rhs.b);
        assert(lhs =~~= rhs);
    }
}

/// One externally visible operation on a grid.
pub enum Command {
    AddDye { x: int, y: int, r: int, g: int, b: int },
    AddForce { x: int, y: int, fx: int, fy: int, radius: int },
    Tick,
}

/// The state after one command.  Each executable method of `FluidGrid` is
/// verified to produce exactly the corresponding case of this function.
pub open spec fn command_spec(s: GridState, c: Command) -> GridState {
    match c {
        Command::AddDye { x, y, r, g, b } => add_dye_spec(s, x, y, r, g, b),
        Command::AddForce { x, y, fx, fy, radius } => add_force_spec(s, x, y, fx, fy, radius),
        Command::Tick => step_spec(s),
    }
}

/// The state after a whole sequence of commands.
pub open spec fn run_spec(s: GridState, cs: Seq<Command>) -> GridState
    decreases cs.len(),
{
    if cs.len() == 0 {
        s
    } else {
        run_spec(command_spec(s, cs[0]), cs.drop_first())
    }
}

/// Determinism: two grids built and driven through an identical sequence
/// of `add_dye` / `add_force` / `step` calls hold bit-identical buffers.
/// Every mutating method of `FluidGrid` has an `ensures` equating its
/// result to a pure function of the previous state and the arguments
/// (`command_spec`), so the end state of any call sequence is the one
/// function `run_spec` of the start state — there is no hidden input.
pub proof fn lemma_run_deterministic(s1: GridState, s2: GridState, cs: Seq<Command>)
    requires
        s1 == s2,
    ensures
        run_spec(s1, cs) == run_spec(s2, cs),
{
}

} // verus!
