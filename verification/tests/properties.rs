use itsliquid::FluidGrid;

/// Fixed-point value of `v` (32 fractional bits).
fn fx(v: f64) -> i64 {
    (v * 4294967296.0).round() as i64
}

fn total(buf: &[i64]) -> f64 {
    let s: i128 = buf.iter().map(|&v| v as i128).sum();
    s as f64 / 4294967296.0
}

/// Mean absolute divergence over the interior, computed with the solver's
/// own central-difference stencil.
fn mean_abs_divergence(sim: &FluidGrid) -> f64 {
    let w = sim.width;
    let h = sim.height;
    let hcoef: i128 = 4294967296i128 / w as i128;
    let mut sum: f64 = 0.0;
    let mut cells: u64 = 0;
    for y in 1..h - 1 {
        for x in 1..w - 1 {
            let i = y * w + x;
            let diff = (sim.velocity_x[i + 1] as i128 - sim.velocity_x[i - 1] as i128)
                + (sim.velocity_y[i + w] as i128 - sim.velocity_y[i - w] as i128);
            let d = -(hcoef * diff) / (2 * 4294967296i128);
            sum += (d as f64 / 4294967296.0).abs();
            cells += 1;
        }
    }
    sum / cells as f64
}

/// Every border velocity cell is exactly zero after each step.
#[test]
fn boundary_velocity_zero_after_steps() {
    let mut sim = FluidGrid::new(20, 16);
    sim.add_dye(10, 8, (fx(1.0), fx(0.5), fx(0.2)));
    for k in 0..8 {
        sim.add_force(3 + k, 8, (fx(5.0), fx(-3.0)), fx(2.5));
        sim.step();
        let w = sim.width;
        let h = sim.height;
        for x in 0..w {
            assert_eq!(sim.velocity_x[x], 0);
            assert_eq!(sim.velocity_y[x], 0);
            assert_eq!(sim.velocity_x[(h - 1) * w + x], 0);
            assert_eq!(sim.velocity_y[(h - 1) * w + x], 0);
        }
        for y in 0..h {
            assert_eq!(sim.velocity_x[y * w], 0);
            assert_eq!(sim.velocity_y[y * w], 0);
            assert_eq!(sim.velocity_x[y * w + w - 1], 0);
            assert_eq!(sim.velocity_y[y * w + w - 1], 0);
        }
    }
}

/// With the dye kept away from the walls, each channel's mass drifts by
/// less than one part in ten thousand over 50 steps.
#[test]
fn mass_conservation_tight() {
    let mut sim = FluidGrid::new(100, 100);
    sim.add_dye(50, 50, (fx(5.0), fx(3.0), fx(2.0)));
    let initial_r = total(&sim.dye_r);
    let initial_g = total(&sim.dye_g);
    let initial_b = total(&sim.dye_b);
    for _ in 0..50 {
        sim.step();
    }
    assert!(((total(&sim.dye_r) - initial_r) / initial_r).abs() < 1e-4);
    assert!(((total(&sim.dye_g) - initial_g) / initial_g).abs() < 1e-4);
    assert!(((total(&sim.dye_b) - initial_b) / initial_b).abs() < 1e-4);
}

/// Projection strictly reduces the mean absolute divergence of a field
/// that momentum was just injected into.
#[test]
fn projection_reduces_divergence() {
    let mut sim = FluidGrid::new(50, 50);
    sim.add_force(25, 25, (fx(10.0), fx(0.0)), fx(2.0));
    let before = mean_abs_divergence(&sim);
    assert!(before > 0.0);
    sim.project_velocity();
    let after = mean_abs_divergence(&sim);
    assert!(
        after < before,
        "divergence should shrink: before={}, after={}",
        before,
        after
    );
}

/// Two sequential add_dye calls at one cell equal one call with the
/// summed colour.
#[test]
fn add_dye_additivity() {
    let mut a = FluidGrid::new(12, 12);
    a.add_dye(6, 6, (fx(0.75), fx(0.25), fx(0.125)));
    a.add_dye(6, 6, (fx(0.5), fx(0.5), fx(0.25)));

    let mut b = FluidGrid::new(12, 12);
    b.add_dye(6, 6, (fx(0.75) + fx(0.5), fx(0.25) + fx(0.5), fx(0.125) + fx(0.25)));

    assert_eq!(a.dye_r, b.dye_r);
    assert_eq!(a.dye_g, b.dye_g);
    assert_eq!(a.dye_b, b.dye_b);
}

/// An out-of-range add_dye leaves every buffer untouched.
#[test]
fn add_dye_out_of_bounds_is_noop() {
    let mut sim = FluidGrid::new(10, 10);
    sim.add_dye(4, 4, (fx(1.0), 0, 0));
    let snapshot = (
        sim.dye_r.clone(),
        sim.dye_g.clone(),
        sim.dye_b.clone(),
        sim.velocity_x.clone(),
        sim.velocity_y.clone(),
    );
    sim.add_dye(10, 4, (fx(3.0), fx(3.0), fx(3.0)));
    sim.add_dye(4, 10, (fx(3.0), fx(3.0), fx(3.0)));
    sim.add_dye(100, 100, (fx(3.0), fx(3.0), fx(3.0)));
    assert_eq!(sim.dye_r, snapshot.0);
    assert_eq!(sim.dye_g, snapshot.1);
    assert_eq!(sim.dye_b, snapshot.2);
    assert_eq!(sim.velocity_x, snapshot.3);
    assert_eq!(sim.velocity_y, snapshot.4);
}

/// Two grids driven through an identical call sequence end bit-identical.
#[test]
fn determinism_bit_identical() {
    let mut a = FluidGrid::new(40, 30);
    let mut b = FluidGrid::new(40, 30);
    let drive = |sim: &mut FluidGrid| {
        sim.add_dye(20, 15, (fx(2.0), fx(1.0), fx(0.5)));
        sim.add_force(20, 15, (fx(8.0), fx(-4.0)), fx(3.0));
        for k in 0..6 {
            sim.add_dye(10 + k, 15, (fx(0.1), 0, 0));
            sim.step();
        }
    };
    drive(&mut a);
    drive(&mut b);
    assert_eq!(a.velocity_x, b.velocity_x);
    assert_eq!(a.velocity_y, b.velocity_y);
    assert_eq!(a.velocity_x_prev, b.velocity_x_prev);
    assert_eq!(a.velocity_y_prev, b.velocity_y_prev);
    assert_eq!(a.dye_r, b.dye_r);
    assert_eq!(a.dye_g, b.dye_g);
    assert_eq!(a.dye_b, b.dye_b);
    assert_eq!(a.dye_r_prev, b.dye_r_prev);
    assert_eq!(a.dye_g_prev, b.dye_g_prev);
    assert_eq!(a.dye_b_prev, b.dye_b_prev);
    assert_eq!(a.pressure, b.pressure);
    assert_eq!(a.divergence, b.divergence);
}

/// A unit of dye dropped at the centre of a 10x10 grid spreads to its
/// four neighbours in one step while the total stays at one.
#[test]
fn scenario_dye_spreads_and_conserves() {
    let mut sim = FluidGrid::new(10, 10);
    sim.add_dye(5, 5, (fx(1.0), 0, 0));
    assert!(sim.dye_r[55] > 0);
    for (i, &v) in sim.dye_r.iter().enumerate() {
        if i != 55 {
            assert_eq!(v, 0);
        }
    }

    sim.step();

    assert!(sim.dye_r[55] < fx(1.0), "dye should have diffused outward");
    assert!(
        sim.dye_r[54] + sim.dye_r[56] + sim.dye_r[45] + sim.dye_r[65] > 0,
        "dye should spread to the four neighbours"
    );
    let sum = total(&sim.dye_r);
    assert!((sum - 1.0).abs() < 1e-4, "mass should be conserved, got {}", sum);
}

/// An injected force shows up immediately at the centre cell, spreads
/// across many cells through diffusion and projection, and is no longer
/// concentrated at that single cell after a full step.
#[test]
fn scenario_force_propagates() {
    let mut sim = FluidGrid::new(50, 50);
    sim.add_force(25, 25, (fx(10.0), 0), fx(1.0));
    let idx = 25 * sim.width + 25;
    assert!(sim.velocity_x[idx] > 0);
    let before = sim.velocity_x[idx];

    // Diffusion and projection (the first stages of a step) spread the
    // impulse over many cells.
    sim.velocity_x_prev.copy_from_slice(&sim.velocity_x);
    sim.velocity_y_prev.copy_from_slice(&sim.velocity_y);
    sim.diffuse_velocity();
    sim.project_velocity();
    let moving_cells = sim
        .velocity_x
        .iter()
        .zip(sim.velocity_y.iter())
        .filter(|(&x, &y)| x != 0 || y != 0)
        .count();
    assert!(
        moving_cells > 1,
        "velocity should have propagated beyond a single cell"
    );

    // A full step on a fresh grid: the lone impulse decays, since
    // advection resamples the pre-step snapshot a whole cell upstream.
    let mut sim2 = FluidGrid::new(50, 50);
    sim2.add_force(25, 25, (fx(10.0), 0), fx(1.0));
    sim2.step();
    assert!(
        sim2.velocity_x[idx] < before,
        "centre velocity should no longer be concentrated at one cell"
    );
}

/// The smallest admitted grid runs and keeps its single interior cell.
#[test]
fn minimal_grid() {
    let mut sim = FluidGrid::new(3, 3);
    sim.add_dye(1, 1, (fx(1.0), 0, 0));
    sim.step();
    assert_eq!(sim.width, 3);
    assert!(sim.dye_r[4] > 0);
    for x in 0..3 {
        assert_eq!(sim.velocity_x[x], 0);
        assert_eq!(sim.velocity_x[6 + x], 0);
    }
}

/// A grid with no dye at all steps without mass appearing from nowhere.
#[test]
fn empty_grid_stays_empty() {
    let mut sim = FluidGrid::new(16, 16);
    sim.step();
    sim.step();
    assert!(sim.dye_r.iter().all(|&v| v == 0));
    assert!(sim.dye_g.iter().all(|&v| v == 0));
    assert!(sim.dye_b.iter().all(|&v| v == 0));
}

/// The smallest admitted force radius touches only the centre cell, with
/// the full force.
#[test]
fn force_minimal_radius_hits_centre_only() {
    let mut sim = FluidGrid::new(10, 10);
    sim.add_force(5, 5, (fx(2.0), fx(-1.0)), 0x10000);
    let idx = 5 * sim.width + 5;
    assert_eq!(sim.velocity_x[idx], fx(2.0));
    assert_eq!(sim.velocity_y[idx], fx(-1.0));
    for (i, &v) in sim.velocity_x.iter().enumerate() {
        if i != idx {
            assert_eq!(v, 0);
        }
    }
}
