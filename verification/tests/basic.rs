use itsliquid::FluidGrid;
use itsliquid::FluidSimulation;

/// Fixed-point value of `v` (32 fractional bits).
fn fx(v: f64) -> i64 {
    (v * 4294967296.0).round() as i64
}

#[test]
fn test_interactive_fluid_creation() {
    let fluid = FluidGrid::new(50, 50);
    assert_eq!(fluid.width, 50);
    assert_eq!(fluid.height, 50);
    assert_eq!(fluid.velocity_x.len(), 2500);
    assert_eq!(fluid.dye_r.len(), 2500);
}

#[test]
fn test_dye_addition() {
    let mut fluid = FluidGrid::new(10, 10);
    fluid.add_dye(5, 5, (fx(1.0), fx(0.5), fx(0.25)));

    let idx = 5 * 10 + 5;
    assert!(fluid.dye_r[idx] > 0);
    assert!(fluid.dye_g[idx] > 0);
    assert!(fluid.dye_b[idx] > 0);
}

#[test]
fn test_fluid_step() {
    let mut fluid = FluidGrid::new(10, 10);
    fluid.add_dye(5, 5, (fx(1.0), 0, 0));

    // Just verify that step runs without panicking
    fluid.step();

    // Basic sanity check - fluid should still be valid
    assert_eq!(fluid.width, 10);
    assert_eq!(fluid.height, 10);
}

#[test]
fn trait_interface_drives_grid() {
    let mut fluid = FluidGrid::new(20, 20);
    FluidSimulation::add_dye(&mut fluid, 10, 10, (fx(1.0), 0, 0));
    FluidSimulation::add_force(&mut fluid, 10, 10, (fx(4.0), fx(2.0)));
    assert_eq!(FluidSimulation::width(&fluid), 20);
    assert_eq!(FluidSimulation::height(&fluid), 20);
    assert!(fluid.velocity_x[10 * 20 + 10] > 0);
    // The trait injects over a disk of radius 3: a neighbour two cells out
    // must receive a partial share.
    assert!(fluid.velocity_x[10 * 20 + 12] > 0);
    assert!(fluid.velocity_x[10 * 20 + 12] < fluid.velocity_x[10 * 20 + 10]);
    FluidSimulation::step(&mut fluid);
    assert!(fluid.dye_r.iter().any(|&v| v > 0));
}
