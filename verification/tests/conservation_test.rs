use itsliquid::FluidGrid;

/// Fixed-point value of `v` (32 fractional bits).
fn fx(v: f64) -> i64 {
    (v * 4294967296.0).round() as i64
}

fn total(buf: &[i64]) -> f64 {
    let s: i128 = buf.iter().map(|&v| v as i128).sum();
    s as f64 / 4294967296.0
}

#[test]
fn test_dye_mass_conservation() {
    let mut sim = FluidGrid::new(100, 100);

    // Add some dye
    sim.add_dye(50, 50, (fx(5.0), fx(3.0), fx(2.0)));

    // Calculate initial total dye
    let initial_r = total(&sim.dye_r);
    let initial_g = total(&sim.dye_g);
    let initial_b = total(&sim.dye_b);

    println!(
        "Initial dye: R={:.6}, G={:.6}, B={:.6}",
        initial_r, initial_g, initial_b
    );

    // Add some velocity to make dye move
    sim.add_force(50, 50, (fx(10.0), fx(5.0)), fx(2.0));

    // Run 50 steps
    for step in 0..50 {
        sim.step();

        let current_r = total(&sim.dye_r);
        let current_g = total(&sim.dye_g);
        let current_b = total(&sim.dye_b);

        if step % 10 == 0 {
            println!(
                "Step {}: R={:.6}, G={:.6}, B={:.6}",
                step, current_r, current_g, current_b
            );
        }

        // Check conservation (allow small error from diffusion)
        // Advection should conserve exactly, but diffusion may reduce slightly
        let r_loss = (initial_r - current_r) / initial_r;
        let g_loss = (initial_g - current_g) / initial_g;
        let b_loss = (initial_b - current_b) / initial_b;

        // Allow up to 1% loss per step due to diffusion (very conservative)
        assert!(
            r_loss < 0.01 * (step + 1) as f64,
            "Step {}: Red dye loss {:.2}% exceeds limit",
            step,
            r_loss * 100.0
        );
        assert!(
            g_loss < 0.01 * (step + 1) as f64,
            "Step {}: Green dye loss {:.2}% exceeds limit",
            step,
            g_loss * 100.0
        );
        assert!(
            b_loss < 0.01 * (step + 1) as f64,
            "Step {}: Blue dye loss {:.2}% exceeds limit",
            step,
            b_loss * 100.0
        );
    }

    let final_r = total(&sim.dye_r);
    let final_g = total(&sim.dye_g);
    let final_b = total(&sim.dye_b);

    println!(
        "Final dye: R={:.6}, G={:.6}, B={:.6}",
        final_r, final_g, final_b
    );
    println!(
        "Loss: R={:.2}%, G={:.2}%, B={:.2}%",
        (initial_r - final_r) / initial_r * 100.0,
        (initial_g - final_g) / initial_g * 100.0,
        (initial_b - final_b) / initial_b * 100.0
    );
}
