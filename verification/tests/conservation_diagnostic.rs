use itsliquid::FluidGrid;

/// Fixed-point value of `v` (32 fractional bits).
fn fx(v: f64) -> i64 {
    (v * 4294967296.0).round() as i64
}

fn total(buf: &[i64]) -> f64 {
    let s: i128 = buf.iter().map(|&v| v as i128).sum();
    s as f64 / 4294967296.0
}

#[test]
fn test_conservation_diagnostic() {
    let mut sim = FluidGrid::new(100, 100);

    // Add some dye
    sim.add_dye(50, 50, (fx(10.0), 0, 0));
    sim.add_force(50, 50, (fx(10.0), fx(5.0)), fx(2.0));

    let initial_r = total(&sim.dye_r);
    println!("Initial dye: R={:.12}", initial_r);

    // Manual step with diagnostics
    for step in 0..10 {
        // Before step
        let r_before = total(&sim.dye_r);

        // Copy state
        sim.velocity_x_prev.copy_from_slice(&sim.velocity_x);
        sim.velocity_y_prev.copy_from_slice(&sim.velocity_y);
        sim.dye_r_prev.copy_from_slice(&sim.dye_r);
        sim.dye_g_prev.copy_from_slice(&sim.dye_g);
        sim.dye_b_prev.copy_from_slice(&sim.dye_b);

        let r_after_copy = total(&sim.dye_r);
        println!(
            "\nStep {}: After copy: R={:.12} (delta={:+.12e})",
            step,
            r_after_copy,
            r_after_copy - r_before
        );

        // After velocity operations, check dye
        let r_after_velocity = total(&sim.dye_r);
        println!(
            "Step {}: After velocity ops: R={:.12} (delta={:+.12e})",
            step,
            r_after_velocity,
            r_after_velocity - r_after_copy
        );

        // Just call the full step
        sim.step();

        let r_after = total(&sim.dye_r);
        let loss = r_before - r_after;
        let loss_pct = (loss / r_before) * 100.0;

        println!("Step {}: After full step: R={:.12}", step, r_after);
        println!(
            "Step {}: Loss this step: {:.12} ({:.6e}%)",
            step, loss, loss_pct
        );

        if loss.abs() > 1e-6 {
            println!("WARNING: Significant loss detected!");
        }
    }

    let final_r = total(&sim.dye_r);
    let total_loss = initial_r - final_r;
    let total_loss_pct = (total_loss / initial_r) * 100.0;

    println!("\n=== SUMMARY ===");
    println!("Initial: {:.12}", initial_r);
    println!("Final:   {:.12}", final_r);
    println!("Total loss: {:.12} ({:.6e}%)", total_loss, total_loss_pct);
}
