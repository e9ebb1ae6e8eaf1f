use itsliquid::{FluidGrid, ImageExporter, Renderer};

/// Fixed-point value of `v` (32 fractional bits).
fn fx(v: f64) -> i64 {
    (v * 4294967296.0).round() as i64
}

#[test]
fn renderer_creation() {
    let r = Renderer::new(64, 48);
    assert_eq!(r.width, 64);
    assert_eq!(r.height, 48);
}

#[test]
fn exporter_creation() {
    let e = ImageExporter::new(128, 96);
    assert_eq!(e.renderer.width, 128);
    assert_eq!(e.renderer.height, 96);
}

#[test]
fn density_frame_tone_maps_dye() {
    let mut sim = FluidGrid::new(10, 10);
    sim.add_dye(5, 5, (fx(1.0), fx(0.5), fx(2.0)));
    let e = ImageExporter::new(10, 10);
    let frame = e.density_frame(&sim);
    assert_eq!(frame.len(), 300);
    let p = 5 * 10 + 5;
    assert_eq!(frame[3 * p], 255); // 1.0 maps to full red
    assert_eq!(frame[3 * p + 1], 127); // 0.5 maps to half green
    assert_eq!(frame[3 * p + 2], 255); // 2.0 clamps to full blue
    let q = 2 * 10 + 2;
    assert_eq!(frame[3 * q], 0);
    assert_eq!(frame[3 * q + 1], 0);
    assert_eq!(frame[3 * q + 2], 0);
}

#[test]
fn velocity_frame_tone_maps_magnitude() {
    let mut sim = FluidGrid::new(10, 10);
    sim.add_force(5, 5, (fx(-0.5), fx(3.0)), 0x10000);
    let e = ImageExporter::new(10, 10);
    let frame = e.velocity_frame(&sim);
    assert_eq!(frame.len(), 300);
    let p = 5 * 10 + 5;
    assert_eq!(frame[3 * p], 127); // |-0.5| maps to half red
    assert_eq!(frame[3 * p + 1], 255); // 3.0 saturates green
    assert_eq!(frame[3 * p + 2], 128); // constant blue
    let q = 2 * 10 + 2;
    assert_eq!(frame[3 * q], 0);
    assert_eq!(frame[3 * q + 1], 0);
    assert_eq!(frame[3 * q + 2], 128);
}

#[test]
fn render_scales_output_resolution() {
    let mut sim = FluidGrid::new(10, 10);
    sim.add_dye(5, 5, (fx(1.0), 0, 0));
    let r = Renderer::new(20, 20);
    let frame = r.render_dye(&sim);
    assert_eq!(frame.len(), 3 * 20 * 20);
    // Output pixels (10,10), (10,11), (11,10), (11,11) all sample cell (5,5).
    for (px, py) in [(10usize, 10usize), (10, 11), (11, 10), (11, 11)] {
        let p = py * 20 + px;
        assert_eq!(frame[3 * p], 255);
    }
    let p0 = 0usize;
    assert_eq!(frame[3 * p0], 0);
}
