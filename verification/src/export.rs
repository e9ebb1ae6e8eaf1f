//! Frame production for image export.
//!
//! `ImageExporter` turns grid state into raw RGB frames at a fixed output
//! resolution.  Encoding those frames as image files and writing them to
//! disk is I/O and lives outside the library; callers hand the bytes to
//! whatever encoder they use.

use vstd::prelude::*;
use crate::fixed::MAX_CELLS;
use crate::grid::FluidGrid;
use crate::render::{Renderer, tone, vel_tone, src_cell};

verus! {

/// Produces raw RGB frames of a simulation at a fixed output resolution.
pub struct ImageExporter {
    pub renderer: Renderer,
}

impl ImageExporter {
    /// An exporter producing frames of `width x height` pixels.
    pub fn new(width: u32, height: u32) -> (e: ImageExporter)
        ensures
            e.renderer.width == width,
            e.renderer.height == height,
    {
        ImageExporter { renderer: Renderer::new(width, height) }
    }

    /// One raw RGB frame of the dye field.
    pub fn density_frame(&self, g: &FluidGrid) -> (out: Vec<u8>)
        requires
            g.wf(),
            self.renderer.width * self.renderer.height <= MAX_CELLS,
        ensures
            out@.len() == 3 * (self.renderer.width * self.renderer.height),
            forall|p: int|
                0 <= p < self.renderer.width * self.renderer.height ==> #[trigger] out@[3 * p]
                    == tone(
                    g@.r[src_cell(
                        g@.w,
                        g@.h,
                        self.renderer.width as int,
                        self.renderer.height as int,
                        p,
                    )] as int,
                ),
            forall|p: int|
                0 <= p < self.renderer.width * self.renderer.height ==> #[trigger] out@[3 * p + 1]
                    == tone(
                    g@.g[src_cell(
                        g@.w,
                        g@.h,
                        self.renderer.width as int,
                        self.renderer.height as int,
                        p,
                    )] as int,
                ),
            forall|p: int|
                0 <= p < self.renderer.width * self.renderer.height ==> #[trigger] out@[3 * p + 2]
                    == tone(
                    g@.b[src_cell(
                        g@.w,
                        g@.h,
                        self.renderer.width as int,
                        self.renderer.height as int,
                        p,
                    )] as int,
                ),
    {
        self.renderer.render_dye(g)
    }

    /// One raw RGB frame of the velocity field.
    pub fn velocity_frame(&self, g: &FluidGrid) -> (out: Vec<u8>)
        requires
            g.wf(),
            self.renderer.width * self.renderer.height <= MAX_CELLS,
        ensures
            out@.len() == 3 * (self.renderer.width * self.renderer.height),
            forall|p: int|
                0 <= p < self.renderer.width * self.renderer.height ==> #[trigger] out@[3 * p]
                    == vel_tone(
                    g@.vx[src_cell(
                        g@.w,
                        g@.h,
                        self.renderer.width as int,
                        self.renderer.height as int,
                        p,
                    )] as int,
                ),
            forall|p: int|
                0 <= p < self.renderer.width * self.renderer.height ==> #[trigger] out@[3 * p + 1]
                    == vel_tone(
                    g@.vy[src_cell(
                        g@.w,
                        g@.h,
                        self.renderer.width as int,
                        self.renderer.height as int,
                        p,
                    )] as int,
                ),
            forall|p: int|
                0 <= p < self.renderer.width * self.renderer.height ==> #[trigger] out@[3 * p + 2]
                    == 128,
    {
        self.renderer.render_velocity(g)
    }
}

} // verus!
