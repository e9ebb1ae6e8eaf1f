//! Tone-mapping of grid state to raw RGB pixel buffers.
//!
//! The renderer scales a simulation grid to an output resolution by
//! nearest-neighbour sampling and maps fixed-point scalars to bytes:
//! dye channels are clamped to `[0, 1]` and scaled to `[0, 255]`,
//! velocity magnitudes are scaled and saturated.  Writing the bytes to an
//! image file is left to callers outside the library.

use vstd::prelude::*;
use crate::fixed::{ONE, MAX_CELLS};
use crate::grid::FluidGrid;
use crate::model::gidx;
use crate::passes::lemma_cell_decomp;
use vstd::arithmetic::div_mod::{
    lemma_div_pos_is_pos, lemma_multiply_divide_lt, lemma_multiply_divide_le,
};

verus! {

/// Map one dye scalar to a byte: clamp to `[0, ONE]`, then scale to 255.
pub open spec fn tone(v: int) -> int {
    (crate::model::clamp(v, 0, ONE as int) * 255) / (ONE as int)
}

/// Map one velocity scalar to a byte: scale the magnitude by 255 and
/// saturate at 255.
pub open spec fn vel_tone(v: int) -> int {
    let m = if v < 0 {
        -v
    } else {
        v
    };
    if (m * 255) / (ONE as int) > 255 {
        255
    } else {
        (m * 255) / (ONE as int)
    }
}

/// The simulation cell that output pixel `p` samples, by
/// nearest-neighbour scaling of a `ow x oh` image onto a `w x h` grid.
pub open spec fn src_cell(w: int, h: int, ow: int, oh: int, p: int) -> int {
    gidx(w, ((p % ow) * w) / ow, ((p / ow) * h) / oh)
}

/// Executable dye tone map.
pub fn calc_tone(v: i64) -> (r: u8)
    ensures
        r as int == tone(v as int),
{
    let c: i64 = if v < 0 {
        0
    } else if v > ONE {
        ONE
    } else {
        v
    };
    proof {
        lemma_div_pos_is_pos(c as int * 255, ONE as int);
        lemma_multiply_divide_le(c as int * 255, ONE as int, 255);
        assert(c as int * 255 <= (ONE as int) * 255) by (nonlinear_arith)
            requires
                0 <= c <= ONE as int,
        ;
    }
    ((c * 255) / ONE) as u8
}

/// Executable velocity tone map.
pub fn calc_vel_tone(v: i64) -> (r: u8)
    ensures
        r as int == vel_tone(v as int),
{
    let m: i128 = if v < 0 {
        -(v as i128)
    } else {
        v as i128
    };
    let t: i128 = (m * 255) / (ONE as i128);
    proof {
        lemma_div_pos_is_pos(m as int * 255, ONE as int);
    }
    if t > 255 {
        255
    } else {
        t as u8
    }
}

/// Scales simulation grids to a fixed output resolution.
pub struct Renderer {
    pub width: u32,
    pub height: u32,
}

impl Renderer {
    /// A renderer for an output image of `width x height` pixels.
    pub fn new(width: u32, height: u32) -> (r: Renderer)
        ensures
            r.width == width,
            r.height == height,
    {
        Renderer { width, height }
    }

    /// Raw RGB bytes (three per pixel, row-major) visualising the dye
    /// field: each output pixel nearest-neighbour samples the grid and
    /// tone-maps the three dye channels.
    pub fn render_dye(&self, g: &FluidGrid) -> (out: Vec<u8>)
        requires
            g.wf(),
            self.width * self.height <= MAX_CELLS,
        ensures
            out@.len() == 3 * (self.width * self.height),
            forall|p: int|
                0 <= p < self.width * self.height ==> #[trigger] out@[3 * p] == tone(
                    g@.r[src_cell(g@.w, g@.h, self.width as int, self.height as int, p)] as int,
                ),
            forall|p: int|
                0 <= p < self.width * self.height ==> #[trigger] out@[3 * p + 1] == tone(
                    g@.g[src_cell(g@.w, g@.h, self.width as int, self.height as int, p)] as int,
                ),
            forall|p: int|
                0 <= p < self.width * self.height ==> #[trigger] out@[3 * p + 2] == tone(
                    g@.b[src_cell(g@.w, g@.h, self.width as int, self.height as int, p)] as int,
                ),
    {
        let ow = self.width as usize;
        let oh = self.height as usize;
        if ow == 0 || oh == 0 {
            let out: Vec<u8> = Vec::new();
            proof {
                assert(ow * oh == 0) by (nonlinear_arith)
                    requires
                        ow == 0 || oh == 0,
                ;
            }
            return out;
        }
        proof {
            assert(ow as int <= (ow as int) * (oh as int) && oh as int <= (ow as int) * (oh
                as int)) by (nonlinear_arith)
                requires
                    1 <= ow,
                    1 <= oh,
            ;
        }
        let n = ow * oh;
        let mut out: Vec<u8> = Vec::new();
        let mut p: usize = 0;
        while p < n
            invariant
                p <= n,
                n == ow * oh,
                1 <= ow <= MAX_CELLS,
                1 <= oh <= MAX_CELLS,
                n <= MAX_CELLS,
                ow == self.width,
                oh == self.height,
                g.wf(),
                out@.len() == 3 * p,
                forall|j: int|
                    0 <= j < p ==> #[trigger] out@[3 * j] == tone(
                        g@.r[src_cell(g@.w, g@.h, ow as int, oh as int, j)] as int,
                    ),
                forall|j: int|
                    0 <= j < p ==> #[trigger] out@[3 * j + 1] == tone(
                        g@.g[src_cell(g@.w, g@.h, ow as int, oh as int, j)] as int,
                    ),
                forall|j: int|
                    0 <= j < p ==> #[trigger] out@[3 * j + 2] == tone(
                        g@.b[src_cell(g@.w, g@.h, ow as int, oh as int, j)] as int,
                    ),
            decreases n - p,
        {
            let px = p % ow;
            let py = p / ow;
            proof {
                lemma_cell_decomp(ow as int, oh as int, p as int);
                assert(g@.w <= g@.w * g@.h && g@.h <= g@.w * g@.h) by (nonlinear_arith)
                    requires
                        1 <= g@.w,
                        1 <= g@.h,
                ;
                assert((px as int) * g@.w < (ow as int) * g@.w) by (nonlinear_arith)
                    requires
                        0 <= (px as int) && (px as int) < (ow as int),
                        3 <= g@.w,
                ;
                lemma_multiply_divide_lt((px as int) * g@.w, ow as int, g@.w);
                assert((ow as int) * g@.w == g@.w * (ow as int)) by (nonlinear_arith);
                lemma_div_pos_is_pos((px as int) * g@.w, ow as int);
                assert((py as int) * g@.h < (oh as int) * g@.h) by (nonlinear_arith)
                    requires
                        0 <= (py as int) && (py as int) < (oh as int),
                        3 <= g@.h,
                ;
                lemma_multiply_divide_lt((py as int) * g@.h, oh as int, g@.h);
                assert((oh as int) * g@.h == g@.h * (oh as int)) by (nonlinear_arith);
                lemma_div_pos_is_pos((py as int) * g@.h, oh as int);
                assert(0 <= (px as int) * g@.w < 0x1000000000000 && 0 <= (py as int) * g@.h
                    < 0x1000000000000) by (nonlinear_arith)
                    requires
                        0 <= (px as int) && (px as int) < 0x1000000,
                        0 <= (py as int) && (py as int) < 0x1000000,
                        0 <= g@.w <= 0x1000000,
                        0 <= g@.h <= 0x1000000,
                ;
            }
            let sx = (((px as u64) * (g.width as u64)) / (ow as u64)) as usize;
            let sy = (((py as u64) * (g.height as u64)) / (oh as u64)) as usize;
            proof {
                assert((sy as int) * g@.w + sx < g@.w * g@.h) by (nonlinear_arith)
                    requires
                        0 <= (sx as int) && (sx as int) < g@.w,
                        0 <= (sy as int) && (sy as int) < g@.h,
                ;
            }
            let cell = sy * g.width + sx;
            let ghost prev = out@;
            out.push(calc_tone(g.dye_r[cell]));
            out.push(calc_tone(g.dye_g[cell]));
            out.push(calc_tone(g.dye_b[cell]));
            proof {
                assert(src_cell(g@.w, g@.h, ow as int, oh as int, p as int) == cell as int);
                assert forall|j: int|
                    0 <= j < p as int + 1 implies #[trigger] out@[3 * j] == tone(
                    g@.r[src_cell(g@.w, g@.h, ow as int, oh as int, j)] as int,
                ) by {
                    if j < p as int {
                        assert(out@[3 * j] == prev[3 * j]);
                    }
                }
                assert forall|j: int|
                    0 <= j < p as int + 1 implies #[trigger] out@[3 * j + 1] == tone(
                    g@.g[src_cell(g@.w, g@.h, ow as int, oh as int, j)] as int,
                ) by {
                    if j < p as int {
                        assert(out@[3 * j + 1] == prev[3 * j + 1]);
                    }
                }
                assert forall|j: int|
                    0 <= j < p as int + 1 implies #[trigger] out@[3 * j + 2] == tone(
                    g@.b[src_cell(g@.w, g@.h, ow as int, oh as int, j)] as int,
                ) by {
                    if j < p as int {
                        assert(out@[3 * j + 2] == prev[3 * j + 2]);
                    }
                }
            }
            p += 1;
        }
        proof {
            assert(ow as int == self.width as int && oh as int == self.height as int);
        }
        out
    }

    /// Raw RGB bytes visualising the velocity field: red for the x
    /// component's magnitude, green for the y component's, constant blue.
    pub fn render_velocity(&self, g: &FluidGrid) -> (out: Vec<u8>)
        requires
            g.wf(),
            self.width * self.height <= MAX_CELLS,
        ensures
            out@.len() == 3 * (self.width * self.height),
            forall|p: int|
                0 <= p < self.width * self.height ==> #[trigger] out@[3 * p] == vel_tone(
                    g@.vx[src_cell(g@.w, g@.h, self.width as int, self.height as int, p)] as int,
                ),
            forall|p: int|
                0 <= p < self.width * self.height ==> #[trigger] out@[3 * p + 1] == vel_tone(
                    g@.vy[src_cell(g@.w, g@.h, self.width as int, self.height as int, p)] as int,
                ),
            forall|p: int|
                0 <= p < self.width * self.height ==> #[trigger] out@[3 * p + 2] == 128,
    {
        let ow = self.width as usize;
        let oh = self.height as usize;
        if ow == 0 || oh == 0 {
            let out: Vec<u8> = Vec::new();
            proof {
                assert(ow * oh == 0) by (nonlinear_arith)
                    requires
                        ow == 0 || oh == 0,
                ;
            }
            return out;
        }
        proof {
            assert(ow as int <= (ow as int) * (oh as int) && oh as int <= (ow as int) * (oh
                as int)) by (nonlinear_arith)
                requires
                    1 <= ow,
                    1 <= oh,
            ;
        }
        let n = ow * oh;
        let mut out: Vec<u8> = Vec::new();
        let mut p: usize = 0;
        while p < n
            invariant
                p <= n,
                n == ow * oh,
                1 <= ow <= MAX_CELLS,
                1 <= oh <= MAX_CELLS,
                n <= MAX_CELLS,
                ow == self.width,
                oh == self.height,
                g.wf(),
                out@.len() == 3 * p,
                forall|j: int|
                    0 <= j < p ==> #[trigger] out@[3 * j] == vel_tone(
                        g@.vx[src_cell(g@.w, g@.h, ow as int, oh as int, j)] as int,
                    ),
                forall|j: int|
                    0 <= j < p ==> #[trigger] out@[3 * j + 1] == vel_tone(
                        g@.vy[src_cell(g@.w, g@.h, ow as int, oh as int, j)] as int,
                    ),
                forall|j: int|
                    0 <= j < p ==> #[trigger] out@[3 * j + 2] == 128,
            decreases n - p,
        {
            let px = p % ow;
            let py = p / ow;
            proof {
                lemma_cell_decomp(ow as int, oh as int, p as int);
                assert(g@.w <= g@.w * g@.h && g@.h <= g@.w * g@.h) by (nonlinear_arith)
                    requires
                        1 <= g@.w,
                        1 <= g@.h,
                ;
                assert((px as int) * g@.w < (ow as int) * g@.w) by (nonlinear_arith)
                    requires
                        0 <= (px as int) && (px as int) < (ow as int),
                        3 <= g@.w,
                ;
                lemma_multiply_divide_lt((px as int) * g@.w, ow as int, g@.w);
                assert((ow as int) * g@.w == g@.w * (ow as int)) by (nonlinear_arith);
                lemma_div_pos_is_pos((px as int) * g@.w, ow as int);
                assert((py as int) * g@.h < (oh as int) * g@.h) by (nonlinear_arith)
                    requires
                        0 <= (py as int) && (py as int) < (oh as int),
                        3 <= g@.h,
                ;
                lemma_multiply_divide_lt((py as int) * g@.h, oh as int, g@.h);
                assert((oh as int) * g@.h == g@.h * (oh as int)) by (nonlinear_arith);
                lemma_div_pos_is_pos((py as int) * g@.h, oh as int);
                assert(0 <= (px as int) * g@.w < 0x1000000000000 && 0 <= (py as int) * g@.h
                    < 0x1000000000000) by (nonlinear_arith)
                    requires
                        0 <= (px as int) && (px as int) < 0x1000000,
                        0 <= (py as int) && (py as int) < 0x1000000,
                        0 <= g@.w <= 0x1000000,
                        0 <= g@.h <= 0x1000000,
                ;
            }
            let sx = (((px as u64) * (g.width as u64)) / (ow as u64)) as usize;
            let sy = (((py as u64) * (g.height as u64)) / (oh as u64)) as usize;
            proof {
                assert((sy as int) * g@.w + sx < g@.w * g@.h) by (nonlinear_arith)
                    requires
                        0 <= (sx as int) && (sx as int) < g@.w,
                        0 <= (sy as int) && (sy as int) < g@.h,
                ;
            }
            let cell = sy * g.width + sx;
            let ghost prev = out@;
            out.push(calc_vel_tone(g.velocity_x[cell]));
            out.push(calc_vel_tone(g.velocity_y[cell]));
            out.push(128);
            proof {
                assert(src_cell(g@.w, g@.h, ow as int, oh as int, p as int) == cell as int);
                assert forall|j: int|
                    0 <= j < p as int + 1 implies #[trigger] out@[3 * j] == vel_tone(
                    g@.vx[src_cell(g@.w, g@.h, ow as int, oh as int, j)] as int,
                ) by {
                    if j < p as int {
                        assert(out@[3 * j] == prev[3 * j]);
                    }
                }
                assert forall|j: int|
                    0 <= j < p as int + 1 implies #[trigger] out@[3 * j + 1] == vel_tone(
                    g@.vy[src_cell(g@.w, g@.h, ow as int, oh as int, j)] as int,
                ) by {
                    if j < p as int {
                        assert(out@[3 * j + 1] == prev[3 * j + 1]);
                    }
                }
                assert forall|j: int|
                    0 <= j < p as int + 1 implies #[trigger] out@[3 * j + 2] == 128 by {
                    if j < p as int {
                        assert(out@[3 * j + 2] == prev[3 * j + 2]);
                    }
                }
            }
            p += 1;
        }
        proof {
            assert(ow as int == self.width as int && oh as int == self.height as int);
        }
        out
    }
}

} // verus!
