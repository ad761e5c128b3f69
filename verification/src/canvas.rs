use vstd::pervasive::VecAdditionalExecFns;
use vstd::prelude::*;

use crate::color::{c_black, Color};
use crate::fx::{Fx, SCALE};

verus! {

/// A raster of unclamped colors, row major.
pub struct Canvas {
    pub width: u32,
    pub height: u32,
    pub grid: Vec<Color>,
}

/// A channel scaled from [0.0, 1.0] to [0, 255], truncated toward zero and
/// clamped into that integer range; this is the only place clamping
/// happens.
pub open spec fn clamp_channel(c: int) -> int {
    let scaled = if c >= 0 {
        c * 255 / (SCALE as int)
    } else {
        -((-c) * 255 / (SCALE as int))
    };
    if scaled > 255 {
        255
    } else if scaled < 0 {
        0
    } else {
        scaled
    }
}

impl Canvas {
    pub open spec fn wf(self) -> bool {
        self.grid@.len() == (self.width as int) * (self.height as int)
    }

    /// A canvas of the given size with every pixel black.
    pub fn new(w: u32, h: u32) -> (r: Canvas)
        requires
            (w as int) * (h as int) <= usize::MAX as int,
        ensures
            r.width == w,
            r.height == h,
            r.wf(),
            forall|i: int| 0 <= i < r.grid@.len() ==> r.grid@[i] == c_black(),
    {
        proof {
            assert((w as int) * (h as int) >= 0) by (nonlinear_arith);
        }
        let total: usize = (w as usize) * (h as usize);
        let mut grid: Vec<Color> = Vec::new();
        let mut i: usize = 0;
        while i < total
            invariant
                i <= total,
                grid@.len() == i,
                forall|k: int| 0 <= k < i ==> grid@[k] == c_black(),
            decreases total - i,
        {
            grid.push(Color::black());
            i = i + 1;
        }
        Canvas { width: w, height: h, grid }
    }

    /// The pixel at a row and column; out-of-range indices are excluded.
    pub fn pixel_at(&self, row: u32, col: u32) -> (r: Color)
        requires
            self.wf(),
            row < self.height,
            col < self.width,
        ensures
            r == self.grid@[row as int * self.width as int + col as int],
    {
        proof {
            lemma_cell_in_range(self.width as int, self.height as int, row as int, col as int);
            vstd::std_specs::vec::axiom_spec_len(&self.grid);
        }
        let index64: u64 = (row as u64) * (self.width as u64) + (col as u64);
        let index: usize = index64 as usize;
        self.grid[index]
    }

    /// Overwrites the pixel at a row and column.
    pub fn set_pixel(&mut self, row: u32, col: u32, color: Color)
        requires
            old(self).wf(),
            row < old(self).height,
            col < old(self).width,
        ensures
            final(self).width == old(self).width,
            final(self).height == old(self).height,
            final(self).wf(),
            final(self).grid@ == old(self).grid@.update(
                row as int * old(self).width as int + col as int,
                color,
            ),
    {
        proof {
            lemma_cell_in_range(self.width as int, self.height as int, row as int, col as int);
            vstd::std_specs::vec::axiom_spec_len(&self.grid);
        }
        let index64: u64 = (row as u64) * (self.width as u64) + (col as u64);
        let index: usize = index64 as usize;
        self.grid.set(index, color);
    }

    /// Scales a channel value to the 0..255 range written by image
    /// encoders.
    pub fn clamp(i: Fx) -> (r: u8)
        ensures
            r as int == clamp_channel(i.raw as int),
    {
        if i.raw < 0 {
            proof {
                vstd::arithmetic::div_mod::lemma_div_pos_is_pos(
                    (-(i.raw as int)) * 255,
                    SCALE as int,
                );
                assert((-(i.raw as int)) * 255 >= 0) by (nonlinear_arith)
                    requires
                        i.raw < 0,
                ;
            }
            0
        } else {
            let scaled: u128 = ((i.raw as u128) * 255) / (SCALE as u128);
            if scaled > 255 {
                255
            } else {
                scaled as u8
            }
        }
    }
}

/// A row and column inside the raster index a cell inside the grid.
proof fn lemma_cell_in_range(w: int, h: int, row: int, col: int)
    by (nonlinear_arith)
    requires
        0 <= row < h,
        0 <= col < w,
    ensures
        0 <= row * w + col < w * h,
{
}

} // verus!
