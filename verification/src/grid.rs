//! The in-memory pixel buffer the hash kernels consume: a grayscale
//! grid with one luma byte per pixel, row-major.

use vstd::prelude::*;

verus! {

/// A grayscale pixel grid, row-major, one byte per pixel.
#[derive(Debug, Clone)]
pub struct LumaGrid {
    /// Width in pixels.
    pub width: u32,
    /// Height in pixels.
    pub height: u32,
    /// The pixels, row-major: `pixels[y * width + x]`.
    pub pixels: Vec<u8>,
}

impl LumaGrid {
    /// The buffer holds exactly one byte per pixel.
    pub open spec fn wf(&self) -> bool {
        self.pixels@.len() == self.width as int * self.height as int
    }

    /// Build a grid when the buffer length matches the dimensions.
    pub fn new(width: u32, height: u32, pixels: Vec<u8>) -> (r: Option<LumaGrid>)
        ensures
            match r {
                Some(g) => g.width == width && g.height == height && g.pixels == pixels && g.wf(),
                None => pixels@.len() != width as int * height as int,
            },
    {
        proof {
            assert(width as int * height as int <= 0xFFFF_FFFE_0000_0001) by (nonlinear_arith)
                requires
                    width <= 0xFFFF_FFFFu32,
                    height <= 0xFFFF_FFFFu32,
            ;
        }
        let need = (width as u64) * (height as u64);
        if pixels.len() as u64 == need {
            let g = LumaGrid { width, height, pixels };
            proof {
                assert(g.pixels@.len() == g.width as int * g.height as int);
            }
            Some(g)
        } else {
            None
        }
    }

    /// The pixel at column `x` of row `y`.
    pub fn get(&self, x: u32, y: u32) -> (r: u8)
        requires
            self.wf(),
            x < self.width,
            y < self.height,
        ensures
            r == self.pixels@[y as int * self.width as int + x as int],
    {
        let l = self.pixels.len();
        proof {
            assert(y as int * self.width as int + (x as int) < self.width as int
                * self.height as int) by (nonlinear_arith)
                requires
                    x < self.width,
                    y < self.height,
            ;
            assert(y as int * self.width as int >= 0) by (nonlinear_arith)
                requires
                    y >= 0,
                    self.width >= 0,
            ;
            assert(l == self.width as int * self.height as int);
        }
        self.pixels[(y as usize) * (self.width as usize) + (x as usize)]
    }
}

} // verus!
