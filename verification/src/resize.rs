//! Downscaling to the small grids the hash kernels use, through a
//! separable bilinear convolution.

use vstd::prelude::*;

use crate::error::HashError;
use crate::grid::LumaGrid;

verus! {

/// What the resizer yields: the luma pixels of the source grid
/// rescaled to the destination dimensions. The result depends on the
/// pixels and the four dimensions alone.
pub uninterp spec fn resized_luma(pixels: Seq<u8>, sw: int, sh: int, dw: int, dh: int) -> Seq<u8>;

/// Relies on fast_image_resize's Resizer::resize with a bilinear
/// convolution filter over single-byte pixels: a pure function of the
/// source pixels and the dimensions, yielding one byte per
/// destination pixel. With matching single-byte pixel types and a
/// buffer of exactly one byte per source pixel, neither building the
/// images nor resizing has a failure path in the crate's source.
#[verifier::external_body]
fn resize_pixels(pixels: &Vec<u8>, sw: u32, sh: u32, dw: u32, dh: u32) -> (r: Vec<u8>)
    requires
        pixels@.len() == sw as int * sh as int,
        sw > 0,
        sh > 0,
        dw > 0,
        dh > 0,
    ensures
        r@ == resized_luma(pixels@, sw as int, sh as int, dw as int, dh as int),
        r@.len() == dw as int * dh as int,
{
    let src = fast_image_resize::images::Image::from_vec_u8(
        sw,
        sh,
        pixels.clone(),
        fast_image_resize::PixelType::U8,
    ).expect("one byte per source pixel");
    let mut dst = fast_image_resize::images::Image::new(dw, dh, fast_image_resize::PixelType::U8);
    let options = fast_image_resize::ResizeOptions::new().resize_alg(
        fast_image_resize::ResizeAlg::Convolution(fast_image_resize::FilterType::Bilinear),
    );
    fast_image_resize::Resizer::new().resize(&src, &mut dst, &options).expect(
        "matching pixel types",
    );
    dst.into_vec()
}

/// Resize a luma grid to the given dimensions. It succeeds exactly
/// when all four dimensions are positive; dimensions of zero on
/// either side are an error.
pub fn resize_to_grayscale(grid: &LumaGrid, width: u32, height: u32) -> (r: Result<
    LumaGrid,
    HashError,
>)
    requires
        grid.wf(),
    ensures
        r is Ok <==> (grid.width > 0 && grid.height > 0 && width > 0 && height > 0),
        match r {
            Ok(g) => {
                &&& g.width == width
                &&& g.height == height
                &&& g.wf()
                &&& g.pixels@ == resized_luma(
                    grid.pixels@,
                    grid.width as int,
                    grid.height as int,
                    width as int,
                    height as int,
                )
            },
            Err(e) => e is DecodeError,
        },
{
    if grid.width == 0 || grid.height == 0 {
        return Err(
            HashError::DecodeError {
                path: String::new(),
                reason: String::from_str("Invalid source dimensions"),
            },
        );
    }
    if width == 0 || height == 0 {
        return Err(
            HashError::DecodeError {
                path: String::new(),
                reason: String::from_str("Invalid destination dimensions"),
            },
        );
    }
    let px = resize_pixels(&grid.pixels, grid.width, grid.height, width, height);
    Ok(LumaGrid { width, height, pixels: px })
}

} // verus!
