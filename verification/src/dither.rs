//! Floyd-Steinberg dithering to one bit per colour channel.
//!
//! The scan goes through the image row by row, from left to right. It
//! quantises each pixel in place and at once spreads the quantisation error
//! over the neighbours to the right and below, so a pixel is quantised with
//! whatever error has reached it by then.

use crate::buffer::{agrees, pixels_of, rgba8_copy_of, PixelBuffer};
use crate::error::StegoError;
use crate::grid::Grid;
use crate::pixel::{Neighbor, Pixel};
use vstd::prelude::*;

verus! {

/// Gives the pixel at `(nx, ny)`, which is the neighbour `to` of the pixel
/// being quantised, its share of the error of `source`.
fn spread_to(buf: &mut PixelBuffer, nx: u32, ny: u32, source: Pixel, to: Neighbor)
    requires
        old(buf)@.contains(nx as int, ny as int),
    ensures
        final(buf)@ == old(buf)@.with(
            nx as int,
            ny as int,
            old(buf)@.at(nx as int, ny as int).receiving(source, to),
        ),
{
    let neighbor = buf.load(nx, ny);
    buf.store(nx, ny, neighbor.receive(source, to));
}

/// Quantises the pixel at `(x, y)` and spreads its error over those of its
/// four neighbours that lie inside the image.
pub fn visit(buf: &mut PixelBuffer, x: u32, y: u32)
    requires
        old(buf)@.contains(x as int, y as int),
    ensures
        final(buf)@ == old(buf)@.visit(x as int, y as int),
{
    let (width, height) = buf.dimensions();
    let source = buf.load(x, y);
    buf.store(x, y, source.quantize());
    if x + 1 < width {
        spread_to(buf, x + 1, y, source, Neighbor::Right);
    }
    if y + 1 < height {
        if x > 0 {
            spread_to(buf, x - 1, y + 1, source, Neighbor::BelowLeft);
        }
        spread_to(buf, x, y + 1, source, Neighbor::Below);
        if x + 1 < width {
            spread_to(buf, x + 1, y + 1, source, Neighbor::BelowRight);
        }
    }
}

/// Dithers the image that the buffer holds, in place: afterwards every colour
/// channel is 0 or 255 and every pixel is opaque.
pub fn dither_buffer(buf: PixelBuffer) -> (out: PixelBuffer)
    ensures
        out@ == buf@.dithered(),
        out@.width == buf@.width,
        out@.height == buf@.height,
        out@.is_binary(),
{
    proof {
        buf@.lemma_dithered();
    }
    let mut out = buf;
    let (width, height) = out.dimensions();
    let mut y: u32 = 0;
    while y < height
        invariant
            y <= height,
            width == buf@.width,
            height == buf@.height,
            out@.width == width,
            out@.height == height,
            out@ == buf@.scan(y as nat, 0),
        decreases height - y,
    {
        let mut x: u32 = 0;
        while x < width
            invariant
                x <= width,
                y < height,
                width == buf@.width,
                height == buf@.height,
                out@.width == width,
                out@.height == height,
                out@ == buf@.scan(y as nat, x as nat),
            decreases width - x,
        {
            visit(&mut out, x, y);
            x += 1;
        }
        y += 1;
    }
    out
}

/// The outcome of dithering an image: its 8-bit RGBA copy, dithered, if the
/// copy fits in memory.
pub open spec fn dithering_of(image: &image::DynamicImage) -> Result<Grid, StegoError> {
    match rgba8_copy_of(image) {
        Ok(copy) => Ok(copy.dithered()),
        Err(e) => Err(e),
    }
}

/// Dithers an image: the image is copied to an 8-bit RGBA buffer, and the
/// copy is dithered in place. The dithered image has the size of the image,
/// and each of its pixels is binary and opaque.
pub fn dither_image(image: &image::DynamicImage) -> (dithered: Result<PixelBuffer, StegoError>)
    ensures
        agrees(dithered, dithering_of(image)),
        dithered matches Ok(out) ==> {
            &&& out@.width == pixels_of(image).width
            &&& out@.height == pixels_of(image).height
            &&& out@.is_binary()
        },
{
    match PixelBuffer::from_image(image) {
        Ok(buf) => Ok(dither_buffer(buf)),
        Err(e) => Err(e),
    }
}

} // verus!
