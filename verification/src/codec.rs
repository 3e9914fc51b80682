//! Resizing the carrier, packing the dithered secret into it, and getting the
//! secret out of the combined image again.

use crate::buffer::{
    agrees, fits, fits_in_memory, image_dimensions, image_resize_lanczos3,
    lanczos3, pixels_of, read_pixel, PixelBuffer, RESAMPLING_BYTES, RGBA8_BYTES,
};
use crate::dither::{dither_image, dithering_of};
use crate::error::StegoError;
use crate::grid::Grid;
use vstd::prelude::*;

verus! {

/// Why an image of `source_width` x `source_height` is not resized to
/// `width` x `height`, if it is not: a source without pixels cannot fill a
/// target that has some, and the images made on the way must fit in memory.
pub open spec fn resize_refusal(
    source_width: nat,
    source_height: nat,
    width: nat,
    height: nat,
) -> Option<StegoError> {
    if (source_width == 0 || source_height == 0) && width > 0 && height > 0 {
        Some(StegoError::InvalidImage)
    } else if !fits_in_memory(source_width, height, RESAMPLING_BYTES as nat) || !fits_in_memory(
        width,
        height,
        RESAMPLING_BYTES as nat,
    ) {
        Some(StegoError::TooLarge)
    } else {
        None
    }
}

/// The outcome of resizing an image to `width` x `height`: the image
/// resampled, unless the resizing is refused.
pub open spec fn resizing_of(image: &image::DynamicImage, width: nat, height: nat) -> Result<
    Grid,
    StegoError,
> {
    match resize_refusal(pixels_of(image).width, pixels_of(image).height, width, height) {
        Some(e) => Err(e),
        None => Ok(lanczos3(image, width, height)),
    }
}

/// The outcome of packing a dithered secret into a carrier: the combined
/// image, if the two have the same size.
pub open spec fn embedding_of(dithered: Grid, carrier: Grid) -> Result<Grid, StegoError> {
    if carrier.width == dithered.width && carrier.height == dithered.height {
        Ok(carrier.carrying(dithered))
    } else {
        Err(StegoError::InvalidInput)
    }
}

/// The outcome of hiding `secret` in `carrier`: the secret is dithered, the
/// carrier is resized to the size of the secret, and the two are packed into
/// the combined image. What the first step refuses, or the second, is
/// refused.
pub open spec fn encoding_of(
    secret: &image::DynamicImage,
    carrier: &image::DynamicImage,
) -> Result<Grid, StegoError> {
    match dithering_of(secret) {
        Err(e) => Err(e),
        Ok(dithered) => match resizing_of(
            carrier,
            pixels_of(secret).width,
            pixels_of(secret).height,
        ) {
            Err(e) => Err(e),
            Ok(resized) => Ok(resized.carrying(dithered)),
        },
    }
}

/// The outcome of extracting the secret from a combined image: the image of
/// its low nibbles, if an 8-bit RGBA buffer of its size fits in memory.
pub open spec fn decoding_of(combined: &image::DynamicImage) -> Result<Grid, StegoError> {
    if fits_in_memory(pixels_of(combined).width, pixels_of(combined).height, RGBA8_BYTES as nat) {
        Ok(pixels_of(combined).extracted())
    } else {
        Err(StegoError::TooLarge)
    }
}

/// Stretches the image to exactly `width` x `height`, whatever its aspect
/// ratio, with the Lanczos filter of window 3.
pub fn resize_image(image: &image::DynamicImage, width: u32, height: u32) -> (resized: Result<
    image::DynamicImage,
    StegoError,
>)
    ensures
        match resized {
            Ok(out) => resizing_of(image, width as nat, height as nat) == Ok::<Grid, StegoError>(
                pixels_of(&out),
            ),
            Err(e) => resizing_of(image, width as nat, height as nat) == Err::<Grid, StegoError>(e),
        },
{
    let (source_width, source_height) = image_dimensions(image);
    if (source_width == 0 || source_height == 0) && width > 0 && height > 0 {
        return Err(StegoError::InvalidImage);
    }
    if !fits(source_width, height, RESAMPLING_BYTES) || !fits(width, height, RESAMPLING_BYTES) {
        return Err(StegoError::TooLarge);
    }
    let out = image_resize_lanczos3(image, width, height);
    assert(pixels_of(&out).cells =~= lanczos3(image, width as nat, height as nat).cells);
    Ok(out)
}

/// Packs a dithered secret into a carrier of the same size: each channel of
/// the result has the carrier's high nibble above the secret's high nibble,
/// and every pixel is opaque. A carrier of another size is refused.
pub fn embed(dithered: PixelBuffer, carrier: &image::DynamicImage) -> (combined: Result<
    PixelBuffer,
    StegoError,
>)
    ensures
        agrees(combined, embedding_of(dithered@, pixels_of(carrier))),
{
    let (width, height) = dithered.dimensions();
    let (carrier_width, carrier_height) = image_dimensions(carrier);
    if carrier_width != width || carrier_height != height {
        return Err(StegoError::InvalidInput);
    }
    let mut out = dithered;
    let mut x: u32 = 0;
    while x < width
        invariant
            x <= width,
            out@.width == width,
            out@.height == height,
            dithered@.width == width,
            dithered@.height == height,
            pixels_of(carrier).width == width,
            pixels_of(carrier).height == height,
            forall|i: int, j: int|
                0 <= i < x && 0 <= j < height ==> #[trigger] out@.at(i, j) == pixels_of(
                    carrier,
                ).at(i, j).carrying(dithered@.at(i, j)),
            forall|i: int, j: int|
                x <= i < width && 0 <= j < height ==> #[trigger] out@.at(i, j) == dithered@.at(
                    i,
                    j,
                ),
        decreases width - x,
    {
        let mut y: u32 = 0;
        while y < height
            invariant
                x < width,
                y <= height,
                out@.width == width,
                out@.height == height,
                dithered@.width == width,
                dithered@.height == height,
                pixels_of(carrier).width == width,
                pixels_of(carrier).height == height,
                forall|i: int, j: int|
                    0 <= i < x && 0 <= j < height ==> #[trigger] out@.at(i, j) == pixels_of(
                        carrier,
                    ).at(i, j).carrying(dithered@.at(i, j)),
                forall|j: int|
                    0 <= j < y ==> #[trigger] out@.at(x as int, j) == pixels_of(carrier).at(
                        x as int,
                        j,
                    ).carrying(dithered@.at(x as int, j)),
                forall|j: int|
                    y <= j < height ==> #[trigger] out@.at(x as int, j) == dithered@.at(
                        x as int,
                        j,
                    ),
                forall|i: int, j: int|
                    x < i < width && 0 <= j < height ==> #[trigger] out@.at(i, j) == dithered@.at(
                        i,
                        j,
                    ),
            decreases height - y,
        {
            let secret_pixel = out.load(x, y);
            let carrier_pixel = read_pixel(carrier, x, y);
            out.store(x, y, carrier_pixel.carry(secret_pixel));
            y += 1;
        }
        x += 1;
    }
    proof {
        let combined = pixels_of(carrier).carrying(dithered@);
        assert forall|i: int, j: int| out@.contains(i, j) implies out@.at(i, j) == combined.at(
            i,
            j,
        ) by {
            Grid::lemma_build_at(
                dithered@.width,
                dithered@.height,
                |a: int, b: int| pixels_of(carrier).at(a, b).carrying(dithered@.at(a, b)),
                i,
                j,
            );
        }
        out@.lemma_equal_by_pixels(combined);
    }
    Ok(out)
}

/// Hides the secret in the carrier: the secret is dithered, the carrier is
/// resized to the secret's size, and the two are packed into one image of
/// that size.
pub fn encode_image(secret: &image::DynamicImage, carrier: &image::DynamicImage) -> (encoded:
    Result<PixelBuffer, StegoError>)
    ensures
        agrees(encoded, encoding_of(secret, carrier)),
        encoded matches Ok(out) ==> {
            &&& out@.width == pixels_of(secret).width
            &&& out@.height == pixels_of(secret).height
        },
{
    let dithered = match dither_image(secret) {
        Ok(buf) => buf,
        Err(e) => {
            return Err(e);
        },
    };
    let (width, height) = dithered.dimensions();
    let resized = match resize_image(carrier, width, height) {
        Ok(img) => img,
        Err(e) => {
            return Err(e);
        },
    };
    embed(dithered, &resized)
}

/// Recovers the secret from a combined image: each channel of the result is
/// the low nibble of the combined channel, moved up, and every pixel is
/// opaque.
pub fn decode_image(encoded: &image::DynamicImage) -> (decoded: Result<PixelBuffer, StegoError>)
    ensures
        agrees(decoded, decoding_of(encoded)),
        decoded matches Ok(out) ==> {
            &&& out@.width == pixels_of(encoded).width
            &&& out@.height == pixels_of(encoded).height
        },
{
    let (width, height) = image_dimensions(encoded);
    let mut out = match PixelBuffer::new(width, height) {
        Ok(buf) => buf,
        Err(e) => {
            return Err(e);
        },
    };
    let mut x: u32 = 0;
    while x < width
        invariant
            x <= width,
            out@.width == width,
            out@.height == height,
            pixels_of(encoded).width == width,
            pixels_of(encoded).height == height,
            forall|i: int, j: int|
                0 <= i < x && 0 <= j < height ==> #[trigger] out@.at(i, j) == pixels_of(
                    encoded,
                ).at(i, j).extracted(),
        decreases width - x,
    {
        let mut y: u32 = 0;
        while y < height
            invariant
                x < width,
                y <= height,
                out@.width == width,
                out@.height == height,
                pixels_of(encoded).width == width,
                pixels_of(encoded).height == height,
                forall|i: int, j: int|
                    0 <= i < x && 0 <= j < height ==> #[trigger] out@.at(i, j) == pixels_of(
                        encoded,
                    ).at(i, j).extracted(),
                forall|j: int|
                    0 <= j < y ==> #[trigger] out@.at(x as int, j) == pixels_of(encoded).at(
                        x as int,
                        j,
                    ).extracted(),
            decreases height - y,
        {
            let combined = read_pixel(encoded, x, y);
            out.store(x, y, combined.extract());
            y += 1;
        }
        x += 1;
    }
    proof {
        let source = pixels_of(encoded);
        assert forall|i: int, j: int| out@.contains(i, j) implies out@.at(i, j)
            == source.extracted().at(i, j) by {
            Grid::lemma_build_at(
                source.width,
                source.height,
                |a: int, b: int| source.at(a, b).extracted(),
                i,
                j,
            );
        }
        out@.lemma_equal_by_pixels(source.extracted());
    }
    Ok(out)
}

} // verus!
