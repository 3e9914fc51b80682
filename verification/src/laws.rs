//! What holds of the transforms whatever the images are.

use crate::buffer::{agrees, lanczos3, pixels_of, rgba8_cells, rgba8_of, PixelBuffer};
use crate::codec::{decoding_of, encoding_of};
use crate::dither::dithering_of;
use crate::error::StegoError;
use crate::grid::Grid;
use crate::pixel::{
    diffused, error_share, packed, quantization_error, thresholded, unpacked, Neighbor, Pixel,
};
use crate::wire::{
    field_value, framed, lemma_field_value_of_length_field, lemma_length_field_of_field_value,
    length_field, unframed,
};
use vstd::prelude::*;

verus! {

/// The pixel (255, 255, 255, 255).
pub open spec fn white() -> Pixel {
    Pixel { r: 255, g: 255, b: 255, a: 255 }
}

/// The pixel (0, 0, 0, 255).
pub open spec fn black() -> Pixel {
    Pixel { r: 0, g: 0, b: 0, a: 255 }
}

/// The high nibble of each colour channel of `p`, the low nibble cleared,
/// opaque: what is left of a secret pixel after packing and extracting.
pub open spec fn high_nibbles(p: Pixel) -> Pixel {
    Pixel { r: p.r & 0xF0, g: p.g & 0xF0, b: p.b & 0xF0, a: 255 }
}

/// A channel that is already 0 or 255 is kept by quantisation, its
/// quantisation error is zero, and that error changes no neighbour,
/// whatever the neighbour holds.
pub proof fn law_binary_channel_is_kept(v: u8, n: u8, to: Neighbor)
    requires
        v == 0 || v == 255,
    ensures
        thresholded(v) == v,
        quantization_error(v) == 0,
        diffused(n, quantization_error(v), to.weight()) == n,
{
    assert(to.weight() * 0 == 0);
}

/// Dithering keeps an image whose pixels are all binary and opaque.
pub proof fn law_binary_image_is_kept(image: Grid)
    requires
        image.well_formed(),
        image.is_binary(),
    ensures
        image.dithered() == image,
{
    image.lemma_scan_of_binary(image.height, 0);
}

/// Dithering an image of one pixel quantises that pixel and writes nowhere
/// else: all four neighbours lie outside the image.
pub proof fn law_single_pixel_is_quantised(image: Grid)
    requires
        image.width == 1,
        image.height == 1,
    ensures
        forall|to: Neighbor| !image.contains(0 + to.dx(), 0 + to.dy()),
        image.dithered() == image.with(0, 0, image.at(0, 0).quantized()),
{
    reveal_with_fuel(Grid::scan, 3);
    assert(image.scan(1, 0) == image.scan(0, 1));
    assert(image.scan(0, 1) == image.scan(0, 0).visit(0, 0));
    assert(image.scan(0, 0) == image);
}

/// A pixel that touches no edge of the image has all four neighbours inside
/// the image, and the four diffusion weights add up to sixteen sixteenths:
/// before clamping, the shares of its error `e` that go to the neighbours,
/// `7e/16`, `3e/16`, `5e/16` and `e/16`, add up to `e`.
pub proof fn law_error_shares_add_up(image: Grid, x: int, y: int, e: int)
    requires
        0 < x < image.width - 1,
        0 < y < image.height - 1,
    ensures
        forall|to: Neighbor| image.contains(x + to.dx(), y + to.dy()),
        Neighbor::Right.weight() + Neighbor::BelowLeft.weight() + Neighbor::Below.weight()
            + Neighbor::BelowRight.weight() == 16,
        error_share(e, Neighbor::Right.weight()) + error_share(e, Neighbor::BelowLeft.weight())
            + error_share(e, Neighbor::Below.weight()) + error_share(
            e,
            Neighbor::BelowRight.weight(),
        ) == 16 * e,
{
    assert(error_share(e, Neighbor::Right.weight()) == 7 * e);
    assert(error_share(e, Neighbor::BelowLeft.weight()) == 3 * e);
    assert(error_share(e, Neighbor::Below.weight()) == 5 * e);
    assert(error_share(e, Neighbor::BelowRight.weight()) == 1 * e);
}

/// A dithered image has the size of its source, and each of its pixels is
/// binary and opaque.
pub proof fn law_dithered_is_binary(image: Grid)
    ensures
        image.dithered().width == image.width,
        image.dithered().height == image.height,
        image.dithered().is_binary(),
{
    image.lemma_dithered();
}

/// A combined channel keeps the carrier's high nibble, and gives back the
/// secret's high nibble when it is unpacked.
pub proof fn law_packed_channel(carrier: u8, secret: u8)
    ensures
        packed(carrier, secret) & 0xF0 == carrier & 0xF0,
        packed(carrier, secret) & 0x0F == secret >> 4,
        unpacked(packed(carrier, secret)) == secret & 0xF0,
{
    assert(((carrier & 0xF0) | ((secret & 0xF0) >> 4)) & 0xF0 == carrier & 0xF0) by (bit_vector);
    assert(((carrier & 0xF0) | ((secret & 0xF0) >> 4)) & 0x0F == secret >> 4) by (bit_vector);
    assert((((carrier & 0xF0) | ((secret & 0xF0) >> 4)) & 0x0F) << 4 == secret & 0xF0)
        by (bit_vector);
}

/// The combined image has the size of the secret, and so has the image
/// extracted from it.
pub proof fn law_sizes(secret: Grid, carrier: Grid)
    ensures
        carrier.carrying(secret).width == secret.width,
        carrier.carrying(secret).height == secret.height,
        carrier.carrying(secret).extracted().width == secret.width,
        carrier.carrying(secret).extracted().height == secret.height,
        carrier.carrying(secret.dithered()).width == secret.width,
        carrier.carrying(secret.dithered()).height == secret.height,
{
    secret.lemma_dithered();
}

/// At every pixel of the combined image, each colour channel has the high
/// nibble of the carrier's channel at that pixel.
pub proof fn law_carrier_high_nibble_is_kept(secret: Grid, carrier: Grid, x: int, y: int)
    requires
        secret.contains(x, y),
    ensures
        carrier.carrying(secret).at(x, y).r & 0xF0 == carrier.at(x, y).r & 0xF0,
        carrier.carrying(secret).at(x, y).g & 0xF0 == carrier.at(x, y).g & 0xF0,
        carrier.carrying(secret).at(x, y).b & 0xF0 == carrier.at(x, y).b & 0xF0,
        carrier.carrying(secret).at(x, y).a == 255,
{
    Grid::lemma_build_at(
        secret.width,
        secret.height,
        |i: int, j: int| carrier.at(i, j).carrying(secret.at(i, j)),
        x,
        y,
    );
    law_packed_channel(carrier.at(x, y).r, secret.at(x, y).r);
    law_packed_channel(carrier.at(x, y).g, secret.at(x, y).g);
    law_packed_channel(carrier.at(x, y).b, secret.at(x, y).b);
}

/// Extracting from a combined image gives, whatever the carrier, the high
/// nibbles of the secret that was packed, pixel by pixel.
pub proof fn law_round_trip(secret: Grid, carrier: Grid)
    ensures
        carrier.carrying(secret).extracted() == Grid::build(
            secret.width,
            secret.height,
            |x: int, y: int| high_nibbles(secret.at(x, y)),
        ),
{
    let combined = carrier.carrying(secret);
    let recovered = combined.extracted();
    let expected = Grid::build(
        secret.width,
        secret.height,
        |x: int, y: int| high_nibbles(secret.at(x, y)),
    );
    assert forall|x: int, y: int| recovered.contains(x, y) implies recovered.at(x, y)
        == expected.at(x, y) by {
        Grid::lemma_build_at(
            secret.width,
            secret.height,
            |i: int, j: int| carrier.at(i, j).carrying(secret.at(i, j)),
            x,
            y,
        );
        Grid::lemma_build_at(
            combined.width,
            combined.height,
            |i: int, j: int| combined.at(i, j).extracted(),
            x,
            y,
        );
        Grid::lemma_build_at(
            secret.width,
            secret.height,
            |i: int, j: int| high_nibbles(secret.at(i, j)),
            x,
            y,
        );
        law_packed_channel(carrier.at(x, y).r, secret.at(x, y).r);
        law_packed_channel(carrier.at(x, y).g, secret.at(x, y).g);
        law_packed_channel(carrier.at(x, y).b, secret.at(x, y).b);
    }
    Grid::lemma_build_well_formed(
        combined.width,
        combined.height,
        |i: int, j: int| combined.at(i, j).extracted(),
    );
    Grid::lemma_build_well_formed(
        secret.width,
        secret.height,
        |i: int, j: int| high_nibbles(secret.at(i, j)),
    );
    recovered.lemma_equal_by_pixels(expected);
}

/// The level at which a dithered channel comes back: 240 for 255, 0 for 0.
pub open spec fn level_of(dithered: u8) -> u8 {
    if dithered == 255 {
        240
    } else {
        0
    }
}

/// In a combined image whose secret was dithered, the low nibble of each
/// colour channel is all ones where the dithered secret is 255, and all
/// zeros where it is 0.
pub proof fn law_low_nibble_is_all_or_nothing(secret: Grid, carrier: Grid, x: int, y: int)
    requires
        secret.contains(x, y),
    ensures
        ({
            let d = secret.dithered().at(x, y);
            let p = carrier.carrying(secret.dithered()).at(x, y);
            &&& p.r & 0x0F == if d.r == 255 { 0x0Fu8 } else { 0u8 }
            &&& p.g & 0x0F == if d.g == 255 { 0x0Fu8 } else { 0u8 }
            &&& p.b & 0x0F == if d.b == 255 { 0x0Fu8 } else { 0u8 }
        }),
{
    let dithered = secret.dithered();
    secret.lemma_dithered();
    Grid::lemma_build_at(
        dithered.width,
        dithered.height,
        |i: int, j: int| carrier.at(i, j).carrying(dithered.at(i, j)),
        x,
        y,
    );
    assert(dithered.at(x, y).is_binary());
    law_packed_channel(carrier.at(x, y).r, dithered.at(x, y).r);
    law_packed_channel(carrier.at(x, y).g, dithered.at(x, y).g);
    law_packed_channel(carrier.at(x, y).b, dithered.at(x, y).b);
    assert(0u8 >> 4 == 0u8) by (bit_vector);
    assert(255u8 >> 4 == 0x0Fu8) by (bit_vector);
}

/// The image extracted from a combined image shows the dithered secret,
/// whatever the carrier: each colour channel is 240 where the dithered
/// secret is 255 and 0 where it is 0, and every pixel is opaque.
pub proof fn law_dithered_secret_comes_back(secret: Grid, carrier: Grid, x: int, y: int)
    requires
        secret.contains(x, y),
    ensures
        ({
            let d = secret.dithered().at(x, y);
            let p = carrier.carrying(secret.dithered()).extracted().at(x, y);
            p == Pixel { r: level_of(d.r), g: level_of(d.g), b: level_of(d.b), a: 255 }
        }),
{
    let dithered = secret.dithered();
    secret.lemma_dithered();
    law_round_trip(dithered, carrier);
    Grid::lemma_build_at(
        dithered.width,
        dithered.height,
        |i: int, j: int| high_nibbles(dithered.at(i, j)),
        x,
        y,
    );
    assert(dithered.at(x, y).is_binary());
    assert(0u8 & 0xF0 == 0u8) by (bit_vector);
    assert(255u8 & 0xF0 == 240u8) by (bit_vector);
}

/// A secret that is white all over comes back as (240, 240, 240, 255) all
/// over, whatever its size and whatever the carrier.
pub proof fn law_white_secret_round_trip(width: nat, height: nat, carrier: Grid)
    ensures
        carrier.carrying(Grid::uniform(width, height, white()).dithered()).extracted()
            == Grid::uniform(width, height, Pixel { r: 240, g: 240, b: 240, a: 255 }),
{
    let secret = Grid::uniform(width, height, white());
    Grid::lemma_build_well_formed(width, height, |x: int, y: int| white());
    law_binary_image_is_kept(secret);
    law_round_trip(secret, carrier);
    assert(255u8 & 0xF0 == 240u8) by (bit_vector);
    assert(carrier.carrying(secret).extracted().cells =~= Grid::uniform(
        width,
        height,
        Pixel { r: 240, g: 240, b: 240, a: 255 },
    ).cells);
}

/// A secret that is black all over comes back as (0, 0, 0, 255) all over,
/// whatever its size and whatever the carrier.
pub proof fn law_black_secret_round_trip(width: nat, height: nat, carrier: Grid)
    ensures
        carrier.carrying(Grid::uniform(width, height, black()).dithered()).extracted()
            == Grid::uniform(width, height, black()),
{
    let secret = Grid::uniform(width, height, black());
    Grid::lemma_build_well_formed(width, height, |x: int, y: int| black());
    law_binary_image_is_kept(secret);
    law_round_trip(secret, carrier);
    assert(0u8 & 0xF0 == 0u8) by (bit_vector);
    assert(carrier.carrying(secret).extracted().cells =~= Grid::uniform(
        width,
        height,
        black(),
    ).cells);
}

/// Dithering an image whose 8-bit RGBA copy is binary and opaque gives that
/// copy: no pixel changes and no error is passed on.
pub proof fn law_binary_image_dithers_to_itself(image: &image::DynamicImage)
    requires
        rgba8_of(image).is_binary(),
        dithering_of(image) is Ok,
    ensures
        dithering_of(image) == Ok::<Grid, StegoError>(rgba8_of(image)),
{
    Grid::lemma_build_well_formed(
        rgba8_of(image).width,
        rgba8_of(image).height,
        |x: int, y: int| rgba8_cells(*image)[(x, y)],
    );
    law_binary_image_is_kept(rgba8_of(image));
}

/// Where a secret is hidden in a carrier, the combined image has exactly
/// the size of the secret, and so has the image extracted from it.
/// `combined` is the combined image as an image that is read back.
pub proof fn law_encoded_size(
    secret: &image::DynamicImage,
    carrier: &image::DynamicImage,
    combined: &image::DynamicImage,
)
    requires
        encoding_of(secret, carrier) == Ok::<Grid, StegoError>(pixels_of(combined)),
    ensures
        pixels_of(combined).width == pixels_of(secret).width,
        pixels_of(combined).height == pixels_of(secret).height,
        decoding_of(combined) matches Ok(recovered) && recovered.width == pixels_of(secret).width
            && recovered.height == pixels_of(secret).height,
{
    rgba8_of(secret).lemma_dithered();
}

/// At every pixel of the combined image, each colour channel has the high
/// nibble of the resized carrier's channel at that pixel.
pub proof fn law_encoded_keeps_carrier_high_nibble(
    secret: &image::DynamicImage,
    carrier: &image::DynamicImage,
    x: int,
    y: int,
)
    requires
        encoding_of(secret, carrier) is Ok,
        pixels_of(secret).contains(x, y),
    ensures
        ({
            let out = encoding_of(secret, carrier)->Ok_0.at(x, y);
            let resized = lanczos3(carrier, pixels_of(secret).width, pixels_of(secret).height).at(
                x,
                y,
            );
            &&& out.r & 0xF0 == resized.r & 0xF0
            &&& out.g & 0xF0 == resized.g & 0xF0
            &&& out.b & 0xF0 == resized.b & 0xF0
            &&& out.a == 255
        }),
{
    let dithered = rgba8_of(secret).dithered();
    rgba8_of(secret).lemma_dithered();
    law_carrier_high_nibble_is_kept(
        dithered,
        lanczos3(carrier, pixels_of(secret).width, pixels_of(secret).height),
        x,
        y,
    );
}

/// A secret that is white all over, hidden in any carrier that is not
/// refused, is extracted as (240, 240, 240, 255) all over, in the size of the
/// secret. `combined` is the combined image as an image that is read back.
pub proof fn law_white_secret_is_recovered(
    secret: &image::DynamicImage,
    carrier: &image::DynamicImage,
    combined: &image::DynamicImage,
)
    requires
        rgba8_of(secret) == Grid::uniform(
            pixels_of(secret).width,
            pixels_of(secret).height,
            white(),
        ),
        encoding_of(secret, carrier) == Ok::<Grid, StegoError>(pixels_of(combined)),
    ensures
        decoding_of(combined) == Ok::<Grid, StegoError>(
            Grid::uniform(
                pixels_of(secret).width,
                pixels_of(secret).height,
                Pixel { r: 240, g: 240, b: 240, a: 255 },
            ),
        ),
{
    law_encoded_size(secret, carrier, combined);
    law_white_secret_round_trip(
        pixels_of(secret).width,
        pixels_of(secret).height,
        lanczos3(carrier, pixels_of(secret).width, pixels_of(secret).height),
    );
}

/// A secret that is black all over, hidden in any carrier that is not
/// refused, is extracted as (0, 0, 0, 255) all over, in the size of the
/// secret. `combined` is the combined image as an image that is read back.
pub proof fn law_black_secret_is_recovered(
    secret: &image::DynamicImage,
    carrier: &image::DynamicImage,
    combined: &image::DynamicImage,
)
    requires
        rgba8_of(secret) == Grid::uniform(
            pixels_of(secret).width,
            pixels_of(secret).height,
            black(),
        ),
        encoding_of(secret, carrier) == Ok::<Grid, StegoError>(pixels_of(combined)),
    ensures
        decoding_of(combined) == Ok::<Grid, StegoError>(
            Grid::uniform(pixels_of(secret).width, pixels_of(secret).height, black()),
        ),
{
    law_encoded_size(secret, carrier, combined);
    law_black_secret_round_trip(
        pixels_of(secret).width,
        pixels_of(secret).height,
        lanczos3(carrier, pixels_of(secret).width, pixels_of(secret).height),
    );
}

/// The transforms are functions of what they are given: two results of one
/// operation on the same input, each the outcome that the model gives for
/// that input, are the same refusal or hold the same image, pixel for pixel.
pub proof fn law_repeated_calls_agree(
    first: Result<PixelBuffer, StegoError>,
    second: Result<PixelBuffer, StegoError>,
    outcome: Result<Grid, StegoError>,
)
    requires
        agrees(first, outcome),
        agrees(second, outcome),
    ensures
        match (first, second) {
            (Ok(a), Ok(b)) => a@ == b@,
            (Err(e), Err(f)) => e == f,
            _ => false,
        },
{
}

/// Two payloads that were put into a message are taken out of it again,
/// byte for byte, whatever their lengths below 2^32 are.
pub proof fn law_unframe_frame(secret: Seq<u8>, carrier: Seq<u8>)
    requires
        secret.len() <= u32::MAX,
        carrier.len() <= u32::MAX,
    ensures
        unframed(framed(secret, carrier)) == Some((secret, carrier)),
{
    let message = framed(secret, carrier);
    let n = secret.len() as int;
    let m = carrier.len() as int;
    lemma_field_value_of_length_field(secret.len());
    lemma_field_value_of_length_field(carrier.len());
    assert(message.len() == 8 + n + m);
    assert(message.subrange(0, 4) =~= length_field(secret.len()));
    assert(message.subrange(4 + n, 8 + n) =~= length_field(carrier.len()));
    assert(message.subrange(4, 4 + n) =~= secret);
    assert(message.subrange(8 + n, 8 + n + m) =~= carrier);
}

/// A message is made of nothing but its two payloads: putting the payloads
/// that were taken out of it into a message gives the same message.
pub proof fn law_frame_unframe(message: Seq<u8>)
    requires
        unframed(message) is Some,
    ensures
        ({
            let (secret, carrier) = unframed(message)->0;
            &&& secret.len() <= u32::MAX
            &&& carrier.len() <= u32::MAX
            &&& framed(secret, carrier) == message
        }),
{
    let (secret, carrier) = unframed(message)->0;
    let n = field_value(message.subrange(0, 4)) as int;
    let m = field_value(message.subrange(4 + n, 8 + n)) as int;
    lemma_length_field_of_field_value(message.subrange(0, 4));
    lemma_length_field_of_field_value(message.subrange(4 + n, 8 + n));
    assert(secret.len() == n);
    assert(carrier.len() == m);
    assert(framed(secret, carrier) =~= message);
}

} // verus!
