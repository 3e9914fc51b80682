//! The images of the `image` crate as this library uses them: what Verus is
//! told about them without proof, and the checked operations built on that.
//!
//! Two image types occur. `image::DynamicImage` is what a codec hands over;
//! it is only read, converted and resampled. [`PixelBuffer`] holds an
//! `image::RgbaImage`, the 8-bit RGBA buffer that the transforms write to.

use crate::error::StegoError;
use crate::grid::Grid;
use crate::pixel::Pixel;
use vstd::prelude::*;

verus! {

/// `image::DynamicImage`: nothing inside a value is visible to Verus.
#[verifier::external_type_specification]
#[verifier::external_body]
pub struct ExDynamicImage(image::DynamicImage);

/// `image::ImageError`: nothing inside a value is visible to Verus.
#[verifier::external_type_specification]
#[verifier::external_body]
pub struct ExImageError(image::ImageError);

/// An 8-bit RGBA image that can be read and written pixel by pixel. It holds
/// an `image::RgbaImage`, which Verus does not look into.
#[verifier::external_body]
pub struct PixelBuffer {
    inner: image::RgbaImage,
}

/// Bytes that one pixel of an 8-bit RGBA buffer takes.
pub const RGBA8_BYTES: u32 = 4;

/// Bytes that one pixel takes while an image is resampled: four channels of
/// 32-bit floating point.
pub const RESAMPLING_BYTES: u32 = 16;

/// Width and height of the buffer.
pub uninterp spec fn buffer_extent(buf: PixelBuffer) -> (nat, nat);

/// The pixel that the buffer holds at each of its coordinates.
pub uninterp spec fn buffer_cells(buf: PixelBuffer) -> Map<(int, int), Pixel>;

/// Width and height of the image.
pub uninterp spec fn image_extent(img: image::DynamicImage) -> (nat, nat);

/// The RGBA pixel that `get_pixel` reads at each coordinate of the image.
pub uninterp spec fn image_cells(img: image::DynamicImage) -> Map<(int, int), Pixel>;

/// The pixel at each coordinate of the image's 8-bit RGBA copy, as
/// `to_rgba8` makes it.
pub uninterp spec fn rgba8_cells(img: image::DynamicImage) -> Map<(int, int), Pixel>;

/// The RGBA pixel at each coordinate of the image resampled to
/// `width` x `height` with the Lanczos filter of window 3.
pub uninterp spec fn lanczos3_cells(img: image::DynamicImage, width: nat, height: nat) -> Map<
    (int, int),
    Pixel,
>;

/// The PNG file that the encoder writes for an 8-bit RGBA image, if it
/// writes one.
pub uninterp spec fn png_of(pixels: Grid) -> Option<Seq<u8>>;

/// The PNG file that the encoder writes for the image, if it writes one.
pub uninterp spec fn png_of_image(img: image::DynamicImage) -> Option<Seq<u8>>;

impl View for PixelBuffer {
    type V = Grid;

    open spec fn view(&self) -> Grid {
        Grid::clip(buffer_extent(*self).0, buffer_extent(*self).1, buffer_cells(*self))
    }
}

/// The image as a grid of RGBA pixels, read pixel by pixel.
pub open spec fn pixels_of(img: &image::DynamicImage) -> Grid {
    Grid::clip(image_extent(*img).0, image_extent(*img).1, image_cells(*img))
}

/// The image's 8-bit RGBA copy as a grid.
pub open spec fn rgba8_of(img: &image::DynamicImage) -> Grid {
    Grid::clip(image_extent(*img).0, image_extent(*img).1, rgba8_cells(*img))
}

/// The outcome of copying the image to an 8-bit RGBA buffer: the copy, if it
/// fits in memory.
pub open spec fn rgba8_copy_of(img: &image::DynamicImage) -> Result<Grid, StegoError> {
    if fits_in_memory(image_extent(*img).0, image_extent(*img).1, RGBA8_BYTES as nat) {
        Ok(rgba8_of(img))
    } else {
        Err(StegoError::TooLarge)
    }
}

/// The image resampled to `width` x `height`, as a grid of RGBA pixels.
pub open spec fn lanczos3(img: &image::DynamicImage, width: nat, height: nat) -> Grid {
    Grid::clip(width, height, lanczos3_cells(*img, width, height))
}

/// The result of an operation is the outcome that its model gives: the same
/// refusal, or a buffer that holds the image of the model.
pub open spec fn agrees(
    result: Result<PixelBuffer, StegoError>,
    outcome: Result<Grid, StegoError>,
) -> bool {
    match (result, outcome) {
        (Ok(buf), Ok(image)) => buf@ == image,
        (Err(e), Err(refusal)) => e == refusal,
        _ => false,
    }
}

/// An image of `width` x `height` pixels of `bytes_per_pixel` bytes each can
/// be allocated: Rust allocates at most `isize::MAX` bytes at once.
pub open spec fn fits_in_memory(width: nat, height: nat, bytes_per_pixel: nat) -> bool {
    width * height * bytes_per_pixel <= isize::MAX
}

/// `ImageBuffer::dimensions` of the buffer held: its width and height.
#[verifier::external_body]
fn buffer_dimensions(buf: &PixelBuffer) -> (d: (u32, u32))
    ensures
        (d.0 as nat, d.1 as nat) == buffer_extent(*buf),
{
    buf.inner.dimensions()
}

/// `ImageBuffer::get_pixel`: the pixel at `(x, y)`, its four channels moved
/// into a `Pixel`. The outside function panics on a coordinate outside the
/// buffer.
#[verifier::external_body]
fn buffer_get(buf: &PixelBuffer, x: u32, y: u32) -> (p: Pixel)
    requires
        x < buffer_extent(*buf).0,
        y < buffer_extent(*buf).1,
    ensures
        p == buffer_cells(*buf)[(x as int, y as int)],
{
    let image::Rgba([r, g, b, a]) = *buf.inner.get_pixel(x, y);
    Pixel { r, g, b, a }
}

/// `ImageBuffer::put_pixel`: stores `p` at `(x, y)`; the size and every other
/// pixel stay as they were. The outside function panics on a coordinate
/// outside the buffer.
#[verifier::external_body]
fn buffer_put(buf: &mut PixelBuffer, x: u32, y: u32, p: Pixel)
    requires
        x < buffer_extent(*old(buf)).0,
        y < buffer_extent(*old(buf)).1,
    ensures
        buffer_extent(*final(buf)) == buffer_extent(*old(buf)),
        buffer_cells(*final(buf)) == buffer_cells(*old(buf)).insert((x as int, y as int), p),
{
    buf.inner.put_pixel(x, y, image::Rgba([p.r, p.g, p.b, p.a]));
}

/// `ImageBuffer::new`: a buffer of the given size in which every channel of
/// every pixel is zero. The outside function panics where the buffer would
/// be larger than a vector can be.
#[verifier::external_body]
fn buffer_new(width: u32, height: u32) -> (buf: PixelBuffer)
    requires
        fits_in_memory(width as nat, height as nat, RGBA8_BYTES as nat),
    ensures
        buffer_extent(buf) == (width as nat, height as nat),
        forall|x: int, y: int|
            0 <= x < width && 0 <= y < height ==> #[trigger] buffer_cells(buf)[(x, y)] == (Pixel {
                r: 0,
                g: 0,
                b: 0,
                a: 0,
            }),
{
    PixelBuffer { inner: image::RgbaImage::new(width, height) }
}

/// `GenericImageView::dimensions` of a `DynamicImage`: its width and height.
#[verifier::external_body]
pub(crate) fn image_dimensions(img: &image::DynamicImage) -> (d: (u32, u32))
    ensures
        (d.0 as nat, d.1 as nat) == image_extent(*img),
{
    image::GenericImageView::dimensions(img)
}

/// `GenericImageView::get_pixel` of a `DynamicImage`: the pixel at `(x, y)`
/// converted to 8-bit RGBA, its four channels moved into a `Pixel`. What it
/// returns depends on the image and the coordinate alone. The outside
/// function panics on a coordinate outside the image.
#[verifier::external_body]
fn image_get(img: &image::DynamicImage, x: u32, y: u32) -> (p: Pixel)
    requires
        x < image_extent(*img).0,
        y < image_extent(*img).1,
    ensures
        p == image_cells(*img)[(x as int, y as int)],
{
    let image::Rgba([r, g, b, a]) = image::GenericImageView::get_pixel(img, x, y);
    Pixel { r, g, b, a }
}

/// `DynamicImage::to_rgba8`: a copy of the image as an 8-bit RGBA buffer of
/// the same size. Its pixels depend on the image alone. The copy is
/// allocated at four bytes per pixel.
#[verifier::external_body]
fn image_to_rgba8(img: &image::DynamicImage) -> (buf: PixelBuffer)
    requires
        fits_in_memory(image_extent(*img).0, image_extent(*img).1, RGBA8_BYTES as nat),
    ensures
        buffer_extent(buf) == image_extent(*img),
        forall|x: int, y: int|
            0 <= x < image_extent(*img).0 && 0 <= y < image_extent(*img).1
                ==> #[trigger] buffer_cells(buf)[(x, y)] == rgba8_cells(*img)[(x, y)],
{
    PixelBuffer { inner: img.to_rgba8() }
}

/// `DynamicImage::resize_exact` with `FilterType::Lanczos3`: a new image of
/// exactly `width` x `height`, whatever the aspect ratio of the source. Its
/// pixels depend on the source and the target size alone: the outside
/// function computes them from these in floating point, in one pass over the
/// columns and one over the rows, and reads nothing else. On the way it
/// allocates an image of the source's width and the target's height, and one
/// of the target's size, at up to sixteen bytes per pixel.
#[verifier::external_body]
pub(crate) fn image_resize_lanczos3(img: &image::DynamicImage, width: u32, height: u32) -> (out:
    image::DynamicImage)
    requires
        fits_in_memory(image_extent(*img).0, height as nat, RESAMPLING_BYTES as nat),
        fits_in_memory(width as nat, height as nat, RESAMPLING_BYTES as nat),
    ensures
        image_extent(out) == (width as nat, height as nat),
        forall|x: int, y: int|
            0 <= x < width && 0 <= y < height ==> #[trigger] image_cells(out)[(x, y)]
                == lanczos3_cells(*img, width as nat, height as nat)[(x, y)],
{
    img.resize_exact(width, height, image::imageops::FilterType::Lanczos3)
}

/// `ImageBuffer::write_to` with `ImageFormat::Png`, writing into a vector:
/// the PNG file of the buffer, or the encoder's error. The encoder is given
/// the width, the height and the pixels of the buffer, and what it writes
/// depends on nothing else.
#[verifier::external_body]
fn buffer_write_png(buf: &PixelBuffer) -> (written: Result<Vec<u8>, image::ImageError>)
    ensures
        match written {
            Ok(bytes) => png_of(buf@) == Some(bytes@),
            Err(_) => png_of(buf@) is None,
        },
{
    let mut bytes = Vec::new();
    buf.inner.write_to(&mut std::io::Cursor::new(&mut bytes), image::ImageFormat::Png)?;
    Ok(bytes)
}

/// `DynamicImage::write_to` with `ImageFormat::Png`, writing into a vector:
/// the PNG file of the image, or the encoder's error. What it writes depends
/// on the image alone.
#[verifier::external_body]
pub(crate) fn image_write_png(img: &image::DynamicImage) -> (written: Result<
    Vec<u8>,
    image::ImageError,
>)
    ensures
        match written {
            Ok(bytes) => png_of_image(*img) == Some(bytes@),
            Err(_) => png_of_image(*img) is None,
        },
{
    let mut bytes = Vec::new();
    img.write_to(&mut std::io::Cursor::new(&mut bytes), image::ImageFormat::Png)?;
    Ok(bytes)
}

/// `image::load_from_memory`: the image that the bytes encode, in a format
/// guessed from their first bytes, or the decoder's error. Which formats are
/// known depends on the decoders registered in the process, so nothing is
/// said of the result.
#[verifier::external_body]
pub(crate) fn image_from_memory(bytes: &[u8]) -> (loaded: Result<
    image::DynamicImage,
    image::ImageError,
>) {
    image::load_from_memory(bytes)
}

/// The pixel at `(x, y)`, a coordinate of the image.
pub(crate) fn read_pixel(img: &image::DynamicImage, x: u32, y: u32) -> (p: Pixel)
    requires
        pixels_of(img).contains(x as int, y as int),
    ensures
        p == pixels_of(img).at(x as int, y as int),
{
    image_get(img, x, y)
}

/// Whether an image of `width` x `height` pixels of `bytes_per_pixel` bytes
/// each can be allocated.
pub fn fits(width: u32, height: u32, bytes_per_pixel: u32) -> (ok: bool)
    ensures
        ok == fits_in_memory(width as nat, height as nat, bytes_per_pixel as nat),
{
    let pixels: u64 = {
        assert(width * height <= 0xFFFF_FFFF * 0xFFFF_FFFF) by (nonlinear_arith)
            requires
                width <= 0xFFFF_FFFF,
                height <= 0xFFFF_FFFF,
        ;
        width as u64 * height as u64
    };
    let bytes: u128 = {
        assert(pixels * bytes_per_pixel <= 0xFFFF_FFFF_FFFF_FFFF * 0xFFFF_FFFF) by (nonlinear_arith)
            requires
                pixels <= 0xFFFF_FFFF_FFFF_FFFF,
                bytes_per_pixel <= 0xFFFF_FFFF,
        ;
        pixels as u128 * bytes_per_pixel as u128
    };
    bytes <= isize::MAX as u128
}

impl PixelBuffer {
    /// A buffer of the given size with every channel of every pixel zero.
    pub fn new(width: u32, height: u32) -> (made: Result<PixelBuffer, StegoError>)
        ensures
            agrees(
                made,
                if fits_in_memory(width as nat, height as nat, RGBA8_BYTES as nat) {
                    Ok(Grid::uniform(width as nat, height as nat, Pixel { r: 0, g: 0, b: 0, a: 0 }))
                } else {
                    Err(StegoError::TooLarge)
                },
            ),
    {
        if !fits(width, height, RGBA8_BYTES) {
            return Err(StegoError::TooLarge);
        }
        let buf = buffer_new(width, height);
        assert(buf@.cells =~= Grid::uniform(
            width as nat,
            height as nat,
            Pixel { r: 0, g: 0, b: 0, a: 0 },
        ).cells);
        Ok(buf)
    }

    /// The 8-bit RGBA copy of an image. An image whose copy does not fit in
    /// memory is refused.
    pub fn from_image(img: &image::DynamicImage) -> (made: Result<PixelBuffer, StegoError>)
        ensures
            agrees(made, rgba8_copy_of(img)),
    {
        let (width, height) = image_dimensions(img);
        if !fits(width, height, RGBA8_BYTES) {
            return Err(StegoError::TooLarge);
        }
        let buf = image_to_rgba8(img);
        assert(buf@.cells =~= rgba8_of(img).cells);
        Ok(buf)
    }

    /// The buffer as a PNG file. An image that the encoder cannot write is
    /// refused.
    pub fn to_png(&self) -> (file: Result<Vec<u8>, StegoError>)
        ensures
            match file {
                Ok(bytes) => png_of(self@) == Some(bytes@),
                Err(e) => png_of(self@) is None && e == StegoError::InvalidImage,
            },
    {
        match buffer_write_png(self) {
            Ok(bytes) => Ok(bytes),
            Err(_) => Err(StegoError::InvalidImage),
        }
    }

    /// Width and height of the buffer.
    pub fn dimensions(&self) -> (d: (u32, u32))
        ensures
            d.0 == self@.width,
            d.1 == self@.height,
    {
        buffer_dimensions(self)
    }

    /// The pixel at `(x, y)`, if the buffer has one there.
    pub fn get(&self, x: u32, y: u32) -> (found: Option<Pixel>)
        ensures
            found is Some <==> self@.contains(x as int, y as int),
            found matches Some(p) ==> p == self@.at(x as int, y as int),
    {
        let (width, height) = buffer_dimensions(self);
        if x < width && y < height {
            Some(self.load(x, y))
        } else {
            None
        }
    }

    /// The pixel at `(x, y)`, a coordinate of the buffer.
    pub(crate) fn load(&self, x: u32, y: u32) -> (p: Pixel)
        requires
            self@.contains(x as int, y as int),
        ensures
            p == self@.at(x as int, y as int),
    {
        buffer_get(self, x, y)
    }

    /// Stores `p` at `(x, y)`, a coordinate of the buffer.
    pub(crate) fn store(&mut self, x: u32, y: u32, p: Pixel)
        requires
            old(self)@.contains(x as int, y as int),
        ensures
            final(self)@ == old(self)@.with(x as int, y as int, p),
            final(self)@.width == old(self)@.width,
            final(self)@.height == old(self)@.height,
            forall|i: int, j: int|
                #[trigger] final(self)@.at(i, j) == if i == x && j == y {
                    p
                } else {
                    old(self)@.at(i, j)
                },
    {
        buffer_put(self, x, y, p);
        assert(self@.cells =~= old(self)@.with(x as int, y as int, p).cells);
    }

    /// Stores `p` at `(x, y)` and returns `true`, if the buffer has a pixel
    /// there; else leaves the buffer as it is and returns `false`.
    pub fn put(&mut self, x: u32, y: u32, p: Pixel) -> (stored: bool)
        ensures
            stored == old(self)@.contains(x as int, y as int),
            stored ==> final(self)@ == old(self)@.with(x as int, y as int, p),
            !stored ==> final(self)@ == old(self)@,
    {
        let (width, height) = buffer_dimensions(self);
        if x < width && y < height {
            self.store(x, y, p);
            true
        } else {
            false
        }
    }
}

} // verus!
