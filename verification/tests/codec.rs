use dither_stego::buffer::{fits, PixelBuffer, RESAMPLING_BYTES, RGBA8_BYTES};
use dither_stego::codec::{decode_image, embed, encode_image, resize_image};
use dither_stego::dither::dither_image;
use dither_stego::error::StegoError;
use dither_stego::pixel::{pack_channel, unpack_channel, Pixel};
use image::imageops::FilterType;
use image::{DynamicImage, GenericImageView, GrayImage, Luma, Rgb, RgbImage, Rgba, RgbaImage};

fn image_of(buf: &PixelBuffer) -> DynamicImage {
    let (width, height) = buf.dimensions();
    DynamicImage::ImageRgba8(RgbaImage::from_fn(width, height, |x, y| {
        let p = buf.get(x, y).expect("a pixel inside the buffer");
        Rgba([p.r, p.g, p.b, p.a])
    }))
}

fn uniform(width: u32, height: u32, px: [u8; 4]) -> DynamicImage {
    DynamicImage::ImageRgba8(RgbaImage::from_pixel(width, height, Rgba(px)))
}

fn gradient(width: u32, height: u32) -> DynamicImage {
    DynamicImage::ImageRgba8(RgbaImage::from_fn(width, height, |x, y| {
        Rgba([(x * 9 + y) as u8, (y * 13 + 5) as u8, (x * y + 40) as u8, (x + 200) as u8])
    }))
}

#[test]
fn channel_packing_keeps_carrier_high_nibble_above_secret_high_nibble() {
    assert_eq!(pack_channel(0xAB, 0xFF), 0xAF);
    assert_eq!(pack_channel(0xAB, 0x00), 0xA0);
    assert_eq!(pack_channel(0x12, 0x34), 0x13);
    assert_eq!(pack_channel(0xFF, 0x0F), 0xF0);
    assert_eq!(pack_channel(0x00, 0xF0), 0x0F);
}

#[test]
fn channel_unpacking_moves_the_low_nibble_up() {
    assert_eq!(unpack_channel(0xAF), 0xF0);
    assert_eq!(unpack_channel(0xA0), 0x00);
    assert_eq!(unpack_channel(0x13), 0x30);
    assert_eq!(unpack_channel(0xFF), 240);
}

#[test]
fn every_packed_channel_unpacks_to_the_secret_high_nibble() {
    for carrier in 0..=255u8 {
        for secret in 0..=255u8 {
            let combined = pack_channel(carrier, secret);
            assert_eq!(combined & 0xF0, carrier & 0xF0);
            assert_eq!(combined & 0x0F, secret >> 4);
            assert_eq!(unpack_channel(combined), secret & 0xF0);
        }
    }
}

#[test]
fn pixel_packing_and_extraction_make_the_pixel_opaque() {
    let carrier = Pixel { r: 0x12, g: 0x9C, b: 0xFE, a: 3 };
    let secret = Pixel { r: 255, g: 0, b: 255, a: 9 };
    let combined = carrier.carry(secret);
    assert_eq!(combined, Pixel { r: 0x1F, g: 0x90, b: 0xFF, a: 255 });
    assert_eq!(combined.extract(), Pixel { r: 240, g: 0, b: 240, a: 255 });
    assert_eq!(secret.quantize(), Pixel { r: 255, g: 0, b: 255, a: 255 });
}

#[test]
fn decode_extracts_low_nibbles() {
    let combined = DynamicImage::ImageRgba8(RgbaImage::from_fn(3, 2, |x, y| {
        Rgba([(x * 16 + y) as u8, 0x5F, 0xA0 + x as u8, 17])
    }));
    let out = decode_image(&combined).unwrap();
    assert_eq!(out.dimensions(), (3, 2));
    for y in 0..2u32 {
        for x in 0..3u32 {
            let expected = Pixel { r: (y as u8) << 4, g: 0xF0, b: (x as u8) << 4, a: 255 };
            assert_eq!(out.get(x, y), Some(expected));
        }
    }
}

#[test]
fn decode_of_an_image_without_pixels() {
    for (width, height) in [(0, 0), (4, 0), (0, 4)] {
        let out = decode_image(&uniform(width, height, [1, 2, 3, 4])).unwrap();
        assert_eq!(out.dimensions(), (width, height));
    }
}

#[test]
fn decode_reads_other_colour_types_as_rgba() {
    let rgb = DynamicImage::ImageRgb8(RgbImage::from_pixel(2, 2, Rgb([0x1F, 0x20, 0x37])));
    let out = decode_image(&rgb).unwrap();
    assert_eq!(out.get(1, 1), Some(Pixel { r: 0xF0, g: 0x00, b: 0x70, a: 255 }));
    let gray = DynamicImage::ImageLuma8(GrayImage::from_pixel(2, 1, Luma([0x4A])));
    let out = decode_image(&gray).unwrap();
    assert_eq!(out.get(0, 0), Some(Pixel { r: 0xA0, g: 0xA0, b: 0xA0, a: 255 }));
}

#[test]
fn resize_gives_exactly_the_size_asked_for() {
    let img = gradient(10, 6);
    for (width, height) in [(1, 1), (5, 9), (10, 6), (23, 2), (3, 17)] {
        let out = resize_image(&img, width, height).unwrap();
        assert_eq!(out.dimensions(), (width, height));
    }
}

#[test]
fn resize_uses_the_lanczos3_filter() {
    let img = gradient(12, 9);
    let out = resize_image(&img, 7, 15).unwrap();
    let expected = img.resize_exact(7, 15, FilterType::Lanczos3);
    assert_eq!(out.to_rgba8(), expected.to_rgba8());
    assert_ne!(out.to_rgba8(), img.resize_exact(7, 15, FilterType::Nearest).to_rgba8());
}

#[test]
fn resize_to_the_same_size_keeps_the_pixels() {
    let img = gradient(8, 5);
    let out = resize_image(&img, 8, 5).unwrap();
    assert_eq!(out.to_rgba8(), img.to_rgba8());
}

#[test]
fn resize_of_a_uniform_image_is_uniform() {
    let out = resize_image(&uniform(4, 4, [10, 200, 90, 255]), 9, 3).unwrap();
    assert_eq!(out.to_rgba8(), RgbaImage::from_pixel(9, 3, Rgba([10, 200, 90, 255])));
}

#[test]
fn resize_refuses_a_source_without_pixels() {
    for (width, height) in [(0, 0), (0, 3), (3, 0)] {
        let empty = uniform(width, height, [0, 0, 0, 0]);
        assert_eq!(resize_image(&empty, 2, 2).err(), Some(StegoError::InvalidImage));
        assert_eq!(resize_image(&empty, 1, 1).err(), Some(StegoError::InvalidImage));
    }
}

#[test]
fn resize_to_no_pixels_gives_an_image_without_pixels() {
    let img = gradient(4, 4);
    for (width, height) in [(0, 0), (0, 7), (7, 0)] {
        let out = resize_image(&img, width, height).unwrap();
        assert_eq!(out.dimensions(), (width, height));
    }
    let empty = uniform(0, 0, [0, 0, 0, 0]);
    assert_eq!(resize_image(&empty, 0, 5).unwrap().dimensions(), (0, 5));
}

#[test]
fn resize_refuses_a_target_that_does_not_fit_in_memory() {
    let img = gradient(2, 2);
    assert_eq!(resize_image(&img, u32::MAX, u32::MAX).err(), Some(StegoError::TooLarge));
    let empty = uniform(0, 0, [0, 0, 0, 0]);
    assert_eq!(resize_image(&empty, u32::MAX, u32::MAX).err(), Some(StegoError::InvalidImage));
}

#[test]
fn fits_compares_the_bytes_with_the_largest_allocation() {
    assert!(fits(0, 0, RGBA8_BYTES));
    assert!(fits(1, 1, RGBA8_BYTES));
    assert!(fits(u32::MAX, 0, RESAMPLING_BYTES));
    assert!(fits(1920, 1080, RESAMPLING_BYTES));
    assert!(!fits(u32::MAX, u32::MAX, RESAMPLING_BYTES));
    assert!(!fits(u32::MAX, u32::MAX, u32::MAX));
    let limit = isize::MAX as u128;
    for (width, height, bytes) in [
        (1u32 << 31, 1u32 << 31, 1u32),
        (1 << 31, 1 << 31, 2),
        (1 << 31, 1 << 30, 4),
        (u32::MAX, u32::MAX, 1),
        (1 << 16, 1 << 15, 1),
        (1 << 16, 1 << 15, 4),
        (46341, 46341, 1),
    ] {
        let expected = width as u128 * height as u128 * bytes as u128 <= limit;
        assert_eq!(fits(width, height, bytes), expected);
    }
}

#[test]
fn new_buffer_is_zero_everywhere() {
    let buf = PixelBuffer::new(3, 2).unwrap();
    assert_eq!(buf.dimensions(), (3, 2));
    for y in 0..2 {
        for x in 0..3 {
            assert_eq!(buf.get(x, y), Some(Pixel { r: 0, g: 0, b: 0, a: 0 }));
        }
    }
}

#[test]
fn new_buffer_that_does_not_fit_is_refused() {
    assert_eq!(PixelBuffer::new(u32::MAX, u32::MAX).err(), Some(StegoError::TooLarge));
    assert!(PixelBuffer::new(0, u32::MAX).is_ok());
}

#[test]
fn get_and_put_outside_the_buffer() {
    let mut buf = PixelBuffer::new(2, 3).unwrap();
    let p = Pixel { r: 1, g: 2, b: 3, a: 4 };
    assert_eq!(buf.get(2, 0), None);
    assert_eq!(buf.get(0, 3), None);
    assert_eq!(buf.get(u32::MAX, u32::MAX), None);
    assert!(!buf.put(2, 0, p));
    assert!(!buf.put(0, 3, p));
    for y in 0..3 {
        for x in 0..2 {
            assert_eq!(buf.get(x, y), Some(Pixel { r: 0, g: 0, b: 0, a: 0 }));
        }
    }
}

#[test]
fn put_changes_one_pixel() {
    let mut buf = PixelBuffer::new(2, 2).unwrap();
    let p = Pixel { r: 1, g: 2, b: 3, a: 4 };
    assert!(buf.put(1, 0, p));
    assert_eq!(buf.get(1, 0), Some(p));
    assert_eq!(buf.get(0, 0), Some(Pixel { r: 0, g: 0, b: 0, a: 0 }));
    assert_eq!(buf.get(0, 1), Some(Pixel { r: 0, g: 0, b: 0, a: 0 }));
    assert_eq!(buf.get(1, 1), Some(Pixel { r: 0, g: 0, b: 0, a: 0 }));
    assert_eq!(buf.dimensions(), (2, 2));
}

#[test]
fn buffer_from_image_is_its_rgba_copy() {
    let img = gradient(5, 4);
    let buf = PixelBuffer::from_image(&img).unwrap();
    assert_eq!(image_of(&buf).to_rgba8(), img.to_rgba8());
    let gray = DynamicImage::ImageLuma8(GrayImage::from_fn(3, 3, |x, y| Luma([(x * 3 + y) as u8])));
    let buf = PixelBuffer::from_image(&gray).unwrap();
    assert_eq!(image_of(&buf).to_rgba8(), gray.to_rgba8());
}

#[test]
fn embed_packs_pixel_by_pixel() {
    let secret = RgbaImage::from_fn(3, 2, |x, y| {
        let v = if (x + y) % 2 == 0 { 255 } else { 0 };
        Rgba([v, 255 - v, v, 255])
    });
    let carrier = gradient(3, 2);
    let dithered = PixelBuffer::from_image(&DynamicImage::ImageRgba8(secret.clone())).unwrap();
    let out = embed(dithered, &carrier).unwrap();
    assert_eq!(out.dimensions(), (3, 2));
    for y in 0..2 {
        for x in 0..3 {
            let c = carrier.get_pixel(x, y);
            let s = secret.get_pixel(x, y);
            let expected = Pixel {
                r: (c[0] & 0xF0) | (s[0] >> 4),
                g: (c[1] & 0xF0) | (s[1] >> 4),
                b: (c[2] & 0xF0) | (s[2] >> 4),
                a: 255,
            };
            assert_eq!(out.get(x, y), Some(expected));
        }
    }
}

#[test]
fn embed_refuses_a_carrier_of_another_size() {
    for (width, height) in [(3, 3), (2, 2), (2, 3), (0, 0), (4, 2)] {
        let dithered = PixelBuffer::new(3, 2).unwrap();
        let out = embed(dithered, &gradient(width, height));
        assert_eq!(out.err(), Some(StegoError::InvalidInput));
    }
    assert!(embed(PixelBuffer::new(3, 2).unwrap(), &gradient(3, 2)).is_ok());
    assert!(embed(PixelBuffer::new(0, 0).unwrap(), &gradient(0, 0)).is_ok());
}

#[test]
fn encoded_image_has_the_size_of_the_secret() {
    for (width, height, carrier_width, carrier_height) in
        [(4, 3, 10, 10), (9, 7, 2, 3), (5, 5, 5, 5), (1, 1, 6, 2), (12, 1, 1, 1)]
    {
        let encoded =
            encode_image(&gradient(width, height), &gradient(carrier_width, carrier_height))
                .unwrap();
        assert_eq!(encoded.dimensions(), (width, height));
        let decoded = decode_image(&image_of(&encoded)).unwrap();
        assert_eq!(decoded.dimensions(), (width, height));
    }
}

#[test]
fn encoded_image_keeps_the_high_nibbles_of_the_resized_carrier() {
    let secret = gradient(7, 5);
    let carrier = gradient(13, 11);
    let encoded = encode_image(&secret, &carrier).unwrap();
    let resized = carrier.resize_exact(7, 5, FilterType::Lanczos3);
    let dithered = dither_image(&secret).unwrap();
    for y in 0..5 {
        for x in 0..7 {
            let out = encoded.get(x, y).unwrap();
            let c = resized.get_pixel(x, y);
            let s = dithered.get(x, y).unwrap();
            assert_eq!(out.r & 0xF0, c[0] & 0xF0);
            assert_eq!(out.g & 0xF0, c[1] & 0xF0);
            assert_eq!(out.b & 0xF0, c[2] & 0xF0);
            assert_eq!(out.r & 0x0F, if s.r == 255 { 0x0F } else { 0 });
            assert_eq!(out.g & 0x0F, if s.g == 255 { 0x0F } else { 0 });
            assert_eq!(out.b & 0x0F, if s.b == 255 { 0x0F } else { 0 });
            assert_eq!(out.a, 255);
        }
    }
}

#[test]
fn white_secret_comes_back_as_240() {
    for (width, height) in [(1, 1), (4, 3), (16, 9)] {
        for carrier in [gradient(5, 5), gradient(width, height), uniform(2, 7, [1, 2, 3, 4])] {
            let encoded =
                encode_image(&uniform(width, height, [255, 255, 255, 255]), &carrier).unwrap();
            let decoded = decode_image(&image_of(&encoded)).unwrap();
            assert_eq!(
                image_of(&decoded).to_rgba8(),
                RgbaImage::from_pixel(width, height, Rgba([240, 240, 240, 255]))
            );
        }
    }
}

#[test]
fn black_secret_comes_back_as_black() {
    for (width, height) in [(1, 1), (4, 3), (16, 9)] {
        for carrier in [gradient(5, 5), gradient(width, height), uniform(2, 7, [255, 255, 255, 0])]
        {
            let encoded = encode_image(&uniform(width, height, [0, 0, 0, 255]), &carrier).unwrap();
            let decoded = decode_image(&image_of(&encoded)).unwrap();
            assert_eq!(
                image_of(&decoded).to_rgba8(),
                RgbaImage::from_pixel(width, height, Rgba([0, 0, 0, 255]))
            );
        }
    }
}

#[test]
fn decoded_image_is_the_dithered_secret_with_255_as_240() {
    let secret = gradient(11, 6);
    let encoded = encode_image(&secret, &gradient(3, 8)).unwrap();
    let decoded = decode_image(&image_of(&encoded)).unwrap();
    let dithered = dither_image(&secret).unwrap();
    let scale = |v: u8| if v == 255 { 240 } else { 0 };
    for y in 0..6 {
        for x in 0..11 {
            let d = dithered.get(x, y).unwrap();
            let expected = Pixel { r: scale(d.r), g: scale(d.g), b: scale(d.b), a: 255 };
            assert_eq!(decoded.get(x, y), Some(expected));
        }
    }
}

#[test]
fn encode_refuses_a_carrier_without_pixels() {
    let secret = gradient(3, 3);
    for (width, height) in [(0, 0), (0, 4), (4, 0)] {
        let out = encode_image(&secret, &uniform(width, height, [0, 0, 0, 0]));
        assert_eq!(out.err(), Some(StegoError::InvalidImage));
    }
}

#[test]
fn encode_of_a_secret_without_pixels() {
    for (width, height) in [(0, 0), (0, 4), (4, 0)] {
        let secret = uniform(width, height, [0, 0, 0, 0]);
        let encoded = encode_image(&secret, &gradient(3, 3)).unwrap();
        assert_eq!(encoded.dimensions(), (width, height));
        let encoded = encode_image(&secret, &uniform(0, 0, [0, 0, 0, 0])).unwrap();
        assert_eq!(encoded.dimensions(), (width, height));
    }
}

#[test]
fn repeated_calls_give_the_same_bytes() {
    let secret = gradient(9, 9);
    let carrier = gradient(4, 17);
    let first = image_of(&encode_image(&secret, &carrier).unwrap()).into_bytes();
    let second = image_of(&encode_image(&secret, &carrier).unwrap()).into_bytes();
    assert_eq!(first, second);
    let combined = DynamicImage::ImageRgba8(RgbaImage::from_raw(9, 9, first).unwrap());
    let one = image_of(&decode_image(&combined).unwrap()).into_bytes();
    let two = image_of(&decode_image(&combined).unwrap()).into_bytes();
    assert_eq!(one, two);
    let a = image_of(&dither_image(&secret).unwrap()).into_bytes();
    let b = image_of(&dither_image(&secret).unwrap()).into_bytes();
    assert_eq!(a, b);
}

#[test]
fn images_of_every_sample_type_are_read_as_8_bit_rgba() {
    let deep = DynamicImage::ImageRgb16(image::ImageBuffer::from_fn(4, 3, |x, y| {
        Rgb([(x * 20_000) as u16, (y * 30_000) as u16, 65_535])
    }));
    let float = DynamicImage::ImageRgba32F(image::ImageBuffer::from_fn(4, 3, |x, y| {
        Rgba([x as f32 / 3.0, y as f32 / 2.0, f32::NAN, f32::INFINITY])
    }));
    let gray_alpha = DynamicImage::ImageLumaA8(image::ImageBuffer::from_fn(4, 3, |x, y| {
        image::LumaA([(x * 60 + y) as u8, 9])
    }));
    for img in [deep, float, gray_alpha] {
        let dithered = dither_image(&img).unwrap();
        assert_eq!(dithered.dimensions(), (4, 3));
        let decoded = decode_image(&img).unwrap();
        for y in 0..3 {
            for x in 0..4 {
                let d = dithered.get(x, y).unwrap();
                assert!(d.r == 0 || d.r == 255);
                assert_eq!(d.a, 255);
                let c = img.get_pixel(x, y);
                let expected =
                    Pixel { r: (c[0] & 0x0F) << 4, g: (c[1] & 0x0F) << 4, b: (c[2] & 0x0F) << 4, a: 255 };
                assert_eq!(decoded.get(x, y), Some(expected));
            }
        }
        let resized = resize_image(&img, 7, 2).unwrap();
        assert_eq!(resized.dimensions(), (7, 2));
        assert_eq!(resized.color(), img.color());
        let encoded = encode_image(&uniform(5, 5, [255, 255, 255, 255]), &img).unwrap();
        let carrier = img.resize_exact(5, 5, FilterType::Lanczos3);
        for y in 0..5 {
            for x in 0..5 {
                let out = encoded.get(x, y).unwrap();
                let c = carrier.get_pixel(x, y);
                assert_eq!(out, Pixel { r: c[0] | 0x0F, g: c[1] | 0x0F, b: c[2] | 0x0F, a: 255 });
            }
        }
    }
}

#[test]
fn resize_by_large_factors() {
    let img = gradient(3, 2);
    let up = resize_image(&img, 300, 1).unwrap();
    assert_eq!(up.dimensions(), (300, 1));
    let wide = gradient(2000, 1);
    let down = resize_image(&wide, 1, 40).unwrap();
    assert_eq!(down.dimensions(), (1, 40));
    assert_eq!(down.to_rgba8(), wide.resize_exact(1, 40, FilterType::Lanczos3).to_rgba8());
}
