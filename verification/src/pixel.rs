//! Pixels and the arithmetic done on a single channel: thresholding, the
//! quantisation error, error diffusion onto a neighbour, and the packing of a
//! carrier channel and a secret channel into one byte.

use vstd::prelude::*;

verus! {

/// One RGBA pixel, eight bits per channel.
#[derive(Clone, Copy, Debug, PartialEq, Eq, Structural)]
pub struct Pixel {
    pub r: u8,
    pub g: u8,
    pub b: u8,
    pub a: u8,
}

/// The four neighbours that receive a share of a pixel's quantisation error,
/// in the order in which the scan updates them.
#[derive(Clone, Copy, Debug, PartialEq, Eq, Structural)]
pub enum Neighbor {
    /// `(x + 1, y)`
    Right,
    /// `(x - 1, y + 1)`
    BelowLeft,
    /// `(x, y + 1)`
    Below,
    /// `(x + 1, y + 1)`
    BelowRight,
}

/// The denominator of the diffusion weights.
pub const WEIGHT_DENOMINATOR: i32 = 16;

/// The largest channel value.
pub const CHANNEL_MAX: u8 = 255;

/// A channel value above this becomes `CHANNEL_MAX`, any other becomes 0.
pub const THRESHOLD: u8 = 127;

impl Neighbor {
    /// The share of the error that this neighbour receives, in sixteenths.
    pub open spec fn weight(self) -> int {
        match self {
            Neighbor::Right => 7,
            Neighbor::BelowLeft => 3,
            Neighbor::Below => 5,
            Neighbor::BelowRight => 1,
        }
    }

    /// Horizontal offset of the neighbour from the pixel being quantised.
    pub open spec fn dx(self) -> int {
        match self {
            Neighbor::Right => 1,
            Neighbor::BelowLeft => -1,
            Neighbor::Below => 0,
            Neighbor::BelowRight => 1,
        }
    }

    /// Vertical offset of the neighbour from the pixel being quantised.
    pub open spec fn dy(self) -> int {
        match self {
            Neighbor::Right => 0,
            Neighbor::BelowLeft => 1,
            Neighbor::Below => 1,
            Neighbor::BelowRight => 1,
        }
    }

    /// The weight as a machine integer.
    pub fn weight_sixteenths(self) -> (w: i32)
        ensures
            w == self.weight(),
    {
        match self {
            Neighbor::Right => 7,
            Neighbor::BelowLeft => 3,
            Neighbor::Below => 5,
            Neighbor::BelowRight => 1,
        }
    }
}

/// The binary value that a channel value is quantised to.
pub open spec fn thresholded(v: u8) -> u8 {
    if v > THRESHOLD {
        CHANNEL_MAX
    } else {
        0
    }
}

/// What quantisation takes away from a channel: the value before minus the
/// value after. It lies in `[-255, 255]`.
pub open spec fn quantization_error(v: u8) -> int {
    v - thresholded(v)
}

/// The share of the error `e` that goes to a neighbour of the given weight,
/// in sixteenths of a channel step.
pub open spec fn error_share(e: int, weight: int) -> int {
    weight * e
}

/// A neighbour's channel `n` after it received `weight` sixteenths of the
/// error `e`: the exact sum `n + weight * e / 16`, clamped to `[0, 255]` and
/// then cut down to a whole number.
pub open spec fn diffused(n: u8, e: int, weight: int) -> u8 {
    let sixteenths = WEIGHT_DENOMINATOR * n + error_share(e, weight);
    if sixteenths <= 0 {
        0u8
    } else if sixteenths >= WEIGHT_DENOMINATOR * CHANNEL_MAX {
        CHANNEL_MAX
    } else {
        (sixteenths / WEIGHT_DENOMINATOR as int) as u8
    }
}

/// The combined channel: the carrier's high nibble above the secret's high
/// nibble.
pub open spec fn packed(carrier: u8, secret: u8) -> u8 {
    (carrier & 0xF0) | ((secret & 0xF0) >> 4)
}

/// The channel recovered from a combined channel: its low nibble, moved up.
pub open spec fn unpacked(combined: u8) -> u8 {
    (combined & 0x0F) << 4
}

/// Quantises one channel value to 0 or 255.
pub fn threshold_channel(v: u8) -> (out: u8)
    ensures
        out == thresholded(v),
{
    if v > THRESHOLD {
        CHANNEL_MAX
    } else {
        0
    }
}

/// The quantisation error of one channel value.
pub fn channel_error(v: u8) -> (e: i32)
    ensures
        e == quantization_error(v),
        -255 <= e <= 255,
{
    v as i32 - threshold_channel(v) as i32
}

/// Adds to the neighbour's channel `n` its share of the quantisation error of
/// the channel value `source`.
pub fn diffuse_channel(n: u8, source: u8, to: Neighbor) -> (out: u8)
    ensures
        out == diffused(n, quantization_error(source), to.weight()),
{
    let e = channel_error(source);
    let w = to.weight_sixteenths();
    assert(-255 * 7 <= w * e <= 255 * 7) by (nonlinear_arith)
        requires
            -255 <= e <= 255,
            1 <= w <= 7,
    ;
    let sixteenths: i32 = WEIGHT_DENOMINATOR * (n as i32) + w * e;
    if sixteenths <= 0 {
        0
    } else if sixteenths >= WEIGHT_DENOMINATOR * (CHANNEL_MAX as i32) {
        CHANNEL_MAX
    } else {
        (sixteenths / WEIGHT_DENOMINATOR) as u8
    }
}

/// Packs a carrier channel and a secret channel into one byte.
pub fn pack_channel(carrier: u8, secret: u8) -> (out: u8)
    ensures
        out == packed(carrier, secret),
{
    (carrier & 0xF0) | ((secret & 0xF0) >> 4)
}

/// Recovers the secret's channel from a combined byte.
pub fn unpack_channel(combined: u8) -> (out: u8)
    ensures
        out == unpacked(combined),
{
    (combined & 0x0F) << 4
}

impl Pixel {
    /// The pixel after quantisation: each colour channel 0 or 255, opaque.
    pub open spec fn quantized(self) -> Pixel {
        Pixel {
            r: thresholded(self.r),
            g: thresholded(self.g),
            b: thresholded(self.b),
            a: CHANNEL_MAX,
        }
    }

    /// This pixel, as neighbour `to` of a pixel that held `source` before it
    /// was quantised, after it received its share of that pixel's error.
    pub open spec fn receiving(self, source: Pixel, to: Neighbor) -> Pixel {
        Pixel {
            r: diffused(self.r, quantization_error(source.r), to.weight()),
            g: diffused(self.g, quantization_error(source.g), to.weight()),
            b: diffused(self.b, quantization_error(source.b), to.weight()),
            a: CHANNEL_MAX,
        }
    }

    /// This carrier pixel with the secret pixel packed into its low nibbles.
    pub open spec fn carrying(self, secret: Pixel) -> Pixel {
        Pixel {
            r: packed(self.r, secret.r),
            g: packed(self.g, secret.g),
            b: packed(self.b, secret.b),
            a: CHANNEL_MAX,
        }
    }

    /// The secret pixel that this combined pixel carries.
    pub open spec fn extracted(self) -> Pixel {
        Pixel { r: unpacked(self.r), g: unpacked(self.g), b: unpacked(self.b), a: CHANNEL_MAX }
    }

    /// Every colour channel is 0 or 255 and the pixel is opaque.
    pub open spec fn is_binary(self) -> bool {
        &&& self.r == 0 || self.r == CHANNEL_MAX
        &&& self.g == 0 || self.g == CHANNEL_MAX
        &&& self.b == 0 || self.b == CHANNEL_MAX
        &&& self.a == CHANNEL_MAX
    }

    /// Quantises the three colour channels and makes the pixel opaque.
    pub fn quantize(self) -> (out: Pixel)
        ensures
            out == self.quantized(),
    {
        Pixel {
            r: threshold_channel(self.r),
            g: threshold_channel(self.g),
            b: threshold_channel(self.b),
            a: CHANNEL_MAX,
        }
    }

    /// Adds to this pixel, the neighbour `to` of a pixel that held `source`
    /// before quantisation, its share of that pixel's quantisation error.
    pub fn receive(self, source: Pixel, to: Neighbor) -> (out: Pixel)
        ensures
            out == self.receiving(source, to),
    {
        Pixel {
            r: diffuse_channel(self.r, source.r, to),
            g: diffuse_channel(self.g, source.g, to),
            b: diffuse_channel(self.b, source.b, to),
            a: CHANNEL_MAX,
        }
    }

    /// Packs the secret pixel into the low nibbles of this carrier pixel.
    pub fn carry(self, secret: Pixel) -> (out: Pixel)
        ensures
            out == self.carrying(secret),
    {
        Pixel {
            r: pack_channel(self.r, secret.r),
            g: pack_channel(self.g, secret.g),
            b: pack_channel(self.b, secret.b),
            a: CHANNEL_MAX,
        }
    }

    /// Extracts the secret pixel from this combined pixel.
    pub fn extract(self) -> (out: Pixel)
        ensures
            out == self.extracted(),
    {
        Pixel {
            r: unpack_channel(self.r),
            g: unpack_channel(self.g),
            b: unpack_channel(self.b),
            a: CHANNEL_MAX,
        }
    }
}

} // verus!
