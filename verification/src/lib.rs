//! Hiding an image in the low nibbles of another one, and getting it out
//! again.
//!
//! The secret is dithered to one bit per colour channel, the carrier is
//! resized to the size of the secret, and each channel of the combined image
//! takes its high nibble from the carrier and its low nibble, all zeros or
//! all ones, from the dithered secret. Extracting moves the low nibbles up
//! again, so the secret comes back in the two levels 0 and 240.
//!
//! - [`pixel`]: the arithmetic on one channel and one pixel.
//! - [`grid`]: the model of an image and of the transforms, over which the
//!   contracts are stated.
//! - [`buffer`]: the images of the `image` crate, and what is taken on trust
//!   about them.
//! - [`dither`], [`codec`]: the transforms on images.
//! - [`wire`], [`service`]: the message between client and server, and what
//!   each end computes.
//! - [`laws`]: what holds of the transforms whatever the images are.

pub mod buffer;
pub mod codec;
pub mod dither;
pub mod error;
pub mod grid;
pub mod laws;
pub mod pixel;
pub mod service;
pub mod wire;
