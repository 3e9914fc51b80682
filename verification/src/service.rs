//! What the two ends of the exchange compute between receiving bytes and
//! sending bytes.
//!
//! The client sends one message that carries the secret and the carrier as
//! PNG files. The server answers with the combined image as a PNG file. The
//! client extracts the secret from the answer.

use crate::buffer::{
    agrees, image_from_memory, image_write_png, png_of, png_of_image, PixelBuffer,
};
use crate::codec::{decode_image, decoding_of, encode_image, encoding_of};
use crate::error::StegoError;
use crate::grid::Grid;
use crate::wire::{frame, framed, unframe, unframed};
use vstd::prelude::*;

verus! {

/// The message that asks for `secret` to be hidden in `carrier`, if there is
/// one: both images must have a PNG file, of less than 2^32 bytes.
pub open spec fn request_for(secret: &image::DynamicImage, carrier: &image::DynamicImage) -> Result<
    Seq<u8>,
    StegoError,
> {
    match (png_of_image(*secret), png_of_image(*carrier)) {
        (Some(secret_file), Some(carrier_file)) => if secret_file.len() <= u32::MAX
            && carrier_file.len() <= u32::MAX {
            Ok(framed(secret_file, carrier_file))
        } else {
            Err(StegoError::TooLarge)
        },
        _ => Err(StegoError::InvalidImage),
    }
}

/// Builds the message that asks for `secret` to be hidden in `carrier`.
pub fn request(secret: &image::DynamicImage, carrier: &image::DynamicImage) -> (message: Result<
    Vec<u8>,
    StegoError,
>)
    ensures
        match message {
            Ok(bytes) => request_for(secret, carrier) == Ok::<Seq<u8>, StegoError>(bytes@),
            Err(e) => request_for(secret, carrier) == Err::<Seq<u8>, StegoError>(e),
        },
{
    let secret_file = match image_write_png(secret) {
        Ok(bytes) => bytes,
        Err(_) => {
            return Err(StegoError::InvalidImage);
        },
    };
    let carrier_file = match image_write_png(carrier) {
        Ok(bytes) => bytes,
        Err(_) => {
            return Err(StegoError::InvalidImage);
        },
    };
    frame(secret_file.as_slice(), carrier_file.as_slice())
}

/// The server's answer where `secret` is to be hidden in `carrier`: the PNG
/// file of the combined image, or the reason for which there is none.
pub open spec fn reply_for(secret: &image::DynamicImage, carrier: &image::DynamicImage) -> Result<
    Seq<u8>,
    StegoError,
> {
    match encoding_of(secret, carrier) {
        Err(e) => Err(e),
        Ok(combined) => match png_of(combined) {
            Some(file) => Ok(file),
            None => Err(StegoError::InvalidImage),
        },
    }
}

/// The server's answer where the two images of a message were handed to the
/// decoder: an image that the decoder refused is an invalid image; else the
/// first is hidden in the second and the combined image is written as a PNG
/// file.
pub fn answer_loaded(
    secret: Result<image::DynamicImage, image::ImageError>,
    carrier: Result<image::DynamicImage, image::ImageError>,
) -> (reply: Result<Vec<u8>, StegoError>)
    ensures
        match (secret, carrier) {
            (Ok(secret_image), Ok(carrier_image)) => match reply {
                Ok(bytes) => reply_for(&secret_image, &carrier_image) == Ok::<Seq<u8>, StegoError>(
                    bytes@,
                ),
                Err(e) => reply_for(&secret_image, &carrier_image) == Err::<Seq<u8>, StegoError>(
                    e,
                ),
            },
            _ => reply matches Err(e) && e == StegoError::InvalidImage,
        },
{
    match (secret, carrier) {
        (Ok(secret_image), Ok(carrier_image)) => match encode_image(&secret_image, &carrier_image) {
            Ok(combined) => combined.to_png(),
            Err(e) => Err(e),
        },
        _ => Err(StegoError::InvalidImage),
    }
}

/// Extracts the secret from a combined image, where it was decoded: an image
/// that the decoder refused is an invalid image.
pub fn decode_loaded(combined: Result<image::DynamicImage, image::ImageError>) -> (decoded: Result<
    PixelBuffer,
    StegoError,
>)
    ensures
        match combined {
            Ok(combined_image) => agrees(decoded, decoding_of(&combined_image)),
            Err(_) => decoded matches Err(e) && e == StegoError::InvalidImage,
        },
{
    match combined {
        Ok(combined_image) => decode_image(&combined_image),
        Err(_) => Err(StegoError::InvalidImage),
    }
}

/// The server's answer to one message: the two images that the message
/// carries are decoded, the first is hidden in the second, and the combined
/// image is written as a PNG file. What is not a message is refused as
/// invalid input, and nothing else is. Which images the decoder finds in the
/// message is left to the decoder; an answer is always the answer for two
/// images.
pub fn answer(message: &[u8]) -> (reply: Result<Vec<u8>, StegoError>)
    ensures
        unframed(message@) is None <==> (reply matches Err(e) && e == StegoError::InvalidInput),
        reply matches Ok(bytes) ==> exists|secret: image::DynamicImage, carrier: image::DynamicImage|
            #[trigger] reply_for(&secret, &carrier) == Ok::<Seq<u8>, StegoError>(bytes@),
{
    let (secret_file, carrier_file) = match unframe(message) {
        Ok(parts) => parts,
        Err(e) => {
            return Err(e);
        },
    };
    let secret = image_from_memory(secret_file.as_slice());
    let carrier = image_from_memory(carrier_file.as_slice());
    let ghost found = (secret, carrier);
    let reply = answer_loaded(secret, carrier);
    proof {
        if reply is Ok {
            let secret_image = found.0->Ok_0;
            let carrier_image = found.1->Ok_0;
            assert(reply_for(&secret_image, &carrier_image) == Ok::<Seq<u8>, StegoError>(
                reply->Ok_0@,
            ));
        }
    }
    reply
}

/// The secret that the server's answer carries: the answer is decoded, and
/// the secret is extracted from it. An answer that is no image is refused as
/// an invalid image. Which image the decoder finds in the answer is left to
/// the decoder; what is recovered is always extracted from an image.
pub fn recover(reply: &[u8]) -> (secret: Result<PixelBuffer, StegoError>)
    ensures
        secret matches Err(e) ==> e == StegoError::InvalidImage || e == StegoError::TooLarge,
        secret matches Ok(out) ==> exists|combined: image::DynamicImage| #[trigger]
            decoding_of(&combined) == Ok::<Grid, StegoError>(out@),
{
    let loaded = image_from_memory(reply);
    let ghost found = loaded;
    let secret = decode_loaded(loaded);
    proof {
        if secret is Ok {
            let combined = found->Ok_0;
            assert(decoding_of(&combined) == Ok::<Grid, StegoError>(secret->Ok_0@));
        }
    }
    secret
}

} // verus!
