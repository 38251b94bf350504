//! Hiding a byte payload in the pixel data of a PNG image by
//! least-significant-bit substitution, and recovering it again.
//!
//! The codec that maps payload bytes onto sample bits lives in [`codec`]; the
//! container adapter that turns PNG byte streams into flat RGBA8 sample
//! buffers and back lives in [`container`].

use vstd::prelude::*;

pub mod codec;
pub mod container;

use crate::codec::embed;
use crate::codec::embed_spec;
use crate::codec::extract;
use crate::codec::extract_spec;
use crate::container::decode_ok;
use crate::container::decoded_height;
use crate::container::decoded_rgba;
use crate::container::decoded_width;
use crate::container::load_image;
use crate::container::png_encode_of;
use crate::container::save_image;

verus! {

/// Everything that can go wrong while embedding into or extracting from an
/// image.
#[derive(Clone, Copy, Debug, PartialEq, Eq, Structural)]
pub enum StegError {
    /// The payload holds more bits than the pixel buffer has samples; nothing
    /// was modified.
    CapacityExceeded,
    /// The image byte stream is not a PNG this library can decode.
    ContainerDecodeError,
    /// The pixel buffer does not fit the dimensions it is to be encoded with.
    ContainerEncodeError,
}

/// Decode a PNG byte stream, embed the payload over the least-significant
/// bits of its RGBA8 samples, and re-encode the mutated buffer as an RGBA8
/// PNG of the same geometry. The capacity check happens before any sample is
/// touched, so a payload that does not fit fails without a half-written
/// image.
pub fn embed_into_png(image: &Vec<u8>, payload: &Vec<u8>) -> (r: Result<Vec<u8>, StegError>)
    ensures
        match r {
            Ok(out) => {
                &&& decode_ok(image@)
                &&& 8 * payload@.len() <= decoded_rgba(image@).len()
                &&& out@ == png_encode_of(
                    embed_spec(decoded_rgba(image@), payload@),
                    decoded_width(image@),
                    decoded_height(image@),
                )
            },
            Err(e) => {
                ||| (e == StegError::ContainerDecodeError && !decode_ok(image@))
                ||| (e == StegError::CapacityExceeded && decode_ok(image@) && 8 * payload@.len()
                    > decoded_rgba(image@).len())
            },
        },
{
    let img = match load_image(image) {
        Ok(img) => img,
        Err(e) => {
            return Err(e);
        },
    };
    let width = img.width;
    let height = img.height;
    let mut pixels = img.pixels;
    match embed(&mut pixels, payload) {
        Ok(()) => {},
        Err(e) => {
            return Err(e);
        },
    }
    match save_image(&pixels, width, height) {
        Ok(out) => Ok(out),
        Err(e) => {
            // Unreachable: embedding keeps the buffer length, so it still
            // fits the decoded geometry, whose dimensions are nonzero.
            proof {
                assert(false);
            }
            Err(e)
        },
    }
}

/// Decode a PNG byte stream and read back everything its samples hold in
/// their least-significant bits, packed into whole bytes. Extraction knows
/// no payload length: it returns one byte for every full group of eight
/// samples, and it is a pure function of the image bytes.
pub fn extract_from_png(image: &Vec<u8>) -> (r: Result<Vec<u8>, StegError>)
    ensures
        match r {
            Ok(data) => decode_ok(image@) && data@ == extract_spec(decoded_rgba(image@)),
            Err(e) => e == StegError::ContainerDecodeError && !decode_ok(image@),
        },
{
    match load_image(image) {
        Ok(img) => Ok(extract(&img.pixels)),
        Err(e) => Err(e),
    }
}

} // verus!
