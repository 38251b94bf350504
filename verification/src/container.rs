//! The container adapter: between PNG byte streams and flat RGBA8 sample
//! buffers.
//!
//! The PNG container itself is handled by the `png` crate behind two trusted
//! wrappers, one for decoding and one for encoding. Decoding yields an 8-bit
//! sample buffer of one to four channels per pixel; the verified
//! [`expand_to_rgba`] then widens it to the canonical four-channel RGBA8
//! form, so that every loaded image is 8-bit-per-channel and 4-channel
//! whatever the source file stored.

use vstd::prelude::*;
use vstd::arithmetic::div_mod::lemma_fundamental_div_mod;
use vstd::arithmetic::div_mod::lemma_fundamental_div_mod_converse;
use vstd::arithmetic::div_mod::lemma_div_by_multiple;
use vstd::arithmetic::div_mod::lemma_mod_multiples_basic;
use vstd::arithmetic::mul::lemma_mul_upper_bound;

use crate::StegError;

verus! {

/// The error type of png's decoder, declared so that the decode wrapper can
/// return it; verified code only maps it to [`StegError`].
#[verifier::external_type_specification]
#[verifier::external_body]
pub struct ExDecodingError(png::DecodingError);

/// The error type of png's encoder, declared so that the encode wrapper can
/// return it; verified code only maps it to [`StegError`].
#[verifier::external_type_specification]
#[verifier::external_body]
pub struct ExEncodingError(png::EncodingError);

/// What the PNG decoder yields for a given byte stream, when asked to expand
/// palettes and strip 16-bit samples down to 8: the flat 8-bit sample buffer,
/// the width, the height, and the channel count, or nothing where the bytes
/// are not a decodable PNG. Decoding an in-memory byte stream is a pure
/// function of the bytes.
pub uninterp spec fn png_decode_of(bytes: Seq<u8>) -> Option<(Seq<u8>, u32, u32, u32)>;

/// What the PNG encoder produces for a full RGBA8 frame of the given
/// geometry. Encoding is a pure function of the sample buffer and the
/// dimensions.
pub uninterp spec fn png_encode_of(pixels: Seq<u8>, width: u32, height: u32) -> Seq<u8>;

/// Whether the byte stream decodes as a PNG.
pub open spec fn decode_ok(bytes: Seq<u8>) -> bool {
    png_decode_of(bytes) is Some
}

/// The RGBA8 pixel buffer a decodable byte stream yields.
pub open spec fn decoded_rgba(bytes: Seq<u8>) -> Seq<u8>
    recommends
        decode_ok(bytes),
{
    let d = png_decode_of(bytes)->0;
    rgba_of(d.0, d.3)
}

/// The pixel width a decodable byte stream reports.
pub open spec fn decoded_width(bytes: Seq<u8>) -> u32
    recommends
        decode_ok(bytes),
{
    (png_decode_of(bytes)->0).1
}

/// The pixel height a decodable byte stream reports.
pub open spec fn decoded_height(bytes: Seq<u8>) -> u32
    recommends
        decode_ok(bytes),
{
    (png_decode_of(bytes)->0).2
}

/// A decoded frame as the PNG decoder hands it over: 8-bit samples with
/// `channels` samples per pixel, row-major.
pub struct Decoded {
    pub samples: Vec<u8>,
    pub width: u32,
    pub height: u32,
    pub channels: u32,
}

/// A full RGBA8 frame: four 8-bit samples per pixel, row-major.
pub struct Image {
    pub pixels: Vec<u8>,
    pub width: u32,
    pub height: u32,
}

impl Image {
    /// The pixel buffer length fits the stated geometry.
    pub open spec fn wf(&self) -> bool {
        self.pixels@.len() == self.width as int * self.height as int * 4
    }
}

/// Relies on png::Decoder and png::Reader::next_frame, with the EXPAND and
/// STRIP_16 transformations: on success the frame is 8-bit with one, two,
/// three or four channels, the buffer holds exactly `line_size * height ==
/// width * height * channels` bytes, and the header dimensions are nonzero.
#[verifier::external_body]
fn decode_png(bytes: &Vec<u8>) -> (r: Result<Decoded, png::DecodingError>)
    ensures
        match r {
            Ok(d) => {
                &&& png_decode_of(bytes@) == Some((d.samples@, d.width, d.height, d.channels))
                &&& d.samples@.len() == d.width as int * d.height as int * d.channels as int
                &&& 1 <= d.channels <= 4
                &&& d.width >= 1
                &&& d.height >= 1
            },
            Err(_) => png_decode_of(bytes@) is None,
        },
{
    let mut decoder = png::Decoder::new(bytes.as_slice());
    decoder.set_transformations(png::Transformations::normalize_to_color8());
    let mut reader = decoder.read_info()?;
    let mut samples = vec![0u8; reader.output_buffer_size()];
    let info = reader.next_frame(&mut samples)?;
    samples.truncate(info.buffer_size());
    Ok(Decoded {
        samples,
        width: info.width,
        height: info.height,
        channels: info.color_type.samples() as u32,
    })
}

/// Relies on png::Encoder with RGBA colour and eight-bit depth, writing into
/// a byte vector: with nonzero dimensions and a buffer of exactly
/// `width * height * 4` bytes, writing the header and the image data cannot
/// fail, and the output is a function of the samples and the geometry.
#[verifier::external_body]
fn encode_png(pixels: &Vec<u8>, width: u32, height: u32) -> (r: Result<
    Vec<u8>,
    png::EncodingError,
>)
    requires
        width >= 1,
        height >= 1,
        pixels@.len() == width as int * height as int * 4,
    ensures
        r is Ok,
        r matches Ok(out) ==> out@ == png_encode_of(pixels@, width, height),
{
    let mut out: Vec<u8> = Vec::new();
    let mut encoder = png::Encoder::new(&mut out, width, height);
    encoder.set_color(png::ColorType::Rgba);
    encoder.set_depth(png::BitDepth::Eight);
    let mut writer = encoder.write_header()?;
    writer.write_image_data(pixels)?;
    writer.finish()?;
    Ok(out)
}

/// Sample `j` of the RGBA8 widening of a buffer with `channels` samples per
/// pixel: grayscale is repeated over the three colour channels, a missing
/// alpha channel becomes fully opaque.
pub open spec fn rgba_sample(samples: Seq<u8>, channels: u32, j: int) -> u8
    recommends
        1 <= channels <= 4,
        samples.len() as int % (channels as int) == 0,
        0 <= j < samples.len() as int / (channels as int) * 4,
{
    let p = j / 4;
    let k = j % 4;
    if channels == 1 {
        if k == 3 {
            255
        } else {
            samples[p]
        }
    } else if channels == 2 {
        if k == 3 {
            samples[2 * p + 1]
        } else {
            samples[2 * p]
        }
    } else if channels == 3 {
        if k == 3 {
            255
        } else {
            samples[3 * p + k]
        }
    } else {
        samples[j]
    }
}

/// The RGBA8 widening of a whole sample buffer.
pub open spec fn rgba_of(samples: Seq<u8>, channels: u32) -> Seq<u8>
    recommends
        1 <= channels <= 4,
        samples.len() as int % (channels as int) == 0,
{
    Seq::new(
        ((samples.len() as int) / (channels as int) * 4) as nat,
        |j: int| rgba_sample(samples, channels, j),
    )
}

/// Arithmetic facts for one step of the widening loop: the input index `i`
/// advances by one pixel of `c` samples while the output grows by one pixel
/// of four samples.
proof fn lemma_expand_step(i: int, len: int, c: int, start: int)
    requires
        1 <= c <= 4,
        0 <= i < len,
        i % c == 0,
        len % c == 0,
        start == i / c * 4,
    ensures
        i + c <= len,
        c * (i / c) == i,
        (i + c) % c == 0,
        (i + c) / c * 4 == start + 4,
        forall|k: int| 0 <= k < 4 ==> (#[trigger] ((start + k) / 4)) == i / c,
        forall|k: int| 0 <= k < 4 ==> (#[trigger] ((start + k) % 4)) == k,
{
    lemma_fundamental_div_mod(i, c);
    lemma_fundamental_div_mod(len, c);
    let p = i / c;
    let q = len / c;
    assert(p < q) by (nonlinear_arith)
        requires
            i == c * p,
            len == c * q,
            i < len,
            c >= 1,
    ;
    assert(c * p + c <= c * q) by (nonlinear_arith)
        requires
            p < q,
            c >= 1,
    ;
    assert(i + c == (p + 1) * c) by (nonlinear_arith)
        requires
            i == c * p,
    ;
    lemma_fundamental_div_mod_converse(i + c, c, p + 1, 0);
    assert forall|k: int| 0 <= k < 4 implies (#[trigger] ((start + k) / 4)) == p && (#[trigger] ((
    start + k) % 4)) == k by {
        lemma_fundamental_div_mod_converse(start + k, 4, p, k);
    }
}

/// Widen an 8-bit sample buffer of one to four channels per pixel to RGBA8.
pub fn expand_to_rgba(samples: Vec<u8>, channels: u32) -> (r: Vec<u8>)
    requires
        1 <= channels <= 4,
        samples@.len() as int % (channels as int) == 0,
    ensures
        r@ == rgba_of(samples@, channels),
{
    if channels == 4 {
        proof {
            lemma_fundamental_div_mod(samples@.len() as int, 4);
            assert(samples@ =~= rgba_of(samples@, 4));
        }
        return samples;
    }
    let mut out: Vec<u8> = Vec::new();
    let mut i: usize = 0;
    let n: usize = samples.len();
    while i < n
        invariant
            1 <= channels <= 3,
            n == samples@.len(),
            samples@.len() as int % (channels as int) == 0,
            i <= samples@.len(),
            i as int % (channels as int) == 0,
            out@.len() == i as int / (channels as int) * 4,
            forall|j: int| 0 <= j < out@.len() ==> out@[j] == rgba_sample(samples@, channels, j),
        decreases samples@.len() - i,
    {
        proof {
            lemma_expand_step(
                i as int,
                samples@.len() as int,
                channels as int,
                out@.len() as int,
            );
        }
        if channels == 1 {
            let g = samples[i];
            out.push(g);
            out.push(g);
            out.push(g);
            out.push(255);
            i = i + 1;
        } else if channels == 2 {
            let g = samples[i];
            let a = samples[i + 1];
            out.push(g);
            out.push(g);
            out.push(g);
            out.push(a);
            i = i + 2;
        } else {
            out.push(samples[i]);
            out.push(samples[i + 1]);
            out.push(samples[i + 2]);
            out.push(255);
            i = i + 3;
        }
    }
    proof {
        assert(out@ =~= rgba_of(samples@, channels));
    }
    out
}

/// Decode a PNG byte stream into a full RGBA8 frame, whatever colour type
/// and bit depth the stream stores. Fails exactly when the bytes are not a
/// decodable PNG.
pub fn load_image(bytes: &Vec<u8>) -> (r: Result<Image, StegError>)
    ensures
        match r {
            Ok(img) => {
                &&& decode_ok(bytes@)
                &&& img.pixels@ == decoded_rgba(bytes@)
                &&& img.width == decoded_width(bytes@)
                &&& img.height == decoded_height(bytes@)
                &&& img.wf()
                &&& img.width >= 1
                &&& img.height >= 1
            },
            Err(e) => e == StegError::ContainerDecodeError && !decode_ok(bytes@),
        },
{
    match decode_png(bytes) {
        Ok(d) => {
            proof {
                lemma_mod_multiples_basic(
                    d.width as int * d.height as int,
                    d.channels as int,
                );
                lemma_div_by_multiple(d.width as int * d.height as int, d.channels as int);
            }
            let width = d.width;
            let height = d.height;
            let channels = d.channels;
            let pixels = expand_to_rgba(d.samples, channels);
            Ok(Image { pixels, width, height })
        },
        Err(_) => Err(StegError::ContainerDecodeError),
    }
}

/// Encode a full RGBA8 frame of the given geometry as a PNG byte stream.
/// Fails exactly when the buffer length does not fit the geometry, zero
/// dimensions included; nothing is written in that case.
pub fn save_image(pixels: &Vec<u8>, width: u32, height: u32) -> (r: Result<Vec<u8>, StegError>)
    ensures
        match r {
            Ok(out) => {
                &&& width >= 1
                &&& height >= 1
                &&& pixels@.len() == width as int * height as int * 4
                &&& out@ == png_encode_of(pixels@, width, height)
            },
            Err(e) => e == StegError::ContainerEncodeError && (width == 0 || height == 0
                || pixels@.len() != width as int * height as int * 4),
        },
{
    if width == 0 || height == 0 {
        return Err(StegError::ContainerEncodeError);
    }
    proof {
        lemma_mul_upper_bound(width as int, u32::MAX as int, height as int, u32::MAX as int);
    }
    let need: u128 = width as u128 * height as u128 * 4;
    if pixels.len() as u128 != need {
        return Err(StegError::ContainerEncodeError);
    }
    match encode_png(pixels, width, height) {
        Ok(out) => Ok(out),
        Err(_) => Err(StegError::ContainerEncodeError),
    }
}

} // verus!
