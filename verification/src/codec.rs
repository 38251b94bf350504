//! The bit codec: writing a byte payload over the least-significant bits of a
//! pixel sample buffer, and reading it back.
//!
//! A pixel buffer is a flat sequence of 8-bit samples (one byte per colour or
//! alpha channel of each pixel, row-major). Each sample can carry one payload
//! bit in its least-significant bit, so the capacity of a buffer is its length
//! in bits.

use vstd::prelude::*;
use vstd::arithmetic::div_mod::lemma_fundamental_div_mod;
use vstd::arithmetic::div_mod::lemma_fundamental_div_mod_converse;

use crate::StegError;

verus! {

/// Bit `k` of the payload byte stream, where bit `8*i` is the
/// most-significant bit of byte `i` and bit `8*i + 7` its least-significant
/// bit: payload bytes are embedded most-significant-bit first.
pub open spec fn payload_bit(payload: Seq<u8>, k: int) -> u8
    recommends
        0 <= k < 8 * payload.len(),
{
    (payload[k / 8] >> ((7 - k % 8) as u8)) & 1
}

/// Sample `i` of a pixel buffer after the payload has been embedded: the
/// first `8 * payload.len()` samples carry successive payload bits in their
/// least-significant bit and keep their seven high bits; every later sample
/// is untouched.
pub open spec fn embedded_sample(pixels: Seq<u8>, payload: Seq<u8>, i: int) -> u8
    recommends
        0 <= i < pixels.len(),
{
    if i < 8 * payload.len() {
        (pixels[i] & 0xFE) | payload_bit(payload, i)
    } else {
        pixels[i]
    }
}

/// The whole pixel buffer after embedding.
pub open spec fn embed_spec(pixels: Seq<u8>, payload: Seq<u8>) -> Seq<u8> {
    Seq::new(pixels.len(), |i: int| embedded_sample(pixels, payload, i))
}

/// Byte `i` of the extracted stream: the least-significant bits of samples
/// `8*i .. 8*i + 8`, in buffer order, the first giving the byte's
/// most-significant bit.
pub open spec fn extracted_byte(pixels: Seq<u8>, i: int) -> u8
    recommends
        0 <= i,
        8 * i + 8 <= pixels.len(),
{
    ((pixels[8 * i] & 1) << 7u8) | ((pixels[8 * i + 1] & 1) << 6u8)
        | ((pixels[8 * i + 2] & 1) << 5u8) | ((pixels[8 * i + 3] & 1) << 4u8)
        | ((pixels[8 * i + 4] & 1) << 3u8) | ((pixels[8 * i + 5] & 1) << 2u8)
        | ((pixels[8 * i + 6] & 1) << 1u8) | (pixels[8 * i + 7] & 1)
}

/// Everything the pixel buffer holds in its least-significant bits, packed
/// into whole bytes; a trailing group of fewer than eight samples is dropped.
pub open spec fn extract_spec(pixels: Seq<u8>) -> Seq<u8> {
    Seq::new(pixels.len() / 8, |i: int| extracted_byte(pixels, i))
}

/// Overwrite the least-significant bit of each of the first
/// `8 * payload.len()` samples with successive payload bits,
/// most-significant bit of each byte first. Fails, without touching the
/// buffer, exactly when the payload does not fit.
pub fn embed(pixels: &mut Vec<u8>, payload: &Vec<u8>) -> (r: Result<(), StegError>)
    ensures
        match r {
            Ok(()) => 8 * payload@.len() <= old(pixels)@.len() && final(pixels)@ == embed_spec(
                old(pixels)@,
                payload@,
            ),
            Err(e) => e == StegError::CapacityExceeded && 8 * payload@.len() > old(pixels)@.len()
                && final(pixels)@ == old(pixels)@,
        },
{
    proof {
        lemma_fundamental_div_mod(pixels@.len() as int, 8);
    }
    if payload.len() > pixels.len() / 8 {
        return Err(StegError::CapacityExceeded);
    }
    let total_bits: usize = payload.len() * 8;
    let ghost orig: Seq<u8> = pixels@;
    let mut k: usize = 0;
    while k < total_bits
        invariant
            total_bits == 8 * payload@.len(),
            total_bits <= orig.len(),
            k <= total_bits,
            pixels@.len() == orig.len(),
            forall|j: int| 0 <= j < k ==> pixels@[j] == embedded_sample(orig, payload@, j),
            forall|j: int| k <= j < orig.len() ==> pixels@[j] == orig[j],
        decreases total_bits - k,
    {
        proof {
            lemma_fundamental_div_mod(k as int, 8);
        }
        let byte: u8 = payload[k / 8];
        let shift: u8 = (7 - k % 8) as u8;
        let bit: u8 = (byte >> shift) & 1;
        let sample: u8 = pixels[k];
        pixels.set(k, (sample & 0xFE) | bit);
        k = k + 1;
    }
    proof {
        assert forall|j: int| 0 <= j < orig.len() implies pixels@[j] == embedded_sample(
            orig,
            payload@,
            j,
        ) by {
            if j >= total_bits {
                assert(pixels@[j] == orig[j]);
            }
        }
        assert(pixels@ =~= embed_spec(orig, payload@));
    }
    Ok(())
}

/// Read the least-significant bit of every sample and pack each run of eight
/// bits into one byte, the first bit becoming the byte's most-significant
/// bit; a trailing group of fewer than eight samples is dropped. The result
/// is a pure function of the pixel buffer.
pub fn extract(pixels: &Vec<u8>) -> (r: Vec<u8>)
    ensures
        r@ == extract_spec(pixels@),
{
    proof {
        lemma_fundamental_div_mod(pixels@.len() as int, 8);
    }
    let n: usize = pixels.len() / 8;
    let mut out: Vec<u8> = Vec::new();
    let mut i: usize = 0;
    while i < n
        invariant
            n == pixels@.len() / 8,
            8 * n <= pixels@.len(),
            pixels@.len() <= usize::MAX,
            i <= n,
            out@.len() == i,
            forall|j: int| 0 <= j < i ==> out@[j] == extracted_byte(pixels@, j),
        decreases n - i,
    {
        let base: usize = i * 8;
        let b: u8 = ((pixels[base] & 1) << 7u8) | ((pixels[base + 1] & 1) << 6u8) | ((pixels[base
            + 2] & 1) << 5u8) | ((pixels[base + 3] & 1) << 4u8) | ((pixels[base + 4] & 1) << 3u8)
            | ((pixels[base + 5] & 1) << 2u8) | ((pixels[base + 6] & 1) << 1u8) | (pixels[base + 7]
            & 1);
        out.push(b);
        i = i + 1;
    }
    proof {
        assert(out@ =~= extract_spec(pixels@));
    }
    out
}

/// Sample `8*i + j` of an embedded buffer carries bit `j` of payload byte `i`
/// in its least-significant bit.
proof fn lemma_sample_holds_bit(pixels: Seq<u8>, payload: Seq<u8>, i: int, j: int)
    requires
        0 <= i < payload.len(),
        0 <= j < 8,
        8 * payload.len() <= pixels.len(),
    ensures
        embed_spec(pixels, payload)[8 * i + j] == (pixels[8 * i + j] & 0xFE) | ((payload[i] >> ((7
            - j) as u8)) & 1),
{
    lemma_fundamental_div_mod_converse(8 * i + j, 8, i, j);
}

/// Byte `i` of the extraction of an embedded buffer is byte `i` of the
/// payload, for every payload byte index.
proof fn lemma_extracted_byte_of_embedded(pixels: Seq<u8>, payload: Seq<u8>, i: int)
    requires
        0 <= i < payload.len(),
        8 * payload.len() <= pixels.len(),
    ensures
        extracted_byte(embed_spec(pixels, payload), i) == payload[i],
{
    let e = embed_spec(pixels, payload);
    let b = payload[i];
    lemma_sample_holds_bit(pixels, payload, i, 0);
    lemma_sample_holds_bit(pixels, payload, i, 1);
    lemma_sample_holds_bit(pixels, payload, i, 2);
    lemma_sample_holds_bit(pixels, payload, i, 3);
    lemma_sample_holds_bit(pixels, payload, i, 4);
    lemma_sample_holds_bit(pixels, payload, i, 5);
    lemma_sample_holds_bit(pixels, payload, i, 6);
    lemma_sample_holds_bit(pixels, payload, i, 7);
    let x0 = e[8 * i];
    let x1 = e[8 * i + 1];
    let x2 = e[8 * i + 2];
    let x3 = e[8 * i + 3];
    let x4 = e[8 * i + 4];
    let x5 = e[8 * i + 5];
    let x6 = e[8 * i + 6];
    let x7 = e[8 * i + 7];
    let p0 = pixels[8 * i];
    let p1 = pixels[8 * i + 1];
    let p2 = pixels[8 * i + 2];
    let p3 = pixels[8 * i + 3];
    let p4 = pixels[8 * i + 4];
    let p5 = pixels[8 * i + 5];
    let p6 = pixels[8 * i + 6];
    let p7 = pixels[8 * i + 7];
    assert(((x0 & 1) << 7u8) | ((x1 & 1) << 6u8) | ((x2 & 1) << 5u8) | ((x3 & 1) << 4u8) | ((x4
        & 1) << 3u8) | ((x5 & 1) << 2u8) | ((x6 & 1) << 1u8) | (x7 & 1) == b) by (bit_vector)
        requires
            x0 == (p0 & 0xFE) | ((b >> 7u8) & 1),
            x1 == (p1 & 0xFE) | ((b >> 6u8) & 1),
            x2 == (p2 & 0xFE) | ((b >> 5u8) & 1),
            x3 == (p3 & 0xFE) | ((b >> 4u8) & 1),
            x4 == (p4 & 0xFE) | ((b >> 3u8) & 1),
            x5 == (p5 & 0xFE) | ((b >> 2u8) & 1),
            x6 == (p6 & 0xFE) | ((b >> 1u8) & 1),
            x7 == (p7 & 0xFE) | ((b >> 0u8) & 1),
    ;
}

/// Law: the round trip. Whenever a payload fits a pixel buffer, embedding it
/// and extracting again returns the payload as the first bytes of the
/// extracted stream.
pub proof fn lemma_embed_then_extract(pixels: Seq<u8>, payload: Seq<u8>)
    requires
        8 * payload.len() <= pixels.len(),
    ensures
        extract_spec(embed_spec(pixels, payload)).subrange(0, payload.len() as int) == payload,
{
    let e = embed_spec(pixels, payload);
    lemma_fundamental_div_mod(e.len() as int, 8);
    assert forall|i: int| 0 <= i < payload.len() implies extract_spec(e)[i] == payload[i] by {
        lemma_extracted_byte_of_embedded(pixels, payload, i);
    }
    assert(extract_spec(e).subrange(0, payload.len() as int) =~= payload);
}

/// Law: embedding never destroys the high bits. Every sample of the embedded
/// buffer agrees with the source sample on its seven high bits, touched or
/// not.
pub proof fn lemma_high_bits_preserved(pixels: Seq<u8>, payload: Seq<u8>, i: int)
    requires
        0 <= i < pixels.len(),
    ensures
        embed_spec(pixels, payload)[i] & 0xFE == pixels[i] & 0xFE,
{
    let s = pixels[i];
    if i < 8 * payload.len() {
        let pb = payload[i / 8];
        let sh = (7 - i % 8) as u8;
        assert(((s & 0xFE) | ((pb >> sh) & 1)) & 0xFE == s & 0xFE) by (bit_vector);
    }
}

/// Law: the untouched tail. Every sample at an index at or past
/// `8 * payload.len()` is byte-for-byte identical to the source sample.
pub proof fn lemma_untouched_tail(pixels: Seq<u8>, payload: Seq<u8>, i: int)
    requires
        8 * payload.len() <= i < pixels.len(),
    ensures
        embed_spec(pixels, payload)[i] == pixels[i],
{
}

/// Law: embedding an empty payload touches nothing; in particular every
/// sample's least-significant bit is unchanged.
pub proof fn lemma_empty_payload_is_noop(pixels: Seq<u8>)
    ensures
        embed_spec(pixels, Seq::<u8>::empty()) == pixels,
{
    assert(embed_spec(pixels, Seq::<u8>::empty()) =~= pixels);
}

} // verus!
