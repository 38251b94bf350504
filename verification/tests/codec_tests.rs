use stegno::codec::embed;
use stegno::codec::extract;
use stegno::StegError;

fn sample_buffer(len: usize) -> Vec<u8> {
    let mut v = Vec::new();
    for i in 0..len {
        v.push((i % 256) as u8);
    }
    v
}

#[test]
fn round_trip_returns_payload_prefix() {
    let mut pixels = sample_buffer(64);
    let payload = vec![0x41u8, 0x00, 0xFF];
    assert_eq!(embed(&mut pixels, &payload), Ok(()));
    let out = extract(&pixels);
    assert_eq!(&out[..3], &payload[..]);
}

#[test]
fn extraction_is_idempotent() {
    let pixels = sample_buffer(40);
    let first = extract(&pixels);
    let second = extract(&pixels);
    assert_eq!(first, second);
}

#[test]
fn payload_filling_capacity_exactly_succeeds() {
    let mut pixels = sample_buffer(24);
    let payload = vec![0xDEu8, 0xAD, 0xBE];
    assert_eq!(embed(&mut pixels, &payload), Ok(()));
    let out = extract(&pixels);
    assert_eq!(out, payload);
}

#[test]
fn payload_over_capacity_fails_without_mutation() {
    let mut pixels = sample_buffer(23);
    let before = pixels.clone();
    let payload = vec![0xDEu8, 0xAD, 0xBE];
    assert_eq!(embed(&mut pixels, &payload), Err(StegError::CapacityExceeded));
    assert_eq!(pixels, before);
}

#[test]
fn high_bits_of_touched_samples_survive() {
    let mut pixels = sample_buffer(64);
    let before = pixels.clone();
    let payload = vec![0x5Au8, 0xC3, 0x99];
    assert_eq!(embed(&mut pixels, &payload), Ok(()));
    for i in 0..payload.len() * 8 {
        assert_eq!(pixels[i] & 0xFE, before[i] & 0xFE);
    }
}

#[test]
fn samples_past_the_payload_are_untouched() {
    let mut pixels = sample_buffer(64);
    let before = pixels.clone();
    let payload = vec![0x5Au8, 0xC3, 0x99];
    assert_eq!(embed(&mut pixels, &payload), Ok(()));
    for i in payload.len() * 8..pixels.len() {
        assert_eq!(pixels[i], before[i]);
    }
}

#[test]
fn empty_payload_changes_nothing() {
    let mut pixels = sample_buffer(33);
    let before = pixels.clone();
    let payload: Vec<u8> = Vec::new();
    assert_eq!(embed(&mut pixels, &payload), Ok(()));
    assert_eq!(pixels, before);
    for i in 0..pixels.len() {
        assert_eq!(pixels[i] & 1, before[i] & 1);
    }
}

#[test]
fn bits_are_embedded_most_significant_first() {
    let mut pixels = vec![0u8; 8];
    let payload = vec![0b1010_1010u8];
    assert_eq!(embed(&mut pixels, &payload), Ok(()));
    assert_eq!(pixels, vec![1, 0, 1, 0, 1, 0, 1, 0]);
}

#[test]
fn bits_are_extracted_most_significant_first() {
    let pixels = vec![1u8, 0, 1, 0, 1, 0, 1, 0];
    assert_eq!(extract(&pixels), vec![0xAAu8]);
}

#[test]
fn trailing_partial_group_is_dropped() {
    let pixels = sample_buffer(17);
    let out = extract(&pixels);
    assert_eq!(out.len(), 2);
}

#[test]
fn full_extraction_of_concrete_buffer() {
    let mut pixels = sample_buffer(64);
    let payload = vec![0x41u8, 0x00, 0xFF];
    assert_eq!(embed(&mut pixels, &payload), Ok(()));
    let out = extract(&pixels);
    // Samples 24..63 keep their original least-significant bits 0,1,0,1,...,
    // which pack into 0x55 per group of eight.
    assert_eq!(out, vec![0x41, 0x00, 0xFF, 0x55, 0x55, 0x55, 0x55, 0x55]);
}
