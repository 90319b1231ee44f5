use doukutsu_extractor::cipher::{tsc_decode, tsc_encode};

#[test]
fn decode_exact_values() {
    // n = 5, key index 2, key byte 0x41.
    let encoded = vec![0x43u8, 0x42, 0x41, 0x02, 0x44];
    let decoded = tsc_decode(encoded);
    assert_eq!(decoded, vec![0x02u8, 0x01, 0x41, 0xC1, 0x03]);
}

#[test]
fn encode_exact_values() {
    // n = 5, key index 2, key byte 0x41.
    let plain = vec![0x02u8, 0x01, 0x41, 0xC1, 0x03];
    let encoded = tsc_encode(plain);
    assert_eq!(encoded, vec![0x43u8, 0x42, 0x41, 0x02, 0x44]);
}

#[test]
fn single_byte_is_fixed_point() {
    // The key byte is the only byte, and it is never transformed.
    assert_eq!(tsc_decode(vec![0x7Fu8]), vec![0x7Fu8]);
    assert_eq!(tsc_encode(vec![0x7Fu8]), vec![0x7Fu8]);
}

#[test]
fn round_trip_encode_of_decode() {
    let buffers: Vec<Vec<u8>> = vec![
        vec![0u8],
        vec![255u8, 0, 1],
        vec![0x10u8, 0x80, 0xFF, 0x00, 0x41, 0x99],
        (0u8..=255).collect(),
    ];
    for b in buffers {
        assert_eq!(tsc_encode(tsc_decode(b.clone())), b);
    }
}

#[test]
fn round_trip_decode_of_encode() {
    let text = "Hello, World! <MSG<FAC0001".as_bytes().to_vec();
    assert_eq!(tsc_decode(tsc_encode(text.clone())), text);
}
