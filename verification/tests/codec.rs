use iot_bridge::codec::decode;
use iot_bridge::codec::encode_frame;
use iot_bridge::codec::FrameOutcome;

#[test]
fn test_decode_four_byte_frame() {
    // 0x41 0x20 0x00 0x00 is the big-endian IEEE-754 single for 10.0.
    let buffer = vec![0x41u8, 0x20, 0x00, 0x00];
    match decode(&buffer, 4) {
        FrameOutcome::Decoded(bits) => {
            assert_eq!(bits, 0x4120_0000);
            let widened = f32::from_bits(bits) as f64;
            assert_eq!(widened, 10.0);
        }
        _ => panic!("a complete frame must decode"),
    }
}

#[test]
fn test_decode_zero_length_is_end_of_stream() {
    let buffer = vec![0u8; 1024];
    assert!(matches!(decode(&buffer, 0), FrameOutcome::EndOfStream));
}

#[test]
fn test_decode_other_lengths_are_malformed() {
    let buffer = vec![0x41u8, 0x20, 0x00, 0x00, 0x99, 0x98, 0x97, 0x96];
    for length in [1usize, 2, 3, 5, 6, 7, 8] {
        match decode(&buffer, length) {
            FrameOutcome::Malformed(raw, n) => {
                assert_eq!(n, length);
                assert_eq!(raw, buffer[..length].to_vec());
            }
            _ => panic!("length {} must be malformed", length),
        }
    }
}

#[test]
fn test_encode_frame_big_endian() {
    let frame = encode_frame(10.0f32.to_bits());
    assert_eq!(frame, vec![0x41u8, 0x20, 0x00, 0x00]);
}

#[test]
fn test_encode_decode_round_trip() {
    for value in [0.0f32, 10.0, -3.5, 1.0e-7, f32::MAX] {
        let bits = value.to_bits();
        let frame = encode_frame(bits);
        match decode(&frame, 4) {
            FrameOutcome::Decoded(out) => {
                assert_eq!(out, bits);
                assert_eq!(f32::from_bits(out), value);
            }
            _ => panic!("round trip must decode"),
        }
    }
}
