use shmempipe::frame::{decode_header, encode_header};
use shmempipe::ProtocolViolation;

#[test]
fn header_is_little_endian_with_zero_upper_half() {
    let h = encode_header(4);
    assert_eq!(h, vec![0x04, 0, 0, 0, 0, 0, 0, 0]);

    let h = encode_header(0x0102_0304);
    assert_eq!(h, vec![0x04, 0x03, 0x02, 0x01, 0, 0, 0, 0]);
}

#[test]
fn header_round_trips() {
    for len in [0u32, 1, 4, 255, 256, 0xdead_beef, u32::MAX] {
        let h = encode_header(len);
        assert_eq!(decode_header(&h), Ok(len));
    }
}

#[test]
fn nonzero_upper_bytes_are_refused() {
    // the payload length says 1, but a stray byte sits in the upper half
    let bad = [0x01, 0, 0, 0, 0, 0, 0, 0x09];
    let v = 0x0900_0000_0000_0001u64;
    assert_eq!(
        decode_header(&bad),
        Err(ProtocolViolation::CorruptFrameLength(v))
    );

    // each single upper byte alone trips the canary
    for i in 4..8 {
        let mut raw = [0x2au8, 0, 0, 0, 0, 0, 0, 0];
        raw[i] = 1;
        assert!(matches!(
            decode_header(&raw),
            Err(ProtocolViolation::CorruptFrameLength(_))
        ));
    }
}
