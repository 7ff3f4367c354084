use patat::frame::{decode_frame, encode_frame, frame_length, FrameError};

#[test]
fn oversized_frame_is_refused() {
    assert_eq!(encode_frame(&vec![0u8; 65536]).err(), Some(FrameError::TooLarge));
}

#[test]
fn largest_frame_is_sent() {
    let f = encode_frame(&vec![7u8; 65535]).unwrap();
    assert_eq!(&f[..2], &[0xFFu8, 0xFFu8]);
    assert_eq!(decode_frame(&f).unwrap(), vec![7u8; 65535]);
}

#[test]
fn zero_length_frame_round_trips() {
    let f = encode_frame(&[]).unwrap();
    assert_eq!(f, vec![0u8, 0u8]);
    assert_eq!(decode_frame(&f), Ok(Vec::new()));
}

#[test]
fn frame_is_length_then_payload() {
    let f = encode_frame(&[1u8, 2u8, 3u8]).unwrap();
    assert_eq!(f, vec![0u8, 3u8, 1u8, 2u8, 3u8]);
    assert_eq!(frame_length(&f[..2]), Ok(3));
}

#[test]
fn bytes_after_a_frame_are_left() {
    assert_eq!(decode_frame(&[0u8, 1u8, 9u8, 8u8]), Ok(vec![9u8]));
}

#[test]
fn early_end_of_stream_is_connection_closed() {
    assert_eq!(frame_length(&[1u8]), Err(FrameError::ConnectionClosed));
    assert_eq!(decode_frame(&[]), Err(FrameError::ConnectionClosed));
    assert_eq!(decode_frame(&[0u8, 4u8, 1u8]), Err(FrameError::ConnectionClosed));
}
