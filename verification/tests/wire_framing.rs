use zynsearch::wire_framing::{decode_frame, decode_frame_length, encode_frame, FrameError, FramedNetworkStream, MAX_PAYLOAD_SIZE};

#[test]
fn test_sticky_note_framing() {
    let mut network = FramedNetworkStream::new(Vec::<u8>::new());

    let message_one = b"HELLO";
    let message_two = b"CAT";

    network.stream.extend(encode_frame(message_one).unwrap());
    network.stream.extend(encode_frame(message_two).unwrap());

    let (received_one, used) = decode_frame(&network.stream).unwrap();
    let (received_two, _) = decode_frame(&network.stream[used..]).unwrap();

    assert_eq!(received_one, b"HELLO");
    assert_eq!(received_two, b"CAT");

    println!("Successfully sent and received framed packets without mixing!");
}

#[test]
fn frames_carry_a_big_endian_length() {
    assert_eq!(encode_frame(b"HELLO").unwrap(), vec![0, 0, 0, 5, b'H', b'E', b'L', b'L', b'O']);
    assert_eq!(encode_frame(&[]).unwrap(), vec![0, 0, 0, 0]);
    assert_eq!(decode_frame_length([0, 0, 1, 2]), Ok(258));
    assert_eq!(decode_frame_length([1, 0, 0, 0]), Ok(MAX_PAYLOAD_SIZE));
    assert_eq!(decode_frame_length([1, 0, 0, 1]), Err(FrameError::TooLarge));
}

#[test]
fn oversized_and_cut_frames_are_refused() {
    let big = vec![0u8; MAX_PAYLOAD_SIZE as usize + 1];
    assert_eq!(encode_frame(&big), Err(FrameError::TooLarge));
    assert_eq!(decode_frame(&[0, 0]), Err(FrameError::Truncated));
    assert_eq!(decode_frame(&[0, 0, 0, 3, 1, 2]), Err(FrameError::Truncated));
    assert_eq!(decode_frame(&[255, 0, 0, 0, 1]), Err(FrameError::TooLarge));
    assert_eq!(decode_frame(&[0, 0, 0, 1, 9, 8]), Ok((vec![9], 5)));
}
