use jetkvm_rdp::protocol::{
    get_u16_le, get_u32_le, read_message, write_message, FrameError, ReadStep, HEADER_LEN,
    MAX_MESSAGE, MSG_ABS_MOUSE, MSG_DESKTOP_REQUEST, MSG_ERROR, MSG_HELLO, MSG_HELLO_ACK,
    MSG_KEYBOARD_STATE, MSG_REL_MOUSE, MSG_VIDEO_FRAME, MSG_VIDEO_START, MSG_VIDEO_STATE,
    MSG_VIDEO_STOP, MSG_WHEEL, PROTOCOL_VERSION,
};

fn message(step: ReadStep) -> (u8, Vec<u8>) {
    match step {
        ReadStep::Message(message) => (message.typ, message.payload),
        _ => panic!("no message"),
    }
}

fn needed(step: ReadStep) -> usize {
    match step {
        ReadStep::Need(count) => count,
        _ => panic!("nothing needed"),
    }
}

#[test]
fn message_numbers_follow_the_protocol() {
    assert_eq!(PROTOCOL_VERSION, 1);
    assert_eq!(
        [MSG_HELLO, MSG_HELLO_ACK, MSG_VIDEO_START, MSG_VIDEO_STOP, MSG_VIDEO_STATE],
        [1, 2, 3, 4, 5]
    );
    assert_eq!([MSG_VIDEO_FRAME, MSG_ERROR], [6, 7]);
    assert_eq!(
        [MSG_KEYBOARD_STATE, MSG_ABS_MOUSE, MSG_REL_MOUSE, MSG_WHEEL, MSG_DESKTOP_REQUEST],
        [0x10, 0x11, 0x12, 0x13, 0x14]
    );
    assert_eq!(MAX_MESSAGE, 16 * 1024 * 1024);
    assert_eq!(HEADER_LEN, 5);
}

#[test]
fn a_message_is_type_length_and_payload() {
    assert_eq!(write_message(0x01, &[1, 0]), Ok(vec![0x01, 2, 0, 0, 0, 1, 0]));
    assert_eq!(write_message(0x04, &[]), Ok(vec![0x04, 0, 0, 0, 0]));
    let long = write_message(0x06, &[7; 0x0102]).unwrap();
    assert_eq!(long[0..5], [0x06, 0x02, 0x01, 0, 0]);
    assert_eq!(long.len(), 5 + 0x0102);
}

#[test]
fn read_gives_back_what_was_written() {
    let payload: Vec<u8> = (0..200u8).collect();
    let mut bytes = write_message(0x42, &payload).unwrap();
    bytes.extend_from_slice(&[9, 9, 9]);
    assert_eq!(message(read_message(&bytes)), (0x42, payload));
}

#[test]
fn reader_asks_for_what_is_missing_and_no_more() {
    let bytes = write_message(0x05, &[1, 2, 3]).unwrap();
    assert_eq!(needed(read_message(&[])), 1);
    for taken in 1..5 {
        assert_eq!(needed(read_message(&bytes[..taken])), 5 - taken);
    }
    for taken in 5..8 {
        assert_eq!(needed(read_message(&bytes[..taken])), 8 - taken);
    }
    assert_eq!(message(read_message(&bytes)), (0x05, vec![1, 2, 3]));
}

#[test]
fn empty_payload_needs_only_the_header() {
    assert_eq!(message(read_message(&[0x04, 0, 0, 0, 0])), (0x04, vec![]));
}

#[test]
fn oversized_announcement_is_refused() {
    let length = MAX_MESSAGE as u32 + 1;
    let mut bytes = vec![0x06];
    bytes.extend_from_slice(&length.to_le_bytes());
    assert!(matches!(
        read_message(&bytes),
        ReadStep::Refused(FrameError::TooLarge(16777217))
    ));
    let mut fits = vec![0x06];
    fits.extend_from_slice(&(MAX_MESSAGE as u32).to_le_bytes());
    assert_eq!(needed(read_message(&fits)), MAX_MESSAGE);
}

#[test]
fn oversized_payload_is_refused() {
    let payload = vec![0u8; MAX_MESSAGE + 1];
    assert_eq!(write_message(0x06, &payload), Err(FrameError::TooLarge(16777217)));
    assert_eq!(
        write_message(0x06, &payload[..MAX_MESSAGE]).map(|bytes| bytes.len()),
        Ok(MAX_MESSAGE + 5)
    );
}

#[test]
fn accepted_bytes_are_the_framing() {
    let bytes = [0x07, 3, 0, 0, 0, b'a', b'b', b'c'];
    let (typ, payload) = message(read_message(&bytes));
    assert_eq!(write_message(typ, &payload), Ok(bytes.to_vec()));
}

#[test]
fn numbers_are_little_endian() {
    let bytes = [0, 0x34, 0x12, 0x78, 0x56, 0x34, 0x12];
    assert_eq!(get_u16_le(&bytes, 1), 0x1234);
    assert_eq!(get_u32_le(&bytes, 3), 0x12345678);
}
