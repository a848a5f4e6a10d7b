use jetkvm_rdp::bridge::{is_acknowledged, BridgeError, BridgeEvent, BridgeLink};
use jetkvm_rdp::protocol::write_message;
use jetkvm_rdp::video::DesktopSize;

fn sent(link: &mut BridgeLink) -> Vec<(u8, Vec<u8>)> {
    link.take_outbox().into_iter().map(|message| (message.typ, message.payload)).collect()
}

fn open_link() -> BridgeLink {
    let mut link = BridgeLink::new();
    link.open();
    assert_eq!(sent(&mut link), vec![(0x01, vec![1, 0])]);
    link
}

#[test]
fn opening_greets_the_appliance() {
    let mut link = open_link();
    assert!(sent(&mut link).is_empty());
}

#[test]
fn nothing_is_sent_without_a_connection() {
    let mut link = BridgeLink::new();
    link.start_video();
    link.keyboard_state(1, [4, 0, 0, 0, 0, 0]);
    link.abs_mouse(1, 2, 3);
    assert!(sent(&mut link).is_empty());
    link.open();
    link.start_video();
    link.close();
    assert!(sent(&mut link).is_empty());
    link.wheel(1, 0);
    assert!(sent(&mut link).is_empty());
}

#[test]
fn a_new_connection_starts_over() {
    let mut link = open_link();
    link.start_video();
    link.open();
    assert_eq!(sent(&mut link), vec![(0x01, vec![1, 0])]);
}

#[test]
fn messages_keep_their_order() {
    let mut link = open_link();
    link.start_video();
    link.abs_mouse(0x1234, 0x0567, 0x15);
    link.rel_mouse(-1, 127, 2);
    link.wheel(-128, 3);
    link.request_desktop(DesktopSize { width: 1280, height: 720 });
    assert_eq!(
        sent(&mut link),
        vec![
            (0x03, vec![0]),
            (0x11, vec![0x34, 0x12, 0x67, 0x05, 0x15]),
            (0x12, vec![0xff, 0x7f, 2]),
            (0x13, vec![0x80, 3]),
            (0x14, vec![0x00, 0x05, 0xd0, 0x02]),
        ]
    );
}

#[test]
fn stopping_video_releases_all_keys() {
    let mut link = open_link();
    link.keyboard_state(0x02, [4, 5, 6, 7, 8, 9]);
    link.stop_video();
    assert_eq!(
        sent(&mut link),
        vec![
            (0x10, vec![0x02, 4, 5, 6, 7, 8, 9]),
            (0x04, vec![]),
            (0x10, vec![0, 0, 0, 0, 0, 0, 0]),
        ]
    );
}

#[test]
fn own_messages_can_be_framed() {
    let mut link = open_link();
    link.stop_video();
    link.abs_mouse(1, 2, 3);
    for message in link.take_outbox() {
        assert!(write_message(message.typ, &message.payload).is_ok());
    }
}

#[test]
fn signed_bytes_travel_in_twos_complement() {
    let mut link = open_link();
    link.wheel(-2, 2);
    assert_eq!(sent(&mut link), vec![(0x13, vec![0xfe, 0x02])]);
}

#[test]
fn handshake_needs_the_same_version() {
    assert!(is_acknowledged(&[1, 0]));
    assert!(!is_acknowledged(&[2, 0]));
    assert!(!is_acknowledged(&[0, 1]));
    assert!(!is_acknowledged(&[1]));
    assert!(!is_acknowledged(&[1, 0, 0]));
    let mut link = open_link();
    assert!(matches!(link.handle_message(0x02, vec![1, 0]), Ok(BridgeEvent::HandshakeComplete)));
    assert!(matches!(
        link.handle_message(0x02, vec![2, 0]),
        Err(BridgeError::ProtocolMismatch)
    ));
    assert!(matches!(link.handle_message(0x02, vec![]), Err(BridgeError::ProtocolMismatch)));
}

#[test]
fn video_report_is_taken_over() {
    let mut link = open_link();
    let payload = vec![1, 0x00, 0x05, 0xd0, 0x02, 0x30, 0x75, 0, 0, 1, 0, 0, 0];
    assert!(matches!(link.handle_message(0x05, payload), Ok(BridgeEvent::VideoStateChanged)));
    let video = link.video();
    assert!(video.ready);
    assert_eq!((video.width, video.height, video.fps_milli), (1280, 720, 30000));
    assert_eq!(link.desktop_size(), DesktopSize { width: 1280, height: 720 });
}

#[test]
fn video_report_of_wrong_length_is_an_error() {
    let mut link = open_link();
    let before = link.video();
    for len in [0usize, 9, 12, 14] {
        match link.handle_message(0x05, vec![1; len]) {
            Err(error) => assert_eq!(error, BridgeError::InvalidVideoState(len)),
            Ok(_) => panic!("accepted {} bytes", len),
        }
    }
    assert_eq!(link.video(), before);
}

#[test]
fn video_size_stays_known() {
    let mut link = open_link();
    let known = vec![1, 0x00, 0x05, 0xd0, 0x02, 0, 0, 0, 0, 0, 0, 0, 0];
    assert!(link.handle_message(0x05, known).is_ok());
    assert!(link.handle_message(0x05, vec![0; 13]).is_ok());
    let video = link.video();
    assert!(!video.ready);
    assert_eq!((video.width, video.height), (1280, 720));
}

#[test]
fn video_state_outlives_a_connection() {
    let mut link = open_link();
    let known = vec![1, 0x00, 0x05, 0xd0, 0x02, 0, 0, 0, 0, 0, 0, 0, 0];
    assert!(link.handle_message(0x05, known).is_ok());
    link.close();
    assert_eq!(link.desktop_size(), DesktopSize { width: 1280, height: 720 });
}

#[test]
fn frame_is_passed_on() {
    let mut link = open_link();
    let payload = vec![1, 0, 0, 0, 64, 0, 32, 0, 0, 0xde, 0xad];
    match link.handle_message(0x06, payload) {
        Ok(BridgeEvent::Frame(frame)) => {
            assert_eq!((frame.duration_us, frame.width, frame.height), (1, 64, 32));
            assert_eq!(frame.codec, 0);
            assert_eq!(frame.data, [0xde, 0xad]);
        }
        _ => panic!("no frame"),
    }
}

#[test]
fn short_frame_is_passed_over() {
    let mut link = open_link();
    assert!(matches!(link.handle_message(0x06, vec![0; 8]), Ok(BridgeEvent::ShortFrame)));
}

#[test]
fn error_text_is_passed_on() {
    let mut link = open_link();
    match link.handle_message(0x07, b"no signal".to_vec()) {
        Ok(BridgeEvent::PeerError(text)) => assert_eq!(text, b"no signal"),
        _ => panic!("no error"),
    }
}

#[test]
fn other_messages_are_ignored() {
    let mut link = open_link();
    for typ in [0u8, 0x01, 0x03, 0x04, 0x08, 0x10, 0xff] {
        assert!(matches!(link.handle_message(typ, vec![1, 2, 3]), Ok(BridgeEvent::Ignored)));
    }
    assert!(sent(&mut link).is_empty());
}
