use jetkvm_rdp::video::{parse_frame, parse_report, DesktopSize, VideoReport, VideoState};

#[test]
fn video_starts_at_full_hd_and_not_ready() {
    let state = VideoState::default();
    assert!(!state.ready);
    assert_eq!((state.width, state.height), (1920, 1080));
    assert_eq!(state.desktop_size(), DesktopSize { width: 1920, height: 1080 });
}

#[test]
fn report_fields_are_read_in_order() {
    let payload = [1, 0x80, 0x07, 0x38, 0x04, 0x60, 0xea, 0, 0, 2, 0, 0, 0];
    assert_eq!(
        parse_report(&payload),
        VideoReport { ready: true, width: 1920, height: 1080, fps_milli: 60000 }
    );
    let dark = [0, 0x80, 0x07, 0x38, 0x04, 0x01, 0x00, 0x00, 0x01];
    assert_eq!(
        parse_report(&dark),
        VideoReport { ready: false, width: 1920, height: 1080, fps_milli: 0x0100_0001 }
    );
}

#[test]
fn any_byte_but_zero_means_ready() {
    let payload = [0x80, 0, 0, 0, 0, 0, 0, 0, 0];
    assert!(parse_report(&payload).ready);
}

#[test]
fn unknown_size_leaves_the_last_one() {
    let mut state = VideoState::default();
    state.update(VideoReport { ready: true, width: 1280, height: 0, fps_milli: 50000 });
    assert!(state.ready);
    assert_eq!((state.width, state.height, state.fps_milli), (1280, 1080, 50000));
    state.update(VideoReport { ready: false, width: 0, height: 720, fps_milli: 0 });
    assert!(!state.ready);
    assert_eq!((state.width, state.height, state.fps_milli), (1280, 720, 0));
}

#[test]
fn desktop_is_never_smaller_than_two_hundred() {
    let mut state = VideoState::default();
    state.update(VideoReport { ready: true, width: 160, height: 199, fps_milli: 1 });
    assert_eq!((state.width, state.height), (160, 199));
    assert_eq!(state.desktop_size(), DesktopSize { width: 200, height: 200 });
    state.update(VideoReport { ready: true, width: 200, height: 65535, fps_milli: 1 });
    assert_eq!(state.desktop_size(), DesktopSize { width: 200, height: 65535 });
}

#[test]
fn frame_fields_are_read_in_order() {
    let payload = [0x1a, 0x41, 0, 0, 0x80, 0x07, 0x38, 0x04, 0, 0xaa, 0xbb, 0xcc];
    let frame = parse_frame(&payload).unwrap();
    assert_eq!(frame.duration_us, 16666);
    assert_eq!((frame.width, frame.height, frame.codec), (1920, 1080, 0));
    assert_eq!(frame.data, [0xaa, 0xbb, 0xcc]);
}

#[test]
fn frame_needs_its_header() {
    assert!(parse_frame(&[0; 8]).is_none());
    let frame = parse_frame(&[0, 0, 0, 0, 0, 0, 0, 0, 3]).unwrap();
    assert_eq!(frame.codec, 3);
    assert!(frame.data.is_empty());
}
