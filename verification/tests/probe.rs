use jetkvm_rdp::bridge::{BridgeError, BridgeLink};
use jetkvm_rdp::probe::{Probe, ProbePhase, ProbeReport, DEFAULT_SAMPLES};

const ACK: [u8; 2] = [1, 0];

fn frame_payload(data: &[u8]) -> Vec<u8> {
    let mut payload = vec![0x10, 0x27, 0, 0, 0x80, 0x07, 0x38, 0x04, 0];
    payload.extend_from_slice(data);
    payload
}

fn sent(link: &mut BridgeLink) -> Vec<(u8, Vec<u8>)> {
    link.take_outbox().into_iter().map(|message| (message.typ, message.payload)).collect()
}

fn greeted(limit: usize) -> (Probe, BridgeLink) {
    let (mut probe, mut link) = (Probe::new(limit), BridgeLink::new());
    link.open();
    assert_eq!(sent(&mut link), vec![(0x01, vec![1, 0])]);
    assert!(matches!(
        probe.handle_message(0x02, ACK.to_vec(), &mut link),
        Ok(ProbeReport::HandshakeComplete)
    ));
    (probe, link)
}

#[test]
fn twenty_frames_are_sampled_by_default() {
    assert_eq!(DEFAULT_SAMPLES, 20);
}

#[test]
fn video_is_asked_for_after_the_handshake() {
    let (probe, mut link) = greeted(2);
    assert_eq!(probe.phase(), ProbePhase::Sampling);
    assert_eq!(sent(&mut link), vec![(0x03, vec![0])]);
}

#[test]
fn a_mismatch_ends_the_connection() {
    let (mut probe, mut link) = (Probe::new(2), BridgeLink::new());
    link.open();
    link.take_outbox();
    for payload in [vec![2, 0], vec![1], vec![]] {
        assert!(matches!(
            probe.handle_message(0x02, payload, &mut link),
            Err(BridgeError::ProtocolMismatch)
        ));
    }
    assert_eq!(probe.phase(), ProbePhase::Greeting);
    assert!(sent(&mut link).is_empty());
}

#[test]
fn errors_before_the_start_are_told() {
    let (mut probe, mut link) = (Probe::new(2), BridgeLink::new());
    match probe.handle_message(0x07, b"busy".to_vec(), &mut link) {
        Ok(ProbeReport::ErrorBeforeStart(text)) => assert_eq!(text, b"busy"),
        _ => panic!("no error"),
    }
    assert!(matches!(
        probe.handle_message(0x06, frame_payload(&[0x65]), &mut link),
        Ok(ProbeReport::Nothing)
    ));
    assert_eq!(probe.phase(), ProbePhase::Greeting);
}

#[test]
fn frames_are_numbered_and_analysed() {
    let (mut probe, mut link) = greeted(2);
    sent(&mut link);
    match probe.handle_message(0x06, frame_payload(&[0, 0, 0, 1, 0x65]), &mut link) {
        Ok(ProbeReport::Frame { number, frame, analysis, head }) => {
            assert_eq!(number, 1);
            assert_eq!((frame.duration_us, frame.width, frame.height), (10000, 1920, 1080));
            assert_eq!(frame.codec, 0);
            assert_eq!(frame.data.len(), 5);
            assert_eq!(analysis.format, "annex-b");
            assert_eq!(analysis.nal_types, [5]);
            assert!(analysis.has_idr);
            assert_eq!(head, "00 00 00 01 65");
        }
        _ => panic!("no frame"),
    }
    assert_eq!(probe.phase(), ProbePhase::Sampling);
    assert!(sent(&mut link).is_empty());
}

#[test]
fn no_more_frames_than_asked_for() {
    let (mut probe, mut link) = greeted(3);
    sent(&mut link);
    for expected in 1..=3usize {
        match probe.handle_message(0x06, frame_payload(&[0x41]), &mut link) {
            Ok(ProbeReport::Frame { number, .. }) => assert_eq!(number, expected),
            _ => panic!("no frame"),
        }
    }
    assert_eq!(probe.phase(), ProbePhase::Finished);
    assert_eq!(sent(&mut link), vec![(0x04, vec![])]);
    assert!(matches!(
        probe.handle_message(0x06, frame_payload(&[0x41]), &mut link),
        Ok(ProbeReport::Nothing)
    ));
    assert!(sent(&mut link).is_empty());
}

#[test]
fn without_samples_video_is_stopped_at_once() {
    let (probe, mut link) = greeted(0);
    assert_eq!(probe.phase(), ProbePhase::Finished);
    assert_eq!(sent(&mut link), vec![(0x03, vec![0]), (0x04, vec![])]);
}

#[test]
fn a_timeout_stops_video() {
    let (mut probe, mut link) = greeted(3);
    sent(&mut link);
    probe.timed_out(&mut link);
    assert_eq!(probe.phase(), ProbePhase::Finished);
    assert_eq!(sent(&mut link), vec![(0x04, vec![])]);
    probe.timed_out(&mut link);
    assert!(sent(&mut link).is_empty());
}

#[test]
fn short_frames_are_told_and_not_counted() {
    let (mut probe, mut link) = greeted(1);
    assert!(matches!(
        probe.handle_message(0x06, vec![0; 8], &mut link),
        Ok(ProbeReport::ShortFrame(8))
    ));
    assert_eq!(probe.phase(), ProbePhase::Sampling);
}

#[test]
fn video_state_is_told() {
    let (mut probe, mut link) = greeted(1);
    let payload = vec![1, 0x80, 0x07, 0x38, 0x04, 0x60, 0xea, 0, 0];
    match probe.handle_message(0x05, payload, &mut link) {
        Ok(ProbeReport::VideoState(report)) => {
            assert!(report.ready);
            assert_eq!((report.width, report.height, report.fps_milli), (1920, 1080, 60000));
        }
        _ => panic!("no report"),
    }
    assert!(matches!(
        probe.handle_message(0x05, vec![1; 8], &mut link),
        Ok(ProbeReport::Nothing)
    ));
}

#[test]
fn errors_while_sampling_are_told() {
    let (mut probe, mut link) = greeted(1);
    match probe.handle_message(0x07, b"lost".to_vec(), &mut link) {
        Ok(ProbeReport::PeerError(text)) => assert_eq!(text, b"lost"),
        _ => panic!("no error"),
    }
    assert!(matches!(
        probe.handle_message(0x02, vec![9, 9], &mut link),
        Ok(ProbeReport::Nothing)
    ));
}
