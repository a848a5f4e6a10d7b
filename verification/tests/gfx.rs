use ironrdp_dvc::DvcProcessor;
use ironrdp_egfx::pdu::{CapabilitiesAdvertisePdu, CapabilitySet};
use ironrdp_egfx::server::{GraphicsPipelineHandler, GraphicsPipelineServer};
use ironrdp_svc::SvcMessage;
use jetkvm_rdp::gfx::{
    frame_timestamp, is_drawable, plan_surface, submit_h264, submit_h264_checked, SubmitOutcome,
    SurfacePlan, SurfaceRecord,
};
use jetkvm_rdp::video::VideoFrame;

const CHANNEL: u32 = 7;

const CMD_WIRE_TO_SURFACE: u8 = 0x01;
const CMD_CREATE_SURFACE: u8 = 0x09;
const CMD_DELETE_SURFACE: u8 = 0x0a;
const CMD_START_FRAME: u8 = 0x0b;
const CMD_END_FRAME: u8 = 0x0c;
const CMD_RESET_GRAPHICS: u8 = 0x0e;
const CMD_MAP_SURFACE: u8 = 0x0f;

struct Quiet;

impl GraphicsPipelineHandler for Quiet {
    fn capabilities_advertise(&mut self, _pdu: &CapabilitiesAdvertisePdu) {}

    fn on_ready(&mut self, _negotiated: &CapabilitySet) {}
}

fn fresh() -> GraphicsPipelineServer {
    GraphicsPipelineServer::new(Box::new(Quiet))
}

/// A client that offers version 8.1 with the given flags.
fn advertise(gfx: &mut GraphicsPipelineServer, flags: u32) {
    let mut pdu = vec![0x12, 0, 0, 0, 22, 0, 0, 0, 1, 0];
    pdu.extend_from_slice(&0x0008_0105u32.to_le_bytes());
    pdu.extend_from_slice(&4u32.to_le_bytes());
    pdu.extend_from_slice(&flags.to_le_bytes());
    gfx.process(CHANNEL, &pdu).unwrap();
}

fn ready() -> GraphicsPipelineServer {
    let mut gfx = fresh();
    gfx.start(CHANNEL).unwrap();
    advertise(&mut gfx, 0x10);
    assert!(gfx.is_ready() && gfx.supports_avc420());
    gfx
}

fn frame(width: u16, height: u16, data: &[u8]) -> VideoFrame {
    VideoFrame { duration_us: 16666, width, height, codec: 0, data: data.to_vec() }
}

fn messages(outcome: SubmitOutcome) -> Vec<SvcMessage> {
    match outcome {
        SubmitOutcome::Send(messages) => messages,
        _ => panic!("nothing to send"),
    }
}

/// The graphics messages, each from a channel message of its own.
fn commands(outcome: SubmitOutcome) -> Vec<Vec<u8>> {
    let mut commands = Vec::new();
    for message in messages(outcome) {
        let bytes = message.encode_unframed_pdu().unwrap();
        // data on the channel, one segment, not compressed
        assert_eq!(bytes[0..4], [0x30, CHANNEL as u8, 0xe0, 0x04]);
        commands.push(bytes[4..].to_vec());
    }
    commands
}

fn kinds(commands: &[Vec<u8>]) -> Vec<u8> {
    commands.iter().map(|command| command[0]).collect()
}

#[test]
fn surface_is_planned_by_size() {
    assert_eq!(plan_surface(None, 640, 480), SurfacePlan::Create);
    assert_eq!(plan_surface(Some((3, 640, 480)), 640, 480), SurfacePlan::Keep(3));
    assert_eq!(plan_surface(Some((3, 640, 480)), 640, 481), SurfacePlan::Replace(3));
    assert_eq!(plan_surface(Some((3, 640, 480)), 641, 480), SurfacePlan::Replace(3));
}

#[test]
fn only_pictures_are_drawable() {
    assert!(is_drawable(&frame(1, 1, &[0])));
    assert!(!is_drawable(&frame(0, 1, &[0])));
    assert!(!is_drawable(&frame(1, 0, &[0])));
    assert!(!is_drawable(&frame(1, 1, &[])));
    let mut other = frame(1, 1, &[0]);
    other.codec = 1;
    assert!(!is_drawable(&other));
}

#[test]
fn timestamp_stops_at_the_largest() {
    assert_eq!(frame_timestamp(0), 0);
    assert_eq!(frame_timestamp(4294967295), 4294967295);
    assert_eq!(frame_timestamp(4294967296), 4294967295);
    assert_eq!(frame_timestamp(u128::MAX), 4294967295);
}

#[test]
fn undrawable_frame_is_ignored() {
    let (mut gfx, mut surface): (_, SurfaceRecord) = (ready(), None);
    let outcome = submit_h264(&mut gfx, &mut surface, &frame(640, 480, &[]), 0);
    assert!(matches!(outcome, SubmitOutcome::Ignored));
    assert_eq!(surface, None);
    assert!(!gfx.has_pending_output());
}

#[test]
fn frame_waits_for_the_client() {
    let (mut gfx, mut surface): (_, SurfaceRecord) = (fresh(), None);
    let outcome = submit_h264(&mut gfx, &mut surface, &frame(640, 480, &[0x65]), 0);
    assert!(matches!(outcome, SubmitOutcome::NotReady));
    // a client that does not take H.264
    advertise(&mut gfx, 0x02);
    assert!(gfx.is_ready());
    let outcome = submit_h264(&mut gfx, &mut surface, &frame(640, 480, &[0x65]), 0);
    assert!(matches!(outcome, SubmitOutcome::NotReady));
    assert_eq!(surface, None);
}

#[test]
fn first_frame_announces_the_surface() {
    let (mut gfx, mut surface): (_, SurfaceRecord) = (ready(), None);
    let data = [0, 0, 0, 1, 0x67, 0x42, 0, 0, 0, 1, 0x65, 0x88];
    let outcome = submit_h264(&mut gfx, &mut surface, &frame(640, 480, &data), 3_661_234);
    let commands = commands(outcome);
    assert_eq!(
        kinds(&commands),
        [
            CMD_RESET_GRAPHICS,
            CMD_CREATE_SURFACE,
            CMD_MAP_SURFACE,
            CMD_START_FRAME,
            CMD_WIRE_TO_SURFACE,
            CMD_END_FRAME,
        ]
    );
    let (id, width, height) = surface.unwrap();
    assert_eq!((width, height), (640, 480));
    // the output size
    assert_eq!(commands[0][8..16], [0x80, 2, 0, 0, 0xe0, 1, 0, 0]);
    // the surface and its size
    assert_eq!(commands[1][8..10], id.to_le_bytes());
    assert_eq!(commands[1][10..14], [0x80, 2, 0xe0, 1]);
    // the surface goes to the origin
    assert_eq!(commands[2][8..10], id.to_le_bytes());
    assert_eq!(commands[2][12..20], [0; 8]);
    // 01:01:01.234
    let time = 234u32 | 1 << 10 | 1 << 16 | 1 << 22;
    assert_eq!(commands[3][8..12], time.to_le_bytes());
    // the same frame starts and ends
    assert_eq!(commands[3][12..16], commands[5][8..12]);
}

#[test]
fn video_is_not_transcoded() {
    let (mut gfx, mut surface): (_, SurfaceRecord) = (ready(), None);
    let data: Vec<u8> = (0..=255u8).collect();
    let commands = commands(submit_h264(&mut gfx, &mut surface, &frame(1280, 720, &data), 0));
    let picture = &commands[4];
    let (id, _, _) = surface.unwrap();
    assert_eq!(picture[8..10], id.to_le_bytes());
    // one region that covers the whole picture
    assert_eq!(picture[25..29], 1u32.to_le_bytes());
    assert_eq!(picture[29..37], [0, 0, 0, 0, 0xff, 0x04, 0xcf, 0x02]);
    assert_eq!(picture[37..39], [22, 100]);
    assert_eq!(picture[39..], data[..]);
}

#[test]
fn long_frame_is_split_over_messages() {
    let (mut gfx, mut surface): (_, SurfaceRecord) = (ready(), None);
    submit_h264(&mut gfx, &mut surface, &frame(640, 480, &[0x65]), 0);
    let data = vec![0x55u8; 200_000];
    let sent = messages(submit_h264(&mut gfx, &mut surface, &frame(640, 480, &data), 0));
    assert!(sent.len() > 100);
}

#[test]
fn same_size_keeps_the_surface() {
    let (mut gfx, mut surface): (_, SurfaceRecord) = (ready(), None);
    submit_h264(&mut gfx, &mut surface, &frame(640, 480, &[0x65]), 0);
    let before = surface;
    let commands = commands(submit_h264(&mut gfx, &mut surface, &frame(640, 480, &[0x41]), 16));
    assert_eq!(kinds(&commands), [CMD_START_FRAME, CMD_WIRE_TO_SURFACE, CMD_END_FRAME]);
    assert_eq!(surface, before);
    assert_eq!(gfx.surface_ids().count(), 1);
}

#[test]
fn another_size_replaces_the_surface() {
    let (mut gfx, mut surface): (_, SurfaceRecord) = (ready(), None);
    submit_h264(&mut gfx, &mut surface, &frame(640, 480, &[0x65]), 0);
    let (old_id, _, _) = surface.unwrap();
    let commands = commands(submit_h264(&mut gfx, &mut surface, &frame(800, 600, &[0x65]), 16));
    assert_eq!(
        kinds(&commands),
        [
            CMD_DELETE_SURFACE,
            CMD_RESET_GRAPHICS,
            CMD_CREATE_SURFACE,
            CMD_MAP_SURFACE,
            CMD_START_FRAME,
            CMD_WIRE_TO_SURFACE,
            CMD_END_FRAME,
        ]
    );
    assert_eq!(commands[0][8..10], old_id.to_le_bytes());
    assert_eq!(commands[1][8..16], [0x20, 3, 0, 0, 0x58, 2, 0, 0]);
    let (id, width, height) = surface.unwrap();
    assert_ne!(id, old_id);
    assert_eq!((width, height), (800, 600));
    assert_eq!(gfx.surface_ids().collect::<Vec<u16>>(), vec![id]);
}

#[test]
fn frames_are_dropped_while_the_client_is_behind() {
    let (mut gfx, mut surface): (_, SurfaceRecord) = (ready(), None);
    for _ in 0..3 {
        let outcome = submit_h264(&mut gfx, &mut surface, &frame(640, 480, &[0x65]), 0);
        assert_eq!(messages(outcome).is_empty(), false);
    }
    let outcome = submit_h264(&mut gfx, &mut surface, &frame(640, 480, &[0x65]), 0);
    assert!(matches!(outcome, SubmitOutcome::Dropped));
    assert!(!gfx.has_pending_output());
    // a new size starts over
    let outcome = submit_h264(&mut gfx, &mut surface, &frame(320, 240, &[0x65]), 0);
    assert_eq!(messages(outcome).len(), 7);
}

#[test]
fn frame_is_queued_until_the_channel_is_started() {
    let (mut gfx, mut surface): (_, SurfaceRecord) = (fresh(), None);
    advertise(&mut gfx, 0x10);
    let outcome = submit_h264(&mut gfx, &mut surface, &frame(640, 480, &[0x65]), 0);
    assert!(matches!(outcome, SubmitOutcome::NoChannel));
    assert!(gfx.has_pending_output());
    gfx.start(CHANNEL).unwrap();
    let commands = commands(submit_h264(&mut gfx, &mut surface, &frame(640, 480, &[0x41]), 0));
    assert_eq!(commands.len(), 9);
}

#[test]
fn checked_submission_looks_at_the_pipeline_first() {
    let (mut gfx, mut surface): (_, SurfaceRecord) = (ready(), None);
    let outcome = submit_h264_checked(&mut gfx, &mut surface, &frame(640, 480, &[0x65]), 0);
    assert_eq!(commands(outcome.unwrap()).len(), 6);
    // a record that does not name the surface
    let mut forgotten: SurfaceRecord = None;
    assert!(submit_h264_checked(&mut gfx, &mut forgotten, &frame(640, 480, &[1]), 0).is_none());
    assert_eq!(forgotten, None);
    // messages that wait already
    gfx.resize(10, 10);
    assert!(submit_h264_checked(&mut gfx, &mut surface, &frame(640, 480, &[1]), 0).is_none());
}

#[test]
fn pipeline_stays_open_for_frames() {
    let (mut gfx, mut surface): (_, SurfaceRecord) = (ready(), None);
    for round in 0..20u16 {
        let next = frame(640 + round / 5, 480, &[0x41, round as u8]);
        let outcome = submit_h264_checked(&mut gfx, &mut surface, &next, round as u32);
        assert!(matches!(
            outcome,
            Some(SubmitOutcome::Send(_)) | Some(SubmitOutcome::Dropped)
        ));
        assert!(!gfx.has_pending_output());
        assert_eq!(gfx.surface_ids().count(), 1);
    }
}
