//! What the appliance reports about its HDMI input: the signal state and the
//! encoded frames.

use vstd::prelude::*;

use crate::protocol::{copy_range, get_u16_le, get_u32_le};

verus! {

/// Desktop width before the appliance has reported one.
pub const DEFAULT_WIDTH: u16 = 1920;

/// Desktop height before the appliance has reported one.
pub const DEFAULT_HEIGHT: u16 = 1080;

/// Smallest desktop extent that is offered to a client.
pub const MIN_DESKTOP_EXTENT: u16 = 200;

/// Length of a `VIDEO_STATE` payload.
pub const VIDEO_STATE_LEN: usize = 13;

/// Length of the fields before the encoded bytes of a `VIDEO_FRAME` payload.
pub const FRAME_HEADER_LEN: usize = 9;

/// Codec number of H.264.
pub const CODEC_H264: u8 = 0;

/// The size of a desktop in pixels.
#[derive(Clone, Copy, PartialEq, Eq, Structural, Debug)]
pub struct DesktopSize {
    pub width: u16,
    pub height: u16,
}

/// The last known state of the video signal.
#[derive(Clone, Copy, PartialEq, Eq, Structural, Debug)]
pub struct VideoState {
    pub ready: bool,
    pub width: u16,
    pub height: u16,
    pub fps_milli: u32,
}

/// The larger of two extents.
pub open spec fn max_extent(a: u16, b: u16) -> u16 {
    if a < b {
        b
    } else {
        a
    }
}

impl VideoState {
    /// No signal yet, at the default size.
    pub open spec fn initial() -> VideoState {
        VideoState { ready: false, width: DEFAULT_WIDTH, height: DEFAULT_HEIGHT, fps_milli: 0 }
    }

    /// The state after a report: a zero extent means that the size is not known
    /// and leaves the last one in place.
    pub open spec fn reported(self, report: VideoReport) -> VideoState {
        VideoState {
            ready: report.ready,
            width: if report.width > 0 {
                report.width
            } else {
                self.width
            },
            height: if report.height > 0 {
                report.height
            } else {
                self.height
            },
            fps_milli: report.fps_milli,
        }
    }

    /// The size that is offered to a client.
    pub open spec fn desktop(self) -> DesktopSize {
        DesktopSize {
            width: max_extent(self.width, MIN_DESKTOP_EXTENT),
            height: max_extent(self.height, MIN_DESKTOP_EXTENT),
        }
    }

    /// Takes over a report of the appliance.
    pub fn update(&mut self, report: VideoReport)
        ensures
            *final(self) == old(self).reported(report),
    {
        self.ready = report.ready;
        if report.width > 0 {
            self.width = report.width;
        }
        if report.height > 0 {
            self.height = report.height;
        }
        self.fps_milli = report.fps_milli;
    }

    /// The size that is offered to a client: the size of the signal, but at
    /// least [`MIN_DESKTOP_EXTENT`] either way.
    pub fn desktop_size(&self) -> (size: DesktopSize)
        ensures
            size == self.desktop(),
    {
        let width: u16 = if self.width < MIN_DESKTOP_EXTENT {
            MIN_DESKTOP_EXTENT
        } else {
            self.width
        };
        let height: u16 = if self.height < MIN_DESKTOP_EXTENT {
            MIN_DESKTOP_EXTENT
        } else {
            self.height
        };
        DesktopSize { width, height }
    }
}

impl Default for VideoState {
    fn default() -> (state: VideoState)
        ensures
            state == VideoState::initial(),
    {
        VideoState { ready: false, width: DEFAULT_WIDTH, height: DEFAULT_HEIGHT, fps_milli: 0 }
    }
}

/// The leading fields of a `VIDEO_STATE` payload.
#[derive(Clone, Copy, PartialEq, Eq, Structural, Debug)]
pub struct VideoReport {
    pub ready: bool,
    pub width: u16,
    pub height: u16,
    pub fps_milli: u32,
}

/// The report at the start of a payload: the ready byte, width, height and the
/// frame rate in thousandths.
pub open spec fn report_at_start(payload: Seq<u8>) -> VideoReport {
    VideoReport {
        ready: payload[0] != 0,
        width: crate::protocol::u16_at(payload, 1),
        height: crate::protocol::u16_at(payload, 3),
        fps_milli: crate::protocol::u32_at(payload, 5),
    }
}

/// Reads the fields of a video report.
pub fn parse_report(payload: &[u8]) -> (report: VideoReport)
    requires
        payload@.len() >= 9,
    ensures
        report == report_at_start(payload@),
{
    VideoReport {
        ready: payload[0] != 0,
        width: get_u16_le(payload, 1),
        height: get_u16_le(payload, 3),
        fps_milli: get_u32_le(payload, 5),
    }
}

/// The payload by which the appliance reports its video state.
pub open spec fn report_bytes(report: VideoReport, sessions: u32) -> Seq<u8> {
    seq![
        if report.ready {
            1u8
        } else {
            0u8
        },
    ] + crate::protocol::u16_le(report.width) + crate::protocol::u16_le(report.height)
        + crate::protocol::u32_le(report.fps_milli) + crate::protocol::u32_le(sessions)
}

/// One encoded picture.
pub struct VideoFrame {
    pub duration_us: u32,
    pub width: u16,
    pub height: u16,
    pub codec: u8,
    pub data: Vec<u8>,
}

/// The mathematical content of a [`VideoFrame`].
pub struct FrameView {
    pub duration_us: u32,
    pub width: u16,
    pub height: u16,
    pub codec: u8,
    pub data: Seq<u8>,
}

impl View for VideoFrame {
    type V = FrameView;

    open spec fn view(&self) -> FrameView {
        FrameView {
            duration_us: self.duration_us,
            width: self.width,
            height: self.height,
            codec: self.codec,
            data: self.data@,
        }
    }
}

/// The frame that a `VIDEO_FRAME` payload carries.
pub open spec fn frame_in(payload: Seq<u8>) -> FrameView {
    FrameView {
        duration_us: crate::protocol::u32_at(payload, 0),
        width: crate::protocol::u16_at(payload, 4),
        height: crate::protocol::u16_at(payload, 6),
        codec: payload[8],
        data: payload.skip(FRAME_HEADER_LEN as int),
    }
}

/// Reads a `VIDEO_FRAME` payload; `None` where it is too short to be one.
pub fn parse_frame(payload: &[u8]) -> (r: Option<VideoFrame>)
    ensures
        match r {
            Some(frame) => payload@.len() >= FRAME_HEADER_LEN && frame@ == frame_in(payload@),
            None => payload@.len() < FRAME_HEADER_LEN,
        },
{
    if payload.len() < FRAME_HEADER_LEN {
        return None;
    }
    let data = copy_range(payload, FRAME_HEADER_LEN, payload.len());
    assert(data@ == payload@.skip(FRAME_HEADER_LEN as int));
    Some(
        VideoFrame {
            duration_us: get_u32_le(payload, 0),
            width: get_u16_le(payload, 4),
            height: get_u16_le(payload, 6),
            codec: payload[8],
            data,
        },
    )
}

/// The payload by which the appliance sends a frame.
pub open spec fn frame_bytes(frame: FrameView) -> Seq<u8> {
    crate::protocol::u32_le(frame.duration_us) + crate::protocol::u16_le(frame.width)
        + crate::protocol::u16_le(frame.height) + seq![frame.codec] + frame.data
}

/// A video report is read back as it was sent, and its payload has the length
/// that a report must have.
pub proof fn law_report_round_trip(report: VideoReport, sessions: u32)
    ensures
        report_bytes(report, sessions).len() == VIDEO_STATE_LEN,
        report_at_start(report_bytes(report, sessions)) == report,
{
    let bytes = report_bytes(report, sessions);
    assert(bytes.subrange(1, 3) == crate::protocol::u16_le(report.width));
    assert(bytes.subrange(3, 5) == crate::protocol::u16_le(report.height));
    assert(bytes.subrange(5, 9) == crate::protocol::u32_le(report.fps_milli));
    crate::protocol::lemma_u16_le_at(bytes, 1, report.width);
    crate::protocol::lemma_u16_le_at(bytes, 3, report.height);
    crate::protocol::lemma_u32_le_at(bytes, 5, report.fps_milli);
}

/// A frame is read back as it was sent, its encoded bytes untouched.
pub proof fn law_frame_round_trip(frame: FrameView)
    ensures
        frame_bytes(frame).len() >= FRAME_HEADER_LEN,
        frame_in(frame_bytes(frame)) == frame,
{
    let bytes = frame_bytes(frame);
    assert(bytes.subrange(0, 4) == crate::protocol::u32_le(frame.duration_us));
    assert(bytes.subrange(4, 6) == crate::protocol::u16_le(frame.width));
    assert(bytes.subrange(6, 8) == crate::protocol::u16_le(frame.height));
    crate::protocol::lemma_u32_le_at(bytes, 0, frame.duration_us);
    crate::protocol::lemma_u16_le_at(bytes, 4, frame.width);
    crate::protocol::lemma_u16_le_at(bytes, 6, frame.height);
    assert(bytes.skip(FRAME_HEADER_LEN as int) == frame.data);
}

/// A report never replaces a known size by an empty one.
pub proof fn law_size_stays_known(state: VideoState, report: VideoReport)
    requires
        state.width > 0,
        state.height > 0,
    ensures
        state.reported(report).width > 0,
        state.reported(report).height > 0,
{
}

/// Whatever the appliance has reported, a client is offered a desktop of at
/// least [`MIN_DESKTOP_EXTENT`] either way, and the signal's own size where that
/// is large enough.
pub proof fn law_desktop_is_never_too_small(state: VideoState)
    ensures
        state.desktop().width >= MIN_DESKTOP_EXTENT,
        state.desktop().height >= MIN_DESKTOP_EXTENT,
        state.width >= MIN_DESKTOP_EXTENT ==> state.desktop().width == state.width,
        state.height >= MIN_DESKTOP_EXTENT ==> state.desktop().height == state.height,
{
}

/// A report is followed: what it tells replaces what was known, whatever that
/// was, and an extent that it leaves open stays as it was.
pub proof fn law_report_replaces_what_was_known(state: VideoState, report: VideoReport)
    ensures
        report.width > 0 ==> state.reported(report).width == report.width,
        report.width == 0 ==> state.reported(report).width == state.width,
        report.height > 0 ==> state.reported(report).height == report.height,
        report.height == 0 ==> state.reported(report).height == state.height,
        state.reported(report).ready == report.ready,
        state.reported(report).fps_milli == report.fps_milli,
{
}

/// The last report that knows an extent decides it: two states that differ
/// before such a report do not differ after it.
pub proof fn law_last_report_decides(a: VideoState, b: VideoState, report: VideoReport)
    requires
        report.width > 0,
        report.height > 0,
    ensures
        a.reported(report) == b.reported(report),
        a.reported(report).reported(report) == a.reported(report),
{
}

/// Before any report there is no signal, at 1920 by 1080.
pub proof fn law_video_starts_at_full_hd()
    ensures
        !VideoState::initial().ready,
        VideoState::initial().width == 1920,
        VideoState::initial().height == 1080,
        VideoState::initial().fps_milli == 0,
{
}

/// The desktop is the smallest that is no smaller than the signal and no smaller
/// than 200 pixels either way.
pub proof fn law_desktop_fits_the_signal(state: VideoState, width: u16, height: u16)
    ensures
        state.desktop().width >= state.width && state.desktop().width >= 200,
        width >= state.width && width >= 200 ==> state.desktop().width <= width,
        state.desktop().height >= state.height && state.desktop().height >= 200,
        height >= state.height && height >= 200 ==> state.desktop().height <= height,
{
}

/// The bytes of a video report: readiness, width, height and frame rate, with
/// the low bytes first.
pub proof fn law_report_bytes_have_their_places(payload: Seq<u8>)
    requires
        payload.len() >= 9,
    ensures
        report_at_start(payload).ready <==> payload[0] != 0,
        report_at_start(payload).width == payload[1] + 0x100 * payload[2],
        report_at_start(payload).height == payload[3] + 0x100 * payload[4],
        report_at_start(payload).fps_milli == payload[5] + 0x100 * payload[6] + 0x1_0000
            * payload[7] + 0x100_0000 * payload[8],
{
    crate::protocol::law_numbers_are_read_low_byte_first(payload, 1);
    crate::protocol::law_numbers_are_read_low_byte_first(payload, 3);
    crate::protocol::law_numbers_are_read_low_byte_first(payload, 5);
}

/// The bytes of a frame: duration, width, height and codec, with the low bytes
/// first, and then the encoded picture to the end.
pub proof fn law_frame_bytes_have_their_places(payload: Seq<u8>)
    requires
        payload.len() >= 9,
    ensures
        frame_in(payload).duration_us == payload[0] + 0x100 * payload[1] + 0x1_0000 * payload[2]
            + 0x100_0000 * payload[3],
        frame_in(payload).width == payload[4] + 0x100 * payload[5],
        frame_in(payload).height == payload[6] + 0x100 * payload[7],
        frame_in(payload).codec == payload[8],
        frame_in(payload).data.len() == payload.len() - 9,
        forall|i: int|
            0 <= i < payload.len() - 9 ==> #[trigger] frame_in(payload).data[i] == payload[9 + i],
{
    crate::protocol::law_numbers_are_read_low_byte_first(payload, 0);
    crate::protocol::law_numbers_are_read_low_byte_first(payload, 4);
    crate::protocol::law_numbers_are_read_low_byte_first(payload, 6);
}

/// The view of a frame is its fields and data.
pub proof fn law_view_tells_the_frame(frame: VideoFrame)
    ensures
        frame@.duration_us == frame.duration_us,
        frame@.width == frame.width,
        frame@.height == frame.height,
        frame@.codec == frame.codec,
        frame@.data == frame.data@,
{
}

} // verus!
