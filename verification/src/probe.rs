//! A diagnostic client of the bridge that samples video frames and tells how
//! they are packaged.

use vstd::prelude::*;

use crate::bridge::{is_acknowledged, BridgeError, BridgeLink, LinkView};
use crate::h264::{analyse_h264, AnalysisView, H264Analysis};
use crate::hexdump::hex_head;
use crate::protocol::{
    MessageView, MSG_ERROR, MSG_HELLO_ACK, MSG_VIDEO_FRAME, MSG_VIDEO_STATE, MSG_VIDEO_STOP,
};
use crate::video::{
    parse_frame, parse_report, FrameView, VideoFrame, VideoReport, FRAME_HEADER_LEN,
};

verus! {

/// How many frames are sampled unless told otherwise.
pub const DEFAULT_SAMPLES: usize = 20;

/// Bytes of a `VIDEO_STATE` payload that a video report takes.
pub const REPORT_LEN: usize = 9;

/// What a probe is waiting for.
#[derive(Clone, Copy, PartialEq, Eq, Structural, Debug)]
pub enum ProbePhase {
    /// The acknowledgement of the protocol version.
    Greeting,
    /// Video frames.
    Sampling,
    /// Nothing more.
    Finished,
}

/// What a probe makes of a message.
pub enum ProbeReport {
    /// The appliance speaks the same protocol version, and video is asked for.
    HandshakeComplete,
    /// The appliance reports an error before video is asked for, as UTF-8 text.
    ErrorBeforeStart(Vec<u8>),
    /// The state of the video signal.
    VideoState(VideoReport),
    /// A `VIDEO_FRAME` payload of this length is too short to hold a frame.
    ShortFrame(usize),
    /// A frame, its number counted from one, what is known of it, and its first
    /// bytes in hexadecimal.
    Frame { number: usize, frame: VideoFrame, analysis: H264Analysis, head: String },
    /// The appliance reports an error, as UTF-8 text.
    PeerError(Vec<u8>),
    /// Nothing to tell.
    Nothing,
}

/// The mathematical content of a [`ProbeReport`].
pub enum ReportView {
    HandshakeComplete,
    ErrorBeforeStart(Seq<u8>),
    VideoState(VideoReport),
    ShortFrame(nat),
    Frame { number: nat, frame: FrameView, analysis: AnalysisView, head: Seq<char> },
    PeerError(Seq<u8>),
    Nothing,
}

impl View for ProbeReport {
    type V = ReportView;

    open spec fn view(&self) -> ReportView {
        match *self {
            ProbeReport::HandshakeComplete => ReportView::HandshakeComplete,
            ProbeReport::ErrorBeforeStart(text) => ReportView::ErrorBeforeStart(text@),
            ProbeReport::VideoState(report) => ReportView::VideoState(report),
            ProbeReport::ShortFrame(len) => ReportView::ShortFrame(len as nat),
            ProbeReport::Frame { number, frame, analysis, head } => ReportView::Frame {
                number: number as nat,
                frame: frame@,
                analysis: analysis@,
                head: head@,
            },
            ProbeReport::PeerError(text) => ReportView::PeerError(text@),
            ProbeReport::Nothing => ReportView::Nothing,
        }
    }
}

/// The progress of a probe.
pub struct Probe {
    phase: ProbePhase,
    frames: usize,
    limit: usize,
}

/// The mathematical content of a [`Probe`].
pub struct ProbeView {
    pub phase: ProbePhase,
    /// Frames sampled so far.
    pub frames: nat,
    /// Frames to sample.
    pub limit: nat,
}

impl View for Probe {
    type V = ProbeView;

    closed spec fn view(&self) -> ProbeView {
        ProbeView { phase: self.phase, frames: self.frames as nat, limit: self.limit as nat }
    }
}

/// A message carries a frame that a sampling probe takes.
pub open spec fn carries_frame(typ: u8, payload: Seq<u8>) -> bool {
    typ == MSG_VIDEO_FRAME && payload.len() >= FRAME_HEADER_LEN
}

/// A link over which the end of video has been asked for.
pub open spec fn stopped(link: LinkView) -> LinkView {
    link.sent(crate::bridge::stop_message())
}

impl ProbeView {
    /// Frames are missing while they are sampled, and none is sampled before.
    pub open spec fn is_valid(self) -> bool {
        &&& self.frames <= self.limit
        &&& self.phase is Sampling ==> self.frames < self.limit
        &&& self.phase is Greeting ==> self.frames == 0
    }

    /// The phase in which so many frames have been sampled.
    pub open spec fn phase_at(self, frames: nat) -> ProbePhase {
        if frames < self.limit {
            ProbePhase::Sampling
        } else {
            ProbePhase::Finished
        }
    }

    /// After a message.
    pub open spec fn after(self, typ: u8, payload: Seq<u8>) -> ProbeView {
        match self.phase {
            ProbePhase::Greeting => if typ == MSG_HELLO_ACK && crate::bridge::acknowledges(
                payload,
            ) {
                ProbeView { phase: self.phase_at(self.frames), ..self }
            } else {
                self
            },
            ProbePhase::Sampling => if carries_frame(typ, payload) {
                ProbeView {
                    phase: self.phase_at(self.frames + 1),
                    frames: self.frames + 1,
                    ..self
                }
            } else {
                self
            },
            ProbePhase::Finished => self,
        }
    }

    /// What a message is reported as, or why it ends the connection.
    pub open spec fn report(self, typ: u8, payload: Seq<u8>) -> Result<ReportView, BridgeError> {
        match self.phase {
            ProbePhase::Greeting => if typ == MSG_HELLO_ACK {
                if crate::bridge::acknowledges(payload) {
                    Ok(ReportView::HandshakeComplete)
                } else {
                    Err(BridgeError::ProtocolMismatch)
                }
            } else if typ == MSG_ERROR {
                Ok(ReportView::ErrorBeforeStart(payload))
            } else {
                Ok(ReportView::Nothing)
            },
            ProbePhase::Sampling => if typ == MSG_VIDEO_STATE && payload.len() >= REPORT_LEN {
                Ok(ReportView::VideoState(crate::video::report_at_start(payload)))
            } else if carries_frame(typ, payload) {
                let frame = crate::video::frame_in(payload);
                Ok(
                    ReportView::Frame {
                        number: self.frames + 1,
                        frame,
                        analysis: crate::h264::analysis_of(frame.data),
                        head: crate::hexdump::hex_text(crate::hexdump::head_of(frame.data)),
                    },
                )
            } else if typ == MSG_VIDEO_FRAME {
                Ok(ReportView::ShortFrame(payload.len()))
            } else if typ == MSG_ERROR {
                Ok(ReportView::PeerError(payload))
            } else {
                Ok(ReportView::Nothing)
            },
            ProbePhase::Finished => Ok(ReportView::Nothing),
        }
    }

    /// The link after a message: video is asked for once the greeting is
    /// acknowledged, and its end once all frames have been sampled.
    pub open spec fn link_after(self, link: LinkView, typ: u8, payload: Seq<u8>) -> LinkView {
        let next = self.after(typ, payload);
        let greeted = if self.phase is Greeting && next.phase != self.phase {
            link.sent(crate::bridge::start_message())
        } else {
            link
        };
        if !(self.phase is Finished) && next.phase is Finished {
            stopped(greeted)
        } else {
            greeted
        }
    }
}

impl Probe {
    /// A probe that samples `limit` frames.
    pub fn new(limit: usize) -> (probe: Probe)
        ensures
            probe@ == (ProbeView {
                phase: ProbePhase::Greeting,
                frames: 0,
                limit: limit as nat,
            }),
            probe@.is_valid(),
    {
        Probe { phase: ProbePhase::Greeting, frames: 0, limit }
    }

    /// What the probe is waiting for.
    pub fn phase(&self) -> (phase: ProbePhase)
        ensures
            phase == self@.phase,
    {
        self.phase
    }

    /// Goes on after so many frames, asking for the end of video where they are
    /// enough.
    fn go_on(&mut self, link: &mut BridgeLink)
        ensures
            final(self)@ == (ProbeView {
                phase: old(self)@.phase_at(old(self)@.frames),
                ..old(self)@
            }),
            final(link)@ == (if old(self)@.frames < old(self)@.limit {
                old(link)@
            } else {
                stopped(old(link)@)
            }),
    {
        if self.frames < self.limit {
            self.phase = ProbePhase::Sampling;
        } else {
            self.phase = ProbePhase::Finished;
            self.send_stop(link);
        }
    }

    fn send_stop(&self, link: &mut BridgeLink)
        ensures
            final(link)@ == stopped(old(link)@),
    {
        let payload: Vec<u8> = Vec::new();
        assert(payload@ =~= crate::bridge::stop_message().payload);
        link.send(MSG_VIDEO_STOP, payload);
    }

    /// Takes in a message from the appliance.
    pub fn handle_message(&mut self, typ: u8, payload: Vec<u8>, link: &mut BridgeLink) -> (r:
        Result<ProbeReport, BridgeError>)
        requires
            old(self)@.is_valid(),
        ensures
            final(self)@.is_valid(),
            final(self)@ == old(self)@.after(typ, payload@),
            final(link)@ == old(self)@.link_after(old(link)@, typ, payload@),
            match r {
                Ok(report) => old(self)@.report(typ, payload@) == Ok::<ReportView, BridgeError>(
                    report@,
                ),
                Err(error) => old(self)@.report(typ, payload@) == Err::<ReportView, BridgeError>(
                    error,
                ),
            },
    {
        match self.phase {
            ProbePhase::Greeting => {
                if typ == MSG_HELLO_ACK {
                    if !is_acknowledged(payload.as_slice()) {
                        return Err(BridgeError::ProtocolMismatch);
                    }
                    link.start_video();
                    self.go_on(link);
                    Ok(ProbeReport::HandshakeComplete)
                } else if typ == MSG_ERROR {
                    Ok(ProbeReport::ErrorBeforeStart(payload))
                } else {
                    Ok(ProbeReport::Nothing)
                }
            },
            ProbePhase::Sampling => {
                if typ == MSG_VIDEO_STATE {
                    if payload.len() < REPORT_LEN {
                        return Ok(ProbeReport::Nothing);
                    }
                    Ok(ProbeReport::VideoState(parse_report(payload.as_slice())))
                } else if typ == MSG_VIDEO_FRAME {
                    let frame: VideoFrame = match parse_frame(payload.as_slice()) {
                        Some(frame) => frame,
                        None => return Ok(ProbeReport::ShortFrame(payload.len())),
                    };
                    let analysis: H264Analysis = analyse_h264(frame.data.as_slice());
                    let head: String = hex_head(frame.data.as_slice());
                    self.frames = self.frames + 1;
                    let number: usize = self.frames;
                    self.go_on(link);
                    Ok(ProbeReport::Frame { number, frame, analysis, head })
                } else if typ == MSG_ERROR {
                    Ok(ProbeReport::PeerError(payload))
                } else {
                    Ok(ProbeReport::Nothing)
                }
            },
            ProbePhase::Finished => Ok(ProbeReport::Nothing),
        }
    }

    /// Gives up waiting for frames and asks for the end of video.
    pub fn timed_out(&mut self, link: &mut BridgeLink)
        requires
            old(self)@.is_valid(),
        ensures
            final(self)@.is_valid(),
            final(self)@ == (if old(self)@.phase is Sampling {
                ProbeView { phase: ProbePhase::Finished, ..old(self)@ }
            } else {
                old(self)@
            }),
            final(link)@ == (if old(self)@.phase is Sampling {
                stopped(old(link)@)
            } else {
                old(link)@
            }),
    {
        if let ProbePhase::Sampling = self.phase {
            self.phase = ProbePhase::Finished;
            self.send_stop(link);
        }
    }
}

/// A probe samples one frame after another up to its limit, and no more: each
/// frame gets the next number, and no message takes a frame back.
pub proof fn law_no_more_frames_than_asked_for(probe: ProbeView, typ: u8, payload: Seq<u8>)
    requires
        probe.is_valid(),
    ensures
        probe.after(typ, payload).is_valid(),
        probe.after(typ, payload).limit == probe.limit,
        probe.after(typ, payload).frames == (if probe.report(typ, payload) matches Ok(
            ReportView::Frame { .. },
        ) {
            probe.frames + 1
        } else {
            probe.frames
        }),
        probe.report(typ, payload) matches Ok(ReportView::Frame { number, .. }) ==> number
            == probe.after(typ, payload).frames <= probe.limit,
        probe.after(typ, payload).phase is Finished && !(probe.phase is Finished)
            ==> probe.after(typ, payload).frames == probe.limit,
{
}

/// Video that was asked for is also stopped: over a connection, the start is
/// asked for when the greeting is acknowledged, the stop when the probe is
/// finished, and nothing else is sent.
pub proof fn law_started_video_is_stopped(
    probe: ProbeView,
    link: LinkView,
    typ: u8,
    payload: Seq<u8>,
)
    requires
        probe.is_valid(),
        link.connected,
    ensures
        ({
            let next = probe.after(typ, payload);
            let sent = probe.link_after(link, typ, payload).outbox;
            let start = crate::bridge::start_message();
            let stop = crate::bridge::stop_message();
            &&& probe.phase == next.phase ==> sent == link.outbox
            &&& probe.phase is Greeting && next.phase is Sampling ==> sent == link.outbox + seq![
                start,
            ]
            &&& probe.phase is Sampling && next.phase is Finished ==> sent == link.outbox + seq![
                stop,
            ]
            &&& probe.phase is Greeting && next.phase is Finished ==> sent == link.outbox + seq![
                start,
                stop,
            ]
            &&& next.phase is Greeting ==> probe.phase is Greeting
            &&& probe.phase is Finished ==> next.phase is Finished
        }),
{
    let next = probe.after(typ, payload);
    let sent = probe.link_after(link, typ, payload).outbox;
    let start: MessageView = crate::bridge::start_message();
    let stop: MessageView = crate::bridge::stop_message();
    if probe.phase is Greeting && next.phase is Sampling {
        assert(sent =~= link.outbox + seq![start]);
    } else if probe.phase is Sampling && next.phase is Finished {
        assert(sent =~= link.outbox + seq![stop]);
    } else if probe.phase is Greeting && next.phase is Finished {
        assert(sent =~= link.outbox + seq![start, stop]);
    }
}

/// What a probe makes of a message while it waits for the acknowledgement: it
/// goes on exactly where version 1 is acknowledged, gives up exactly where
/// another answer is, passes errors on, and tells nothing of anything else.
pub proof fn law_greeting_waits_for_the_version(probe: ProbeView, typ: u8, payload: Seq<u8>)
    requires
        probe.phase is Greeting,
    ensures
        ({
            let acknowledged = typ == 0x02 && payload.len() == 2 && payload[0] == 1 && payload[1]
                == 0;
            let next = probe.after(typ, payload);
            &&& next.frames == probe.frames && next.limit == probe.limit
            &&& acknowledged ==> {
                &&& probe.report(typ, payload) == Ok::<ReportView, BridgeError>(
                    ReportView::HandshakeComplete,
                )
                &&& next.phase is Sampling <==> probe.frames < probe.limit
                &&& next.phase is Finished <==> probe.frames >= probe.limit
            }
            &&& !acknowledged ==> {
                &&& next.phase is Greeting
                &&& probe.report(typ, payload) == (if typ == 0x02 {
                    Err::<ReportView, BridgeError>(BridgeError::ProtocolMismatch)
                } else if typ == 0x07 {
                    Ok::<ReportView, BridgeError>(ReportView::ErrorBeforeStart(payload))
                } else {
                    Ok::<ReportView, BridgeError>(ReportView::Nothing)
                })
            }
        }),
{
    crate::bridge::law_messages_call_for_what_they_carry(0x02, payload);
}

/// What a probe makes of a message while it samples: every frame of at least its
/// 9 bytes of header is counted and told with all its fields, whatever they are;
/// video reports, short frames and errors are told and not counted; and nothing
/// is told of anything else. Sampling ends with the frame that was asked for
/// last.
pub proof fn law_sampling_tells_every_frame(probe: ProbeView, typ: u8, payload: Seq<u8>)
    requires
        probe.phase is Sampling,
    ensures
        ({
            let next = probe.after(typ, payload);
            let report = probe.report(typ, payload);
            let width = payload[1] + 0x100 * payload[2];
            let height = payload[3] + 0x100 * payload[4];
            &&& next.limit == probe.limit
            &&& typ == 0x06 && payload.len() >= 9 ==> {
                &&& next.frames == probe.frames + 1
                &&& next.phase is Sampling <==> probe.frames + 1 < probe.limit
                &&& next.phase is Finished <==> probe.frames + 1 >= probe.limit
                &&& report matches Ok(ReportView::Frame { number, frame, analysis, head })
                &&& number == probe.frames + 1
                &&& frame.duration_us == payload[0] + 0x100 * payload[1] + 0x1_0000 * payload[2]
                    + 0x100_0000 * payload[3]
                &&& frame.width == payload[4] + 0x100 * payload[5]
                &&& frame.height == payload[6] + 0x100 * payload[7]
                &&& frame.codec == payload[8]
                &&& frame.data == payload.subrange(9, payload.len() as int)
                &&& analysis == crate::h264::analysis_of(
                    payload.subrange(9, payload.len() as int),
                )
                &&& head == crate::hexdump::hex_text(
                    crate::hexdump::head_of(payload.subrange(9, payload.len() as int)),
                )
            }
            &&& typ != 0x06 || payload.len() < 9 ==> next.frames == probe.frames && next.phase
                == probe.phase
            &&& typ == 0x06 && payload.len() < 9 ==> report == Ok::<ReportView, BridgeError>(
                ReportView::ShortFrame(payload.len()),
            )
            &&& typ == 0x05 && payload.len() >= 9 ==> {
                &&& report matches Ok(ReportView::VideoState(state))
                &&& state.ready <==> payload[0] != 0
                &&& state.width == width
                &&& state.height == height
                &&& state.fps_milli == payload[5] + 0x100 * payload[6] + 0x1_0000 * payload[7]
                    + 0x100_0000 * payload[8]
            }
            &&& typ == 0x07 ==> report == Ok::<ReportView, BridgeError>(
                ReportView::PeerError(payload),
            )
            &&& typ == 0x05 && payload.len() < 9 || typ != 0x05 && typ != 0x06 && typ != 0x07
                ==> report == Ok::<ReportView, BridgeError>(ReportView::Nothing)
        }),
{
    if payload.len() >= 9 {
        crate::video::law_frame_bytes_have_their_places(payload);
        crate::video::law_report_bytes_have_their_places(payload);
        assert(crate::video::frame_in(payload).data =~= payload.subrange(
            9,
            payload.len() as int,
        ));
    }
}

/// A probe that is finished stays so, and tells and sends nothing more.
pub proof fn law_finished_probe_rests(
    probe: ProbeView,
    link: LinkView,
    typ: u8,
    payload: Seq<u8>,
)
    requires
        probe.phase is Finished,
    ensures
        probe.after(typ, payload) == probe,
        probe.report(typ, payload) == Ok::<ReportView, BridgeError>(ReportView::Nothing),
        probe.link_after(link, typ, payload) == link,
        stopped(link) == link.sent(
            (MessageView { typ: 0x04, payload: Seq::empty() }),
        ),
{
    assert(crate::bridge::stop_message().payload =~= Seq::<u8>::empty());
}

/// What a probe sends while it is not finished: the request for video where the
/// version is acknowledged, the request for its end where no frame is missing any
/// more, and nothing else, over any link.
pub proof fn law_probe_sends_start_and_stop_alone(
    probe: ProbeView,
    link: LinkView,
    typ: u8,
    payload: Seq<u8>,
)
    requires
        !(probe.phase is Finished),
    ensures
        ({
            let start = MessageView { typ: 0x03, payload: seq![0u8] };
            let stop = MessageView { typ: 0x04, payload: Seq::<u8>::empty() };
            let acknowledged = typ == 0x02 && payload.len() == 2 && payload[0] == 1 && payload[1]
                == 0;
            let framed = typ == 0x06 && payload.len() >= 9;
            probe.link_after(link, typ, payload) == if probe.phase is Greeting && acknowledged {
                if probe.frames < probe.limit {
                    link.sent(start)
                } else {
                    link.sent(start).sent(stop)
                }
            } else if probe.phase is Sampling && framed && probe.frames + 1 >= probe.limit {
                link.sent(stop)
            } else {
                link
            }
        }),
{
    assert(crate::bridge::stop_message().payload =~= Seq::<u8>::empty());
    assert(crate::bridge::start_message().payload =~= seq![0u8]);
    if probe.phase is Greeting {
        law_greeting_waits_for_the_version(probe, typ, payload);
    } else {
        law_sampling_tells_every_frame(probe, typ, payload);
    }
}

/// The view of a report is the report.
pub proof fn law_view_tells_the_report(report: ProbeReport)
    ensures
        report is HandshakeComplete <==> report@ is HandshakeComplete,
        report is Nothing <==> report@ is Nothing,
        report matches ProbeReport::ErrorBeforeStart(text) ==> report@
            == ReportView::ErrorBeforeStart(text@),
        report matches ProbeReport::VideoState(state) ==> report@ == ReportView::VideoState(state),
        report matches ProbeReport::ShortFrame(len) ==> report@ == ReportView::ShortFrame(
            len as nat,
        ),
        report matches ProbeReport::Frame { number, frame, analysis, head } ==> report@ == (
        ReportView::Frame {
            number: number as nat,
            frame: frame@,
            analysis: analysis@,
            head: head@,
        }),
        report matches ProbeReport::PeerError(text) ==> report@ == ReportView::PeerError(text@),
{
}

} // verus!
