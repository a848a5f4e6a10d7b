//! Submission of H.264 frames to the graphics pipeline of a client.

use vstd::prelude::*;

use ironrdp_egfx::pdu::Avc420Region;
use ironrdp_egfx::server::GraphicsPipelineServer;
use ironrdp_svc::SvcMessage;

use crate::egfx::{
    drain_output, encode_dvc_messages, surface_ids, DvcBatch, GfxCommand, GfxState, GfxSurface,
    MAX_ENCODABLE, MAX_WRAPPED, PICTURE_OVERHEAD,
};
use crate::video::{FrameView, VideoFrame, CODEC_H264, FRAME_HEADER_LEN};

verus! {

/// Quantization parameter that is reported for every frame.
pub const FRAME_QP: u8 = 22;

/// The flag of a static channel that asks the client to show the channel header.
pub const FLAG_SHOW_PROTOCOL: u32 = 0x10;

/// The surface that frames go to: its identifier, width and height.
pub type SurfaceRecord = Option<(u16, u16, u16)>;

/// What to do about the surface before a frame of a given size can be sent.
#[derive(Clone, Copy, PartialEq, Eq, Structural, Debug)]
pub enum SurfacePlan {
    /// The surface with this identifier has the right size.
    Keep(u16),
    /// The surface with this identifier has another size and gives way to a new
    /// one.
    Replace(u16),
    /// There is no surface yet.
    Create,
}

/// The plan for a frame of the given size.
pub open spec fn plan_for(surface: SurfaceRecord, width: u16, height: u16) -> SurfacePlan {
    match surface {
        Some((id, w, h)) => if w == width && h == height {
            SurfacePlan::Keep(id)
        } else {
            SurfacePlan::Replace(id)
        },
        None => SurfacePlan::Create,
    }
}

/// Decides what to do about the surface for a frame of the given size.
pub fn plan_surface(surface: SurfaceRecord, width: u16, height: u16) -> (plan: SurfacePlan)
    ensures
        plan == plan_for(surface, width, height),
{
    match surface {
        Some((id, w, h)) => if w == width && h == height {
            SurfacePlan::Keep(id)
        } else {
            SurfacePlan::Replace(id)
        },
        None => SurfacePlan::Create,
    }
}

/// The frame is an H.264 picture with a size and data.
pub open spec fn drawable(frame: FrameView) -> bool {
    frame.codec == CODEC_H264 && frame.width != 0 && frame.height != 0 && frame.data.len() != 0
}

/// Tells whether a frame is worth submitting.
pub fn is_drawable(frame: &VideoFrame) -> (r: bool)
    ensures
        r == drawable(frame@),
{
    !(frame.codec != CODEC_H264 || frame.width == 0 || frame.height == 0 || frame.data.len() == 0)
}

/// The timestamp of a frame that is submitted `elapsed_ms` after the start.
pub fn frame_timestamp(elapsed_ms: u128) -> (timestamp_ms: u32)
    ensures
        elapsed_ms <= u32::MAX ==> timestamp_ms == elapsed_ms,
        elapsed_ms > u32::MAX ==> timestamp_ms == u32::MAX,
{
    if elapsed_ms > u32::MAX as u128 {
        u32::MAX
    } else {
        elapsed_ms as u32
    }
}

/// What became of a frame.
pub enum SubmitOutcome {
    /// The frame is not a picture that can be shown.
    Ignored,
    /// The client does not take H.264 frames at the moment.
    NotReady,
    /// The pipeline did not take the frame, because the client is behind.
    Dropped,
    /// The frame is queued, but the channel has not been started.
    NoChannel,
    /// The queue was taken, but could not be encoded.
    EncodeFailed(ironrdp_core::EncodeError),
    /// These messages are to be sent to the client.
    Send(Vec<SvcMessage>),
}

/// What is left of the state once the surface `id` is there, and the outcome.
pub open spec fn sends(
    before: GfxState,
    id: u16,
    frame: FrameView,
    timestamp_ms: u32,
    after: GfxState,
    outcome: SubmitOutcome,
) -> bool {
    if !before.takes_frame(id) {
        outcome is Dropped && after == before
    } else {
        let queued = before.with_frame(
            id,
            crate::egfx::full_frame(frame.width, frame.height, FRAME_QP),
            frame.data,
            timestamp_ms,
        );
        match queued.channel_id {
            None => outcome is NoChannel && after == queued,
            Some(channel_id) => after == queued.drained() && encodes(
                channel_id,
                queued.output,
                outcome,
            ),
        }
    }
}

/// The outcome is the encoding of exactly the messages of `output` for the
/// channel, or the failure of that.
pub open spec fn encodes(
    channel_id: u32,
    output: Seq<GfxCommand>,
    outcome: SubmitOutcome,
) -> bool {
    exists|batch: DvcBatch|
        {
            &&& crate::egfx::batch_commands(batch) == output
            &&& match #[trigger] crate::egfx::dvc_encoding(channel_id, batch, FLAG_SHOW_PROTOCOL) {
                Ok(messages) => {
                    &&& outcome matches SubmitOutcome::Send(sent) && sent@ == messages
                    &&& messages.len() >= output.len()
                },
                Err(error) => {
                    &&& outcome == SubmitOutcome::EncodeFailed(error)
                    &&& !crate::egfx::all_within(output, MAX_ENCODABLE)
                },
            }
        }
}

/// The state with a new surface of the given size, mapped to the origin.
pub open spec fn with_new_surface(
    state: GfxState,
    width: u16,
    height: u16,
) -> GfxState {
    state.with_surface(width, height).with_mapping(state.next_surface_id, 0, 0)
}

/// What submitting a frame does to the pipeline and the surface record, and how
/// it comes out.
///
/// A frame that is not a picture, or that the client cannot take, changes
/// nothing. Otherwise the surface is made to fit the frame, and the frame is
/// sent to it.
pub open spec fn submits(
    before: GfxState,
    surface_before: SurfaceRecord,
    frame: FrameView,
    timestamp_ms: u32,
    after: GfxState,
    surface_after: SurfaceRecord,
    outcome: SubmitOutcome,
) -> bool {
    if !drawable(frame) {
        outcome is Ignored && after == before && surface_after == surface_before
    } else if !before.ready || !before.avc420 {
        outcome is NotReady && after == before && surface_after == surface_before
    } else {
        let (w, h) = (frame.width, frame.height);
        match plan_for(surface_before, w, h) {
            SurfacePlan::Keep(id) => {
                &&& surface_after == surface_before
                &&& sends(before, id, frame, timestamp_ms, after, outcome)
            },
            SurfacePlan::Create => {
                let ready = with_new_surface(before.with_output_dimensions(w, h), w, h);
                &&& surface_after == Some((before.next_surface_id, w, h))
                &&& sends(ready, before.next_surface_id, frame, timestamp_ms, after, outcome)
            },
            SurfacePlan::Replace(old_id) => {
                &&& surface_after == Some((before.next_surface_id, w, h))
                &&& exists|cleared: GfxState|
                    {
                        &&& #[trigger] before.without_surface(old_id).resizes_to(w, h, cleared)
                        &&& sends(
                            with_new_surface(cleared, w, h),
                            before.next_surface_id,
                            frame,
                            timestamp_ms,
                            after,
                            outcome,
                        )
                    }
            },
        }
    }
}

/// Where there is no surface on record, the next identifier is free.
pub open spec fn surface_is_tracked(
    state: GfxState,
    surface: SurfaceRecord,
) -> bool {
    surface is None ==> !state.surfaces.contains_key(state.next_surface_id)
}

/// Submits a frame to the pipeline.
pub fn submit_h264(
    gfx: &mut GraphicsPipelineServer,
    surface: &mut SurfaceRecord,
    frame: &VideoFrame,
    timestamp_ms: u32,
) -> (outcome: SubmitOutcome)
    requires
        frame@.data.len() + PICTURE_OVERHEAD <= MAX_WRAPPED,
        crate::egfx::all_within(crate::egfx::gfx_state(*old(gfx)).output, MAX_WRAPPED),
        surface_is_tracked(crate::egfx::gfx_state(*old(gfx)), *old(surface)),
    ensures
        submits(
            crate::egfx::gfx_state(*old(gfx)),
            *old(surface),
            frame@,
            timestamp_ms,
            crate::egfx::gfx_state(*final(gfx)),
            *final(surface),
            outcome,
        ),
{
    if !is_drawable(frame) {
        return SubmitOutcome::Ignored;
    }
    if !gfx.is_ready() || !gfx.supports_avc420() {
        return SubmitOutcome::NotReady;
    }
    let surface_id: u16 = match plan_surface(*surface, frame.width, frame.height) {
        SurfacePlan::Keep(id) => id,
        plan => {
            match plan {
                SurfacePlan::Replace(old_id) => {
                    let _ = gfx.delete_surface(old_id);
                    gfx.resize(frame.width, frame.height);
                },
                _ => {
                    gfx.set_output_dimensions(frame.width, frame.height);
                },
            }
            let id: u16 = match gfx.create_surface(frame.width, frame.height) {
                Some(id) => id,
                None => {
                    return SubmitOutcome::NotReady;
                },
            };
            if !gfx.map_surface_to_output(id, 0, 0) {
                return SubmitOutcome::NotReady;
            }
            *surface = Some((id, frame.width, frame.height));
            id
        },
    };
    let regions = [Avc420Region::full_frame(frame.width, frame.height, FRAME_QP)];
    let queued = gfx.send_avc420_frame(surface_id, frame.data.as_slice(), &regions, timestamp_ms);
    if queued.is_none() {
        return SubmitOutcome::Dropped;
    }
    let channel_id: u32 = match gfx.channel_id() {
        Some(channel_id) => channel_id,
        None => {
            return SubmitOutcome::NoChannel;
        },
    };
    let batch = drain_output(gfx);
    match encode_dvc_messages(channel_id, batch, FLAG_SHOW_PROTOCOL) {
        Ok(messages) => SubmitOutcome::Send(messages),
        Err(error) => SubmitOutcome::EncodeFailed(error),
    }
}

/// The pipeline can be handed to [`submit_h264`] with this frame: nothing is
/// left on the output queue, where there is no surface on record the pipeline
/// has none, and the frame is not too long for the wire.
pub open spec fn can_submit(
    state: GfxState,
    surface: SurfaceRecord,
    frame: FrameView,
) -> bool {
    &&& state.output.len() == 0
    &&& surface is None ==> forall|id: u16| !state.surfaces.contains_key(id)
    &&& frame.data.len() + PICTURE_OVERHEAD <= MAX_WRAPPED
}

/// Submits a frame where the pipeline is seen to be in a state for it, and
/// otherwise leaves everything as it is and returns `None`.
pub fn submit_h264_checked(
    gfx: &mut GraphicsPipelineServer,
    surface: &mut SurfaceRecord,
    frame: &VideoFrame,
    timestamp_ms: u32,
) -> (r: Option<SubmitOutcome>)
    ensures
        r is Some <==> can_submit(crate::egfx::gfx_state(*old(gfx)), *old(surface), frame@),
        match r {
            Some(outcome) => submits(
                crate::egfx::gfx_state(*old(gfx)),
                *old(surface),
                frame@,
                timestamp_ms,
                crate::egfx::gfx_state(*final(gfx)),
                *final(surface),
                outcome,
            ),
            None => *final(gfx) == *old(gfx) && *final(surface) == *old(surface),
        },
{
    if gfx.has_pending_output() {
        return None;
    }
    if surface.is_none() {
        let ids: Vec<u16> = surface_ids(gfx);
        if ids.len() > 0 {
            assert(ids@.contains(ids@[0]));
            return None;
        }
        assert forall|id: u16| !crate::egfx::gfx_state(*gfx).surfaces.contains_key(id) by {
            assert(!ids@.contains(id));
        }
    }
    if frame.data.len() > MAX_WRAPPED - PICTURE_OVERHEAD {
        return None;
    }
    Some(submit_h264(gfx, surface, frame, timestamp_ms))
}

/// The record names the one surface that the pipeline has, with its size and
/// mapped to the origin, or there is neither a record nor a surface.
pub open spec fn in_step(state: GfxState, surface: SurfaceRecord) -> bool {
    match surface {
        None => state.surfaces == Map::<u16, GfxSurface>::empty(),
        Some((id, width, height)) => state.surfaces == map![
            id => GfxSurface { width, height, origin: Some((0u32, 0u32)) },
        ],
    }
}

proof fn lemma_new_surface_in_step(state: GfxState, width: u16, height: u16)
    requires
        state.surfaces == Map::<u16, GfxSurface>::empty(),
    ensures
        in_step(
            with_new_surface(state, width, height),
            Some((state.next_surface_id, width, height)),
        ),
{
    assert(with_new_surface(state, width, height).surfaces =~= map![
        state.next_surface_id => GfxSurface {
            width,
            height,
            origin: Some((0u32, 0u32)),
        },
    ]);
}

/// The surface record and the pipeline stay in step through every submission:
/// the pipeline never has more than one surface, and the record describes it.
pub proof fn law_surface_stays_in_step(
    before: GfxState,
    surface_before: SurfaceRecord,
    frame: FrameView,
    timestamp_ms: u32,
    after: GfxState,
    surface_after: SurfaceRecord,
    outcome: SubmitOutcome,
)
    requires
        in_step(before, surface_before),
        submits(before, surface_before, frame, timestamp_ms, after, surface_after, outcome),
    ensures
        in_step(after, surface_after),
        surface_is_tracked(after, surface_after),
{
    if drawable(frame) && before.ready && before.avc420 {
        let (w, h) = (frame.width, frame.height);
        match plan_for(surface_before, w, h) {
            SurfacePlan::Keep(_) => {},
            SurfacePlan::Create => {
                lemma_new_surface_in_step(before.with_output_dimensions(w, h), w, h);
            },
            SurfacePlan::Replace(old_id) => {
                let cleared = choose|cleared: GfxState|
                    {
                        &&& #[trigger] before.without_surface(old_id).resizes_to(w, h, cleared)
                        &&& sends(
                            with_new_surface(cleared, w, h),
                            before.next_surface_id,
                            frame,
                            timestamp_ms,
                            after,
                            outcome,
                        )
                    };
                lemma_new_surface_in_step(cleared, w, h);
            },
        }
    }
}

proof fn lemma_new_surface_within(
    state: GfxState,
    width: u16,
    height: u16,
    limit: usize,
)
    requires
        crate::egfx::all_within(state.output, limit),
    ensures
        crate::egfx::all_within(with_new_surface(state, width, height).output, limit),
{
}

proof fn lemma_sends_within(
    before: GfxState,
    id: u16,
    frame: FrameView,
    timestamp_ms: u32,
    after: GfxState,
    outcome: SubmitOutcome,
    limit: usize,
)
    requires
        crate::egfx::all_within(before.output, limit),
        frame.data.len() + PICTURE_OVERHEAD <= limit,
        sends(before, id, frame, timestamp_ms, after, outcome),
    ensures
        crate::egfx::all_within(after.output, limit),
        limit <= MAX_ENCODABLE ==> outcome !is EncodeFailed,
{
    let queued = before.with_frame(
        id,
        crate::egfx::full_frame(frame.width, frame.height, FRAME_QP),
        frame.data,
        timestamp_ms,
    );
    assert(crate::egfx::all_within(queued.output, limit));
    if limit <= MAX_ENCODABLE {
        assert forall|i: int| 0 <= i < queued.output.len() implies (
        #[trigger] queued.output[i]).within(MAX_ENCODABLE) by {
            assert(queued.output[i].within(limit));
        }
    }
}

/// Messages that are short enough to be sent stay so: where the queue and the
/// frame are within a limit, what a submission leaves on the queue is, too, and
/// within [`MAX_ENCODABLE`] encoding never fails.
pub proof fn law_queue_stays_sendable(
    before: GfxState,
    surface_before: SurfaceRecord,
    frame: FrameView,
    timestamp_ms: u32,
    after: GfxState,
    surface_after: SurfaceRecord,
    outcome: SubmitOutcome,
    limit: usize,
)
    requires
        crate::egfx::all_within(before.output, limit),
        frame.data.len() + PICTURE_OVERHEAD <= limit,
        submits(before, surface_before, frame, timestamp_ms, after, surface_after, outcome),
    ensures
        crate::egfx::all_within(after.output, limit),
        limit <= MAX_ENCODABLE ==> outcome !is EncodeFailed,
{
    if drawable(frame) && before.ready && before.avc420 {
        let (w, h) = (frame.width, frame.height);
        match plan_for(surface_before, w, h) {
            SurfacePlan::Keep(id) => {
                lemma_sends_within(before, id, frame, timestamp_ms, after, outcome, limit);
            },
            SurfacePlan::Create => {
                let sized = before.with_output_dimensions(w, h);
                lemma_new_surface_within(sized, w, h, limit);
                lemma_sends_within(
                    with_new_surface(sized, w, h),
                    before.next_surface_id,
                    frame,
                    timestamp_ms,
                    after,
                    outcome,
                    limit,
                );
            },
            SurfacePlan::Replace(old_id) => {
                let cleared = choose|cleared: GfxState|
                    {
                        &&& #[trigger] before.without_surface(old_id).resizes_to(w, h, cleared)
                        &&& sends(
                            with_new_surface(cleared, w, h),
                            before.next_surface_id,
                            frame,
                            timestamp_ms,
                            after,
                            outcome,
                        )
                    };
                lemma_new_surface_within(cleared, w, h, limit);
                lemma_sends_within(
                    with_new_surface(cleared, w, h),
                    before.next_surface_id,
                    frame,
                    timestamp_ms,
                    after,
                    outcome,
                    limit,
                );
            },
        }
    }
}

/// Nothing waits to be sent, and nothing would be left waiting: the channel has
/// been started, and a frame for a new surface is not held back.
pub open spec fn is_prompt(state: GfxState, surface: SurfaceRecord) -> bool {
    &&& state.output.len() == 0
    &&& state.channel_id is Some
    &&& state.max_in_flight >= 1
    &&& surface is None ==> state.unacknowledged == Set::<u32>::empty()
}

/// A submission leaves nothing behind on the queue, so that the next frame can
/// be submitted as well.
pub proof fn law_pipeline_stays_open_for_frames(
    before: GfxState,
    surface_before: SurfaceRecord,
    frame: FrameView,
    timestamp_ms: u32,
    after: GfxState,
    surface_after: SurfaceRecord,
    outcome: SubmitOutcome,
    next: FrameView,
)
    requires
        is_prompt(before, surface_before),
        in_step(before, surface_before),
        submits(before, surface_before, frame, timestamp_ms, after, surface_after, outcome),
        next.data.len() + PICTURE_OVERHEAD <= MAX_WRAPPED,
    ensures
        is_prompt(after, surface_after),
        can_submit(after, surface_after, next),
{
    law_surface_stays_in_step(
        before,
        surface_before,
        frame,
        timestamp_ms,
        after,
        surface_after,
        outcome,
    );
}

/// Video is not transcoded: where the frame of a `VIDEO_FRAME` payload is sent,
/// what goes to the client ends with a picture for the recorded surface whose
/// H.264 data are the encoded bytes of the payload, unchanged, and that surface
/// has the size of the frame.
pub proof fn law_video_is_not_transcoded(
    before: GfxState,
    surface_before: SurfaceRecord,
    payload: Seq<u8>,
    timestamp_ms: u32,
    after: GfxState,
    surface_after: SurfaceRecord,
    outcome: SubmitOutcome,
)
    requires
        submits(
            before,
            surface_before,
            crate::video::frame_in(payload),
            timestamp_ms,
            after,
            surface_after,
            outcome,
        ),
        outcome is Send,
    ensures
        surface_after is Some,
        ({
            let frame = crate::video::frame_in(payload);
            let (id, width, height) = surface_after->0;
            &&& width == frame.width && height == frame.height
            &&& exists|batch: DvcBatch, channel_id: u32|
                {
                    let sent = crate::egfx::batch_commands(batch);
                    &&& before.channel_id == Some(channel_id)
                    &&& #[trigger] crate::egfx::dvc_encoding(channel_id, batch, FLAG_SHOW_PROTOCOL)
                        == Ok::<Seq<SvcMessage>, ironrdp_core::EncodeError>(outcome->Send_0@)
                    &&& sent.len() >= 3
                    &&& sent[sent.len() - 2] == GfxCommand::Avc420 {
                        surface_id: id,
                        region: crate::egfx::full_frame(width, height, FRAME_QP),
                        h264: payload.skip(FRAME_HEADER_LEN as int),
                    }
                }
        }),
{
    let frame = crate::video::frame_in(payload);
    let (w, h) = (frame.width, frame.height);
    match plan_for(surface_before, w, h) {
        SurfacePlan::Keep(_) => {},
        SurfacePlan::Create => {},
        SurfacePlan::Replace(old_id) => {
            let cleared = choose|cleared: GfxState|
                {
                    &&& #[trigger] before.without_surface(old_id).resizes_to(w, h, cleared)
                    &&& sends(
                        with_new_surface(cleared, w, h),
                        before.next_surface_id,
                        frame,
                        timestamp_ms,
                        after,
                        outcome,
                    )
                };
            assert(cleared.channel_id == before.channel_id);
        },
    }
}

/// A frame of the size of the recorded surface changes neither the record nor
/// the surfaces, and announces nothing but itself.
pub proof fn law_same_size_keeps_the_surface(
    before: GfxState,
    id: u16,
    frame: FrameView,
    timestamp_ms: u32,
    after: GfxState,
    surface_after: SurfaceRecord,
    outcome: SubmitOutcome,
)
    requires
        submits(
            before,
            Some((id, frame.width, frame.height)),
            frame,
            timestamp_ms,
            after,
            surface_after,
            outcome,
        ),
    ensures
        surface_after == Some((id, frame.width, frame.height)),
        after.surfaces == before.surfaces,
        outcome is NoChannel ==> after.output.len() == before.output.len() + 3,
        outcome is Send ==> after.output.len() == 0,
{
}

/// The first frame on a fresh pipeline goes out in the order that the graphics
/// protocol asks for: the output size, the surface, its mapping, and the frame.
pub proof fn law_first_frame_announces_the_surface(
    before: GfxState,
    frame: FrameView,
    timestamp_ms: u32,
    after: GfxState,
    surface_after: SurfaceRecord,
    outcome: SubmitOutcome,
)
    requires
        !before.reset_sent,
        before.output.len() == 0,
        submits(before, None, frame, timestamp_ms, after, surface_after, outcome),
        outcome is Send,
    ensures
        ({
            let (w, h) = (frame.width, frame.height);
            let id = before.next_surface_id;
            let frame_id = before.next_frame_id;
            exists|batch: DvcBatch, channel_id: u32|
                {
                    &&& #[trigger] crate::egfx::dvc_encoding(channel_id, batch, FLAG_SHOW_PROTOCOL)
                        == Ok::<Seq<SvcMessage>, ironrdp_core::EncodeError>(outcome->Send_0@)
                    &&& crate::egfx::batch_commands(batch) == seq![
                        GfxCommand::ResetGraphics {
                            desktop_width: w as u32,
                            desktop_height: h as u32,
                        },
                        GfxCommand::CreateSurface {
                            surface_id: id,
                            width: w,
                            height: h,
                        },
                        GfxCommand::MapSurfaceToOutput {
                            surface_id: id,
                            origin_x: 0,
                            origin_y: 0,
                        },
                        GfxCommand::StartFrame {
                            frame_id,
                            time_of_day: timestamp_ms as int % 86400000,
                        },
                        GfxCommand::Avc420 {
                            surface_id: id,
                            region: crate::egfx::full_frame(w, h, FRAME_QP),
                            h264: frame.data,
                        },
                        GfxCommand::EndFrame { frame_id },
                    ]
                }
        }),
{
    let (w, h) = (frame.width, frame.height);
    let ready = with_new_surface(before.with_output_dimensions(w, h), w, h);
    let queued = ready.with_frame(
        before.next_surface_id,
        crate::egfx::full_frame(w, h, FRAME_QP),
        frame.data,
        timestamp_ms,
    );
    let channel_id = queued.channel_id->0;
    let batch = choose|batch: DvcBatch|
        {
            &&& crate::egfx::batch_commands(batch) == queued.output
            &&& match #[trigger] crate::egfx::dvc_encoding(channel_id, batch, FLAG_SHOW_PROTOCOL) {
                Ok(messages) => {
                    &&& outcome matches SubmitOutcome::Send(sent) && sent@ == messages
                    &&& messages.len() >= queued.output.len()
                },
                Err(error) => {
                    &&& outcome == SubmitOutcome::EncodeFailed(error)
                    &&& !crate::egfx::all_within(queued.output, MAX_ENCODABLE)
                },
            }
        };
    assert(crate::egfx::batch_commands(batch) =~= seq![
        GfxCommand::ResetGraphics { desktop_width: w as u32, desktop_height: h as u32 },
        GfxCommand::CreateSurface {
            surface_id: before.next_surface_id,
            width: w,
            height: h,
        },
        GfxCommand::MapSurfaceToOutput {
            surface_id: before.next_surface_id,
            origin_x: 0,
            origin_y: 0,
        },
        GfxCommand::StartFrame {
            frame_id: before.next_frame_id,
            time_of_day: timestamp_ms as int % 86400000,
        },
        GfxCommand::Avc420 {
            surface_id: before.next_surface_id,
            region: crate::egfx::full_frame(w, h, FRAME_QP),
            h264: frame.data,
        },
        GfxCommand::EndFrame { frame_id: before.next_frame_id },
    ]);
}

/// The messages on the queue are short enough to be encoded.
pub open spec fn is_short(command: GfxCommand) -> bool {
    match command {
        GfxCommand::Avc420 { h264, .. } => h264.len() + 39 <= 4293918720,
        GfxCommand::Other => false,
        _ => true,
    }
}

/// Every frame that can be shown is sent: where it is H.264 with a size and
/// data, and the client is ready for it and not behind, submitting it ends in
/// messages for the client, whatever the size of the frame and of the surface
/// before it.
pub proof fn law_every_picture_is_sent(
    before: GfxState,
    surface_before: SurfaceRecord,
    frame: FrameView,
    timestamp_ms: u32,
    after: GfxState,
    surface_after: SurfaceRecord,
    outcome: SubmitOutcome,
)
    requires
        submits(before, surface_before, frame, timestamp_ms, after, surface_after, outcome),
        frame.codec == 0,
        frame.width > 0,
        frame.height > 0,
        frame.data.len() > 0,
        frame.data.len() + 39 <= 4293918720,
        before.ready,
        before.avc420,
        before.channel_id is Some,
        before.ack_suspended || before.unacknowledged.len() < before.max_in_flight,
        before.max_in_flight > 0,
        surface_before matches Some((id, _, _)) ==> before.surfaces.contains_key(id),
        forall|i: int| 0 <= i < before.output.len() ==> is_short(#[trigger] before.output[i]),
    ensures
        outcome is Send,
        outcome->Send_0@.len() >= 3,
        after.output.len() == 0,
{
    assert(crate::egfx::all_within(before.output, 4293918720)) by {
        assert forall|i: int| 0 <= i < before.output.len() implies (
        #[trigger] before.output[i]).within(4293918720) by {
            assert(is_short(before.output[i]));
        }
    }
    law_queue_stays_sendable(
        before,
        surface_before,
        frame,
        timestamp_ms,
        after,
        surface_after,
        outcome,
        4293918720,
    );
}

/// A frame is passed over only for a reason: it is ignored exactly where it is
/// not H.264 or has no width, height or data, and held back exactly where it is
/// a picture that the client cannot take yet. Either way nothing changes. Any
/// other frame gets a surface of its own size.
pub proof fn law_frames_are_passed_over_for_a_reason(
    before: GfxState,
    surface_before: SurfaceRecord,
    frame: FrameView,
    timestamp_ms: u32,
    after: GfxState,
    surface_after: SurfaceRecord,
    outcome: SubmitOutcome,
)
    requires
        submits(before, surface_before, frame, timestamp_ms, after, surface_after, outcome),
    ensures
        ({
            let empty = frame.codec != 0 || frame.width == 0 || frame.height == 0
                || frame.data.len() == 0;
            let waiting = !before.ready || !before.avc420;
            &&& outcome is Ignored <==> empty
            &&& outcome is NotReady <==> !empty && waiting
            &&& empty || waiting ==> after == before && surface_after == surface_before
            &&& !empty && !waiting ==> {
                &&& surface_after matches Some((kept_id, kept_width, kept_height))
                &&& kept_width == frame.width
                &&& kept_height == frame.height
                &&& kept_id == (match surface_before {
                    Some((id, width, height)) => if width == frame.width && height
                        == frame.height {
                        id
                    } else {
                        before.next_surface_id
                    },
                    None => before.next_surface_id,
                })
            }
            &&& outcome is Dropped ==> {
                ||| !before.ack_suspended && (before.unacknowledged.len() as u32)
                    >= before.max_in_flight
                ||| before.max_in_flight == 0
                ||| surface_before matches Some((id, _, _)) && !before.surfaces.contains_key(id)
            }
            &&& outcome is Dropped && plan_for(surface_before, frame.width, frame.height) is Keep
                ==> after == before
            &&& !empty && !waiting && !before.ack_suspended && (before.unacknowledged.len() as u32)
                >= before.max_in_flight && plan_for(
                surface_before,
                frame.width,
                frame.height,
            ) is Keep ==> outcome is Dropped
            &&& outcome is NoChannel ==> before.channel_id is None
            &&& outcome is Send ==> before.channel_id is Some
        }),
{
    let (w, h) = (frame.width, frame.height);
    if drawable(frame) && before.ready && before.avc420 {
        if let SurfacePlan::Replace(old_id) = plan_for(surface_before, w, h) {
            let cleared = choose|cleared: GfxState|
                {
                    &&& #[trigger] before.without_surface(old_id).resizes_to(w, h, cleared)
                    &&& sends(
                        with_new_surface(cleared, w, h),
                        before.next_surface_id,
                        frame,
                        timestamp_ms,
                        after,
                        outcome,
                    )
                };
            assert(cleared.channel_id == before.channel_id);
            assert(cleared.unacknowledged.len() == 0);
        }
    }
}

/// A frame can be handed to a pipeline exactly where nothing waits on the queue,
/// a missing record means that there are no surfaces, and the frame is not too
/// long for the wire, whatever else the frame is.
pub proof fn law_any_frame_can_be_handed_over(
    state: GfxState,
    surface: SurfaceRecord,
    frame: FrameView,
)
    ensures
        can_submit(state, surface, frame) <==> {
            &&& state.output.len() == 0
            &&& surface is None ==> forall|id: u16| !state.surfaces.contains_key(id)
            &&& frame.data.len() + 39 <= 4294836225
        },
        surface is Some || !state.surfaces.contains_key(state.next_surface_id)
            ==> surface_is_tracked(state, surface),
{
}

/// The surface is kept exactly where it has the size of the frame, replaced
/// exactly where it has another, and created exactly where there is none.
pub proof fn law_surface_follows_the_size(surface: SurfaceRecord, width: u16, height: u16)
    ensures
        plan_for(surface, width, height) is Create <==> surface is None,
        forall|id: u16|
            plan_for(surface, width, height) == SurfacePlan::Keep(id) <==> surface == Some(
                (id, width, height),
            ),
        forall|id: u16|
            plan_for(surface, width, height) == SurfacePlan::Replace(id) <==> {
                &&& surface matches Some((recorded, w, h))
                &&& recorded == id
                &&& w != width || h != height
            },
{
}

/// What the three messages of a frame say: the frame starts at the time of day,
/// the picture covers the whole of the surface with its H.264 data unchanged,
/// and the same frame ends.
pub open spec fn frame_commands(
    frame_id: u32,
    timestamp_ms: u32,
    surface_id: u16,
    width: u16,
    height: u16,
    h264: Seq<u8>,
) -> Seq<GfxCommand> {
    seq![
        GfxCommand::StartFrame { frame_id, time_of_day: timestamp_ms as int % 86400000 },
        GfxCommand::Avc420 {
            surface_id,
            region: crate::egfx::GfxRegion {
                left: 0,
                top: 0,
                right: (width - 1) as u16,
                bottom: (height - 1) as u16,
                qp: 22,
                quality: 100,
            },
            h264,
        },
        GfxCommand::EndFrame { frame_id },
    ]
}

/// These messages are delivered: they are sent to the client over the channel of
/// the pipeline, with nothing left waiting, or wait for the channel to be
/// started.
pub open spec fn delivers(
    before: GfxState,
    after: GfxState,
    outcome: SubmitOutcome,
    commands: Seq<GfxCommand>,
) -> bool {
    match before.channel_id {
        Some(channel_id) => {
            &&& outcome is Send
            &&& after.output.len() == 0
            &&& exists|batch: DvcBatch|
                {
                    &&& crate::egfx::batch_commands(batch) == commands
                    &&& #[trigger] crate::egfx::dvc_encoding(channel_id, batch, 0x10) == Ok::<
                        Seq<SvcMessage>,
                        ironrdp_core::EncodeError,
                    >(outcome->Send_0@)
                }
        },
        None => outcome is NoChannel && after.output == commands,
    }
}

proof fn lemma_delivers(
    before: GfxState,
    queued: GfxState,
    after: GfxState,
    outcome: SubmitOutcome,
    commands: Seq<GfxCommand>,
)
    requires
        before.channel_id == queued.channel_id,
        match queued.channel_id {
            None => outcome is NoChannel && after == queued,
            Some(channel_id) => after == queued.drained() && encodes(
                channel_id,
                queued.output,
                outcome,
            ),
        },
        outcome is Send || outcome is NoChannel,
        queued.output == commands,
    ensures
        delivers(before, after, outcome, commands),
{
    if let Some(channel_id) = before.channel_id {
        let batch = choose|batch: DvcBatch|
            {
                &&& crate::egfx::batch_commands(batch) == queued.output
                &&& match #[trigger] crate::egfx::dvc_encoding(
                    channel_id,
                    batch,
                    FLAG_SHOW_PROTOCOL,
                ) {
                    Ok(messages) => {
                        &&& outcome matches SubmitOutcome::Send(sent) && sent@ == messages
                        &&& messages.len() >= queued.output.len()
                    },
                    Err(error) => {
                        &&& outcome == SubmitOutcome::EncodeFailed(error)
                        &&& !crate::egfx::all_within(queued.output, MAX_ENCODABLE)
                    },
                }
            };
        assert(crate::egfx::batch_commands(batch) == commands);
        assert(crate::egfx::dvc_encoding(channel_id, batch, 0x10) == Ok::<
            Seq<SvcMessage>,
            ironrdp_core::EncodeError,
        >(outcome->Send_0@));
    }
}

/// What a client gets for a frame of the size of its surface: what waited
/// already, and the frame.
pub proof fn law_same_size_sends_the_frame_alone(
    before: GfxState,
    surface_id: u16,
    frame: FrameView,
    timestamp_ms: u32,
    after: GfxState,
    surface_after: SurfaceRecord,
    outcome: SubmitOutcome,
)
    requires
        submits(
            before,
            Some((surface_id, frame.width, frame.height)),
            frame,
            timestamp_ms,
            after,
            surface_after,
            outcome,
        ),
        outcome is Send || outcome is NoChannel,
    ensures
        delivers(
            before,
            after,
            outcome,
            before.output + frame_commands(
                before.next_frame_id,
                timestamp_ms,
                surface_id,
                frame.width,
                frame.height,
                frame.data,
            ),
        ),
        after.surfaces == before.surfaces,
        after.unacknowledged == before.unacknowledged.insert(before.next_frame_id),
        after.next_frame_id == (before.next_frame_id + 1) % 0x1_0000_0000,
        after.next_surface_id == before.next_surface_id,
{
    let queued = before.with_frame(
        surface_id,
        crate::egfx::full_frame(frame.width, frame.height, FRAME_QP),
        frame.data,
        timestamp_ms,
    );
    let commands = before.output + frame_commands(
        before.next_frame_id,
        timestamp_ms,
        surface_id,
        frame.width,
        frame.height,
        frame.data,
    );
    assert(queued.output =~= commands);
    lemma_delivers(before, queued, after, outcome, commands);
}

/// What a client gets for the first frame: what waited already, the size of the
/// output where it has not been told one, a surface of the size of the frame at
/// the origin, and the frame.
pub proof fn law_first_frame_sends_the_surface(
    before: GfxState,
    frame: FrameView,
    timestamp_ms: u32,
    after: GfxState,
    surface_after: SurfaceRecord,
    outcome: SubmitOutcome,
)
    requires
        submits(before, None, frame, timestamp_ms, after, surface_after, outcome),
        outcome is Send || outcome is NoChannel,
    ensures
        ({
            let (width, height) = (frame.width, frame.height);
            let surface_id = before.next_surface_id;
            let announcement = if before.reset_sent {
                Seq::empty()
            } else {
                seq![
                    GfxCommand::ResetGraphics {
                        desktop_width: width as u32,
                        desktop_height: height as u32,
                    },
                ]
            };
            delivers(
                before,
                after,
                outcome,
                before.output + announcement + seq![
                    GfxCommand::CreateSurface { surface_id, width, height },
                    GfxCommand::MapSurfaceToOutput { surface_id, origin_x: 0, origin_y: 0 },
                ] + frame_commands(
                    before.next_frame_id,
                    timestamp_ms,
                    surface_id,
                    width,
                    height,
                    frame.data,
                ),
            )
        }),
        after.surfaces == before.surfaces.insert(
            before.next_surface_id,
            GfxSurface { width: frame.width, height: frame.height, origin: Some((0, 0)) },
        ),
        after.unacknowledged == before.unacknowledged.insert(before.next_frame_id),
        after.next_frame_id == (before.next_frame_id + 1) % 0x1_0000_0000,
        after.next_surface_id == (before.next_surface_id + 1) % 0x1_0000,
{
    let (width, height) = (frame.width, frame.height);
    let surface_id = before.next_surface_id;
    let announcement = if before.reset_sent {
        Seq::empty()
    } else {
        seq![
            GfxCommand::ResetGraphics {
                desktop_width: width as u32,
                desktop_height: height as u32,
            },
        ]
    };
    let commands = before.output + announcement + seq![
        GfxCommand::CreateSurface { surface_id, width, height },
        GfxCommand::MapSurfaceToOutput { surface_id, origin_x: 0, origin_y: 0 },
    ] + frame_commands(
        before.next_frame_id,
        timestamp_ms,
        surface_id,
        width,
        height,
        frame.data,
    );
    let queued = with_new_surface(
        before.with_output_dimensions(width, height),
        width,
        height,
    ).with_frame(
        surface_id,
        crate::egfx::full_frame(width, height, FRAME_QP),
        frame.data,
        timestamp_ms,
    );
    assert(queued.output =~= commands);
    lemma_delivers(before, queued, after, outcome, commands);
}

/// What a client gets for a frame of another size than its only surface: what
/// waited already, the end of that surface, the new size of the output, a surface
/// of the size of the frame at the origin, and the frame.
pub proof fn law_another_size_replaces_the_surface(
    before: GfxState,
    old_id: u16,
    old_width: u16,
    old_height: u16,
    frame: FrameView,
    timestamp_ms: u32,
    after: GfxState,
    surface_after: SurfaceRecord,
    outcome: SubmitOutcome,
)
    requires
        submits(
            before,
            Some((old_id, old_width, old_height)),
            frame,
            timestamp_ms,
            after,
            surface_after,
            outcome,
        ),
        old_width != frame.width || old_height != frame.height,
        before.surfaces.dom() == set![old_id],
        outcome is Send || outcome is NoChannel,
    ensures
        ({
            let (width, height) = (frame.width, frame.height);
            let surface_id = before.next_surface_id;
            delivers(
                before,
                after,
                outcome,
                before.output + seq![
                    GfxCommand::DeleteSurface { surface_id: old_id },
                    GfxCommand::ResetGraphics {
                        desktop_width: width as u32,
                        desktop_height: height as u32,
                    },
                    GfxCommand::CreateSurface { surface_id, width, height },
                    GfxCommand::MapSurfaceToOutput { surface_id, origin_x: 0, origin_y: 0 },
                ] + frame_commands(
                    before.next_frame_id,
                    timestamp_ms,
                    surface_id,
                    width,
                    height,
                    frame.data,
                ),
            )
        }),
        after.surfaces == map![
            before.next_surface_id => GfxSurface {
                width: frame.width,
                height: frame.height,
                origin: Some((0u32, 0u32)),
            },
        ],
        after.unacknowledged == set![before.next_frame_id],
        after.next_frame_id == (before.next_frame_id + 1) % 0x1_0000_0000,
        after.next_surface_id == (before.next_surface_id + 1) % 0x1_0000,
{
    let (width, height) = (frame.width, frame.height);
    let surface_id = before.next_surface_id;
    let commands = before.output + seq![
        GfxCommand::DeleteSurface { surface_id: old_id },
        GfxCommand::ResetGraphics {
            desktop_width: width as u32,
            desktop_height: height as u32,
        },
        GfxCommand::CreateSurface { surface_id, width, height },
        GfxCommand::MapSurfaceToOutput { surface_id, origin_x: 0, origin_y: 0 },
    ] + frame_commands(
        before.next_frame_id,
        timestamp_ms,
        surface_id,
        width,
        height,
        frame.data,
    );
    let bare = before.without_surface(old_id);
    let cleared = choose|cleared: GfxState|
        {
            &&& #[trigger] before.without_surface(old_id).resizes_to(width, height, cleared)
            &&& sends(
                with_new_surface(cleared, width, height),
                before.next_surface_id,
                frame,
                timestamp_ms,
                after,
                outcome,
            )
        };
    assert(before.surfaces.contains_key(old_id));
    assert(forall|id: u16| !bare.surfaces.contains_key(id));
    let reset = GfxCommand::ResetGraphics {
        desktop_width: width as u32,
        desktop_height: height as u32,
    };
    let ids = choose|ids: Seq<u16>|
        {
            &&& ids.no_duplicates()
            &&& forall|id: u16| ids.contains(id) <==> bare.surfaces.contains_key(id)
            &&& cleared == GfxState {
                surfaces: Map::empty(),
                output_width: width,
                output_height: height,
                reset_sent: true,
                unacknowledged: Set::empty(),
                ack_suspended: false,
                output: bare.output + #[trigger] crate::egfx::deletions(ids) + seq![reset],
                ..bare
            }
        };
    assert(ids.len() == 0) by {
        if ids.len() > 0 {
            assert(ids.contains(ids[0]));
        }
    }
    assert(cleared.output =~= before.output + seq![
        GfxCommand::DeleteSurface { surface_id: old_id },
        reset,
    ]);
    let queued = with_new_surface(cleared, width, height).with_frame(
        surface_id,
        crate::egfx::full_frame(width, height, FRAME_QP),
        frame.data,
        timestamp_ms,
    );
    assert(queued.output =~= commands);
    lemma_delivers(before, queued, after, outcome, commands);
    assert(after.unacknowledged =~= set![before.next_frame_id]);
    lemma_new_surface_in_step(cleared, width, height);
}

/// A frame is a picture exactly where it is H.264 and neither its width, nor its
/// height, nor its data are empty.
pub proof fn law_pictures_are_drawable(frame: FrameView)
    ensures
        drawable(frame) <==> {
            &&& frame.codec == 0
            &&& frame.width > 0
            &&& frame.height > 0
            &&& frame.data.len() > 0
        },
{
}

} // verus!
