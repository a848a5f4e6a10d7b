//! The part of `ironrdp-egfx` and `ironrdp-dvc` that frame submission rests on.
//!
//! [`GfxState`] models what a `GraphicsPipelineServer` holds. The contracts in
//! this file are believed, not proved: each says what the named function does
//! to that state. All of them take it that the callbacks of the server's
//! handler return.

use vstd::prelude::*;

use ironrdp_egfx::pdu::Avc420Region;
use ironrdp_egfx::server::GraphicsPipelineServer;
use ironrdp_svc::SvcMessage;

verus! {

#[verifier::external_type_specification]
#[verifier::external_body]
pub struct ExGraphicsPipelineServer(ironrdp_egfx::server::GraphicsPipelineServer);

#[verifier::external_type_specification]
#[verifier::external_body]
pub struct ExAvc420Region(ironrdp_egfx::pdu::Avc420Region);

#[verifier::external_type_specification]
#[verifier::external_body]
pub struct ExSvcMessage(ironrdp_svc::SvcMessage);

#[verifier::external_type_specification]
#[verifier::external_body]
#[verifier::reject_recursive_types(Kind)]
pub struct ExError<Kind>(ironrdp_error::Error<Kind>);

#[verifier::external_type_specification]
#[verifier::external_body]
pub struct ExEncodeErrorKind(ironrdp_core::EncodeErrorKind);

/// A surface that the client has been told to create.
pub struct GfxSurface {
    pub width: u16,
    pub height: u16,
    /// Where the surface is mapped on the output, if it is.
    pub origin: Option<(u32, u32)>,
}

/// The part of a picture that an H.264 stream covers; all bounds are inclusive.
pub struct GfxRegion {
    pub left: u16,
    pub top: u16,
    pub right: u16,
    pub bottom: u16,
    pub qp: u8,
    pub quality: u8,
}

/// A protocol message that waits on the output queue.
pub enum GfxCommand {
    ResetGraphics { desktop_width: u32, desktop_height: u32 },
    CreateSurface { surface_id: u16, width: u16, height: u16 },
    DeleteSurface { surface_id: u16 },
    MapSurfaceToOutput { surface_id: u16, origin_x: u32, origin_y: u32 },
    /// The start of a frame, with the time of day in milliseconds.
    StartFrame { frame_id: u32, time_of_day: int },
    /// An H.264 picture that covers one region of a surface.
    Avc420 { surface_id: u16, region: GfxRegion, h264: Seq<u8> },
    EndFrame { frame_id: u32 },
    /// A message of a kind that frame submission does not produce.
    Other,
}

/// Bytes that the headers add to the H.264 data of a picture with one region.
pub const PICTURE_OVERHEAD: usize = 39;

/// Longest encoded message that can be wrapped in segments.
pub const MAX_WRAPPED: usize = 4294836225;

/// Longest encoded message that is sure to be encoded for a dynamic channel.
pub const MAX_ENCODABLE: usize = 4293918720;

impl GfxCommand {
    /// The encoded message is at most `limit` bytes long.
    pub open spec fn within(self, limit: usize) -> bool {
        match self {
            GfxCommand::Avc420 { h264, .. } => h264.len() + PICTURE_OVERHEAD <= limit,
            GfxCommand::Other => false,
            _ => true,
        }
    }
}

/// Each of the encoded messages is at most `limit` bytes long.
pub open spec fn all_within(output: Seq<GfxCommand>, limit: usize) -> bool {
    forall|i: int| 0 <= i < output.len() ==> (#[trigger] output[i]).within(limit)
}

/// What a graphics pipeline server holds.
pub struct GfxState {
    /// Capabilities are negotiated and the channel is open.
    pub ready: bool,
    /// A resize was cut short.
    pub resizing: bool,
    /// The client takes H.264 in AVC420 form.
    pub avc420: bool,
    pub surfaces: Map<u16, GfxSurface>,
    pub next_surface_id: u16,
    pub output_width: u16,
    pub output_height: u16,
    /// The client has been told the output size.
    pub reset_sent: bool,
    /// Frames that the client has not acknowledged.
    pub unacknowledged: Set<u32>,
    pub next_frame_id: u32,
    /// The client has switched acknowledgements off.
    pub ack_suspended: bool,
    pub max_in_flight: u32,
    /// Messages that wait to be sent.
    pub output: Seq<GfxCommand>,
    pub channel_id: Option<u32>,
}

/// What `region` covers, and how it is encoded.
pub uninterp spec fn region_of(region: Avc420Region) -> GfxRegion;

/// What `gfx` holds.
pub uninterp spec fn gfx_state(gfx: GraphicsPipelineServer) -> GfxState;

/// The region that a whole picture covers.
pub open spec fn full_frame(width: u16, height: u16, qp: u8) -> GfxRegion {
    GfxRegion {
        left: 0,
        top: 0,
        right: if width == 0 {
            0
        } else {
            (width - 1) as u16
        },
        bottom: if height == 0 {
            0
        } else {
            (height - 1) as u16
        },
        qp,
        quality: 100,
    }
}

impl GfxState {
    /// With `command` at the end of the output queue.
    pub open spec fn queued(self, command: GfxCommand) -> GfxState {
        GfxState { output: self.output.push(command), ..self }
    }

    /// With another output size.
    pub open spec fn with_output_dimensions(self, width: u16, height: u16) -> GfxState {
        GfxState { output_width: width, output_height: height, ..self }
    }

    /// With the output size announced, where it was not: the size that was set,
    /// or else `width` and `height`.
    pub open spec fn announced(self, width: u16, height: u16) -> GfxState {
        if self.reset_sent {
            self
        } else {
            let w = if self.output_width > 0 {
                self.output_width
            } else {
                width
            };
            let h = if self.output_height > 0 {
                self.output_height
            } else {
                height
            };
            GfxState { output_width: w, output_height: h, reset_sent: true, ..self }.queued(
                GfxCommand::ResetGraphics { desktop_width: w as u32, desktop_height: h as u32 },
            )
        }
    }

    /// With a surface of the given size under the next identifier.
    pub open spec fn with_surface(self, width: u16, height: u16) -> GfxState {
        let base = self.announced(width, height);
        let id = self.next_surface_id;
        GfxState {
            surfaces: self.surfaces.insert(id, GfxSurface { width, height, origin: None }),
            next_surface_id: if id == u16::MAX {
                0
            } else {
                (id + 1) as u16
            },
            ..base
        }.queued(GfxCommand::CreateSurface { surface_id: id, width, height })
    }

    /// Without the surface `id`, if there is one.
    pub open spec fn without_surface(self, id: u16) -> GfxState {
        if self.surfaces.contains_key(id) {
            GfxState { surfaces: self.surfaces.remove(id), ..self }.queued(
                GfxCommand::DeleteSurface { surface_id: id },
            )
        } else {
            self
        }
    }

    /// With the surface `id` mapped to the output, if there is one.
    pub open spec fn with_mapping(self, id: u16, origin_x: u32, origin_y: u32) -> GfxState {
        if self.surfaces.contains_key(id) {
            let surface = GfxSurface { origin: Some((origin_x, origin_y)), ..self.surfaces[id] };
            GfxState { surfaces: self.surfaces.insert(id, surface), ..self }.queued(
                GfxCommand::MapSurfaceToOutput { surface_id: id, origin_x, origin_y },
            )
        } else {
            self
        }
    }

    /// `after` is this state resized: every surface is deleted, in an order of
    /// the server's choice, the frames in flight are forgotten and the new size
    /// is announced.
    pub open spec fn resizes_to(self, width: u16, height: u16, after: GfxState) -> bool {
        if self.ready {
            exists|ids: Seq<u16>|
                {
                    &&& ids.no_duplicates()
                    &&& forall|id: u16| ids.contains(id) <==> self.surfaces.contains_key(id)
                    &&& after == GfxState {
                        surfaces: Map::empty(),
                        output_width: width,
                        output_height: height,
                        reset_sent: true,
                        unacknowledged: Set::empty(),
                        ack_suspended: false,
                        output: self.output + #[trigger] deletions(ids) + seq![
                            GfxCommand::ResetGraphics {
                                desktop_width: width as u32,
                                desktop_height: height as u32,
                            },
                        ],
                        ..self
                    }
                }
        } else {
            after == self
        }
    }

    /// Too many frames wait for an acknowledgement.
    pub open spec fn backpressure(self) -> bool {
        !self.ack_suspended && (self.unacknowledged.len() as u32) >= self.max_in_flight
    }

    /// A frame for the surface `id` is taken.
    pub open spec fn takes_frame(self, id: u16) -> bool {
        self.ready && self.avc420 && !self.backpressure() && self.surfaces.contains_key(id)
    }

    /// With a frame for the surface `id` on the queue.
    pub open spec fn with_frame(
        self,
        id: u16,
        region: GfxRegion,
        h264: Seq<u8>,
        timestamp_ms: u32,
    ) -> GfxState {
        let frame_id = self.next_frame_id;
        GfxState {
            unacknowledged: self.unacknowledged.insert(frame_id),
            next_frame_id: if frame_id == u32::MAX {
                0
            } else {
                (frame_id + 1) as u32
            },
            ..self
        }.queued(
            GfxCommand::StartFrame { frame_id, time_of_day: timestamp_ms as int % 86400000 },
        ).queued(GfxCommand::Avc420 { surface_id: id, region, h264 }).queued(
            GfxCommand::EndFrame { frame_id },
        )
    }

    /// With an empty output queue.
    pub open spec fn drained(self) -> GfxState {
        GfxState { output: Seq::empty(), ..self }
    }
}

/// The messages that delete the surfaces `ids`.
pub open spec fn deletions(ids: Seq<u16>) -> Seq<GfxCommand> {
    ids.map_values(|id: u16| GfxCommand::DeleteSurface { surface_id: id })
}

/// `GraphicsPipelineServer::is_ready` tells whether frames can be sent.
pub assume_specification[ GraphicsPipelineServer::is_ready ](gfx: &GraphicsPipelineServer) -> (r:
    bool)
    ensures
        r == gfx_state(*gfx).ready,
;

/// `GraphicsPipelineServer::supports_avc420` tells whether H.264 in AVC420 form
/// was negotiated.
pub assume_specification[ GraphicsPipelineServer::supports_avc420 ](
    gfx: &GraphicsPipelineServer,
) -> (r: bool)
    ensures
        r == gfx_state(*gfx).avc420,
;

/// `GraphicsPipelineServer::channel_id` gives the identifier of the channel,
/// once it has been started.
pub assume_specification[ GraphicsPipelineServer::channel_id ](gfx: &GraphicsPipelineServer) -> (r:
    Option<u32>)
    ensures
        r == gfx_state(*gfx).channel_id,
;

/// `GraphicsPipelineServer::has_pending_output` tells whether messages wait on
/// the output queue.
pub assume_specification[ GraphicsPipelineServer::has_pending_output ](
    gfx: &GraphicsPipelineServer,
) -> (r: bool)
    ensures
        r == (gfx_state(*gfx).output.len() > 0),
;

/// `GraphicsPipelineServer::set_output_dimensions` notes the output size.
pub assume_specification[ GraphicsPipelineServer::set_output_dimensions ](
    gfx: &mut GraphicsPipelineServer,
    width: u16,
    height: u16,
)
    ensures
        gfx_state(*final(gfx)) == gfx_state(*old(gfx)).with_output_dimensions(width, height),
;

/// `GraphicsPipelineServer::create_surface` creates a surface under the next
/// identifier and queues the messages for it. It asserts that the identifier is
/// free.
pub assume_specification[ GraphicsPipelineServer::create_surface ](
    gfx: &mut GraphicsPipelineServer,
    width: u16,
    height: u16,
) -> (r: Option<u16>)
    requires
        !gfx_state(*old(gfx)).surfaces.contains_key(gfx_state(*old(gfx)).next_surface_id),
    ensures
        if gfx_state(*old(gfx)).ready || gfx_state(*old(gfx)).resizing {
            &&& r == Some(gfx_state(*old(gfx)).next_surface_id)
            &&& gfx_state(*final(gfx)) == gfx_state(*old(gfx)).with_surface(width, height)
        } else {
            &&& r is None
            &&& gfx_state(*final(gfx)) == gfx_state(*old(gfx))
        },
;

/// `GraphicsPipelineServer::delete_surface` forgets a surface and queues the
/// message for it.
pub assume_specification[ GraphicsPipelineServer::delete_surface ](
    gfx: &mut GraphicsPipelineServer,
    surface_id: u16,
) -> (r: bool)
    ensures
        r == gfx_state(*old(gfx)).surfaces.contains_key(surface_id),
        gfx_state(*final(gfx)) == gfx_state(*old(gfx)).without_surface(surface_id),
;

/// `GraphicsPipelineServer::map_surface_to_output` maps a surface and queues the
/// message for it.
pub assume_specification[ GraphicsPipelineServer::map_surface_to_output ](
    gfx: &mut GraphicsPipelineServer,
    surface_id: u16,
    origin_x: u32,
    origin_y: u32,
) -> (r: bool)
    ensures
        r == gfx_state(*old(gfx)).surfaces.contains_key(surface_id),
        gfx_state(*final(gfx)) == gfx_state(*old(gfx)).with_mapping(
            surface_id,
            origin_x,
            origin_y,
        ),
;

/// `GraphicsPipelineServer::resize` deletes all surfaces and announces the new
/// size; it does nothing where the server is not ready.
pub assume_specification[ GraphicsPipelineServer::resize ](
    gfx: &mut GraphicsPipelineServer,
    width: u16,
    height: u16,
)
    ensures
        gfx_state(*old(gfx)).resizes_to(width, height, gfx_state(*final(gfx))),
;

/// `GraphicsPipelineServer::surface_ids` gives the identifiers of all surfaces,
/// in an order of the server's choice.
#[verifier::external_body]
pub(crate) fn surface_ids(gfx: &GraphicsPipelineServer) -> (ids: Vec<u16>)
    ensures
        ids@.no_duplicates(),
        forall|id: u16|
            #[trigger] ids@.contains(id) <==> gfx_state(*gfx).surfaces.contains_key(id),
{
    gfx.surface_ids().collect()
}

/// `Avc420Region::full_frame` gives the region that covers the whole of a
/// picture.
pub assume_specification[ Avc420Region::full_frame ](width: u16, height: u16, qp: u8) -> (region:
    Avc420Region)
    ensures
        region_of(region) == full_frame(width, height, qp),
;

/// `GraphicsPipelineServer::send_avc420_frame` queues the three messages of a
/// frame, the H.264 data unchanged, and returns the frame's identifier; it
/// returns `None` and queues nothing where the server is not ready, H.264 was
/// not negotiated, too many frames are in flight or the surface is not there.
/// The contract is for pictures with one region. The quantization parameter has
/// six bits on the wire, and the encoder panics on a larger one.
pub assume_specification[ GraphicsPipelineServer::send_avc420_frame ](
    gfx: &mut GraphicsPipelineServer,
    surface_id: u16,
    h264_data: &[u8],
    regions: &[Avc420Region],
    timestamp_ms: u32,
) -> (r: Option<u32>)
    requires
        regions@.len() == 1,
        region_of(regions@[0]).qp < 64,
    ensures
        if gfx_state(*old(gfx)).takes_frame(surface_id) {
            &&& r == Some(gfx_state(*old(gfx)).next_frame_id)
            &&& gfx_state(*final(gfx)) == gfx_state(*old(gfx)).with_frame(
                surface_id,
                region_of(regions@[0]),
                h264_data@,
                timestamp_ms,
            )
        } else {
            &&& r is None
            &&& gfx_state(*final(gfx)) == gfx_state(*old(gfx))
        },
;

/// Messages taken from the output queue, ready for a dynamic channel.
#[verifier::external_body]
pub struct DvcBatch {
    messages: Vec<ironrdp_dvc::DvcMessage>,
}

/// The messages that a batch holds.
pub uninterp spec fn batch_commands(batch: DvcBatch) -> Seq<GfxCommand>;

/// `GraphicsPipelineServer::drain_output` takes all messages from the output
/// queue, in order. It panics on a message that is too long to be wrapped.
#[verifier::external_body]
pub(crate) fn drain_output(gfx: &mut GraphicsPipelineServer) -> (batch: DvcBatch)
    requires
        all_within(gfx_state(*old(gfx)).output, MAX_WRAPPED),
    ensures
        batch_commands(batch) == gfx_state(*old(gfx)).output,
        gfx_state(*final(gfx)) == gfx_state(*old(gfx)).drained(),
{
    DvcBatch { messages: gfx.drain_output() }
}

/// What `encode_dvc_messages` makes of a batch for a channel: the messages for
/// the static channel that carries it, or the error with which it fails.
pub uninterp spec fn dvc_encoding(channel_id: u32, batch: DvcBatch, flags: u32) -> Result<
    Seq<SvcMessage>,
    ironrdp_core::EncodeError,
>;

/// `ironrdp_dvc::encode_dvc_messages` splits each message of a batch into one or
/// more messages of the carrying channel, and adds `flags` to each. It fails on
/// a message whose length does not fit in 32 bits.
#[verifier::external_body]
pub(crate) fn encode_dvc_messages(channel_id: u32, batch: DvcBatch, flags: u32) -> (r: Result<
    Vec<SvcMessage>,
    ironrdp_core::EncodeError,
>)
    ensures
        match r {
            Ok(messages) => {
                &&& dvc_encoding(channel_id, batch, flags) == Ok::<
                    Seq<SvcMessage>,
                    ironrdp_core::EncodeError,
                >(messages@)
                &&& messages@.len() >= batch_commands(batch).len()
            },
            Err(error) => {
                &&& dvc_encoding(channel_id, batch, flags) == Err::<
                    Seq<SvcMessage>,
                    ironrdp_core::EncodeError,
                >(error)
                &&& !all_within(batch_commands(batch), MAX_ENCODABLE)
            },
        },
{
    let flags = ironrdp_svc::ChannelFlags::from_bits_retain(flags);
    ironrdp_dvc::encode_dvc_messages(channel_id, batch.messages, flags)
}

} // verus!
