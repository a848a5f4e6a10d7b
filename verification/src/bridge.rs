//! The daemon's end of the local bridge: what it sends to the appliance and
//! what it makes of the messages that come back.

use vstd::prelude::*;

use crate::protocol::{
    push_u16_le, BridgeMessage, MessageView, MSG_ABS_MOUSE, MSG_DESKTOP_REQUEST, MSG_ERROR,
    MSG_HELLO, MSG_HELLO_ACK, MSG_KEYBOARD_STATE, MSG_REL_MOUSE, MSG_VIDEO_FRAME, MSG_VIDEO_START,
    MSG_VIDEO_STATE, MSG_VIDEO_STOP, MSG_WHEEL, PROTOCOL_VERSION,
};
use crate::video::{
    parse_frame, parse_report, DesktopSize, FrameView, VideoFrame, VideoState, CODEC_H264,
    FRAME_HEADER_LEN, VIDEO_STATE_LEN,
};

verus! {

/// The greeting that opens a connection.
pub open spec fn hello_message() -> MessageView {
    MessageView { typ: MSG_HELLO, payload: crate::protocol::u16_le(PROTOCOL_VERSION) }
}

/// Asks for H.264 video.
pub open spec fn start_message() -> MessageView {
    MessageView { typ: MSG_VIDEO_START, payload: seq![CODEC_H264] }
}

/// Asks for the end of video.
pub open spec fn stop_message() -> MessageView {
    MessageView { typ: MSG_VIDEO_STOP, payload: Seq::empty() }
}

/// Reports the modifiers and the keys that are held down.
pub open spec fn keyboard_message(modifiers: u8, keys: Seq<u8>) -> MessageView {
    MessageView { typ: MSG_KEYBOARD_STATE, payload: seq![modifiers] + keys }
}

/// Reports the position of the pointer and the buttons that are held down.
pub open spec fn abs_mouse_message(x: u16, y: u16, buttons: u8) -> MessageView {
    MessageView {
        typ: MSG_ABS_MOUSE,
        payload: crate::protocol::u16_le(x) + crate::protocol::u16_le(y) + seq![buttons],
    }
}

/// Reports a movement of the pointer and the buttons that are held down.
pub open spec fn rel_mouse_message(dx: i8, dy: i8, buttons: u8) -> MessageView {
    MessageView { typ: MSG_REL_MOUSE, payload: seq![dx as u8, dy as u8, buttons] }
}

/// Reports a turn of the wheels.
pub open spec fn wheel_message(vertical: i8, horizontal: i8) -> MessageView {
    MessageView { typ: MSG_WHEEL, payload: seq![vertical as u8, horizontal as u8] }
}

/// Passes on the desktop size that a client asks for.
pub open spec fn desktop_message(size: DesktopSize) -> MessageView {
    MessageView {
        typ: MSG_DESKTOP_REQUEST,
        payload: crate::protocol::u16_le(size.width) + crate::protocol::u16_le(size.height),
    }
}

/// A signed byte travels in two's complement.
pub proof fn law_signed_bytes_are_twos_complement(x: i8)
    ensures
        (x as u8) == (if x < 0 {
            x + 256
        } else {
            x as int
        }),
        (x as u8) as i8 == x,
{
    assert(x < 0 ==> (x as u8) == x + 256) by (bit_vector);
    assert(x >= 0 ==> (x as u8) == x) by (bit_vector);
    assert((x as u8) as i8 == x) by (bit_vector);
}

/// Why a connection to the appliance is given up.
#[derive(Clone, Copy, PartialEq, Eq, Structural, Debug)]
pub enum BridgeError {
    /// The appliance does not acknowledge the protocol version.
    ProtocolMismatch,
    /// A `VIDEO_STATE` payload has this wrong length.
    InvalidVideoState(usize),
}

/// What a message from the appliance calls for.
pub enum BridgeEvent {
    /// The appliance speaks the same protocol version.
    HandshakeComplete,
    /// The video state has been updated.
    VideoStateChanged,
    /// A frame is to be submitted.
    Frame(VideoFrame),
    /// A `VIDEO_FRAME` payload is too short to hold a frame.
    ShortFrame,
    /// The appliance reports an error, as UTF-8 text.
    PeerError(Vec<u8>),
    /// The message is of no concern.
    Ignored,
}

/// The mathematical content of a [`BridgeEvent`].
pub enum EventView {
    HandshakeComplete,
    VideoStateChanged,
    Frame(FrameView),
    ShortFrame,
    PeerError(Seq<u8>),
    Ignored,
}

impl View for BridgeEvent {
    type V = EventView;

    open spec fn view(&self) -> EventView {
        match *self {
            BridgeEvent::HandshakeComplete => EventView::HandshakeComplete,
            BridgeEvent::VideoStateChanged => EventView::VideoStateChanged,
            BridgeEvent::Frame(frame) => EventView::Frame(frame@),
            BridgeEvent::ShortFrame => EventView::ShortFrame,
            BridgeEvent::PeerError(text) => EventView::PeerError(text@),
            BridgeEvent::Ignored => EventView::Ignored,
        }
    }
}

/// The payload acknowledges the protocol version.
pub open spec fn acknowledges(payload: Seq<u8>) -> bool {
    payload == crate::protocol::u16_le(PROTOCOL_VERSION)
}

/// Tells whether a `HELLO_ACK` payload acknowledges the protocol version.
pub fn is_acknowledged(payload: &[u8]) -> (r: bool)
    ensures
        r == acknowledges(payload@),
{
    if payload.len() != 2 {
        return false;
    }
    let version: u16 = crate::protocol::get_u16_le(payload, 0);
    proof {
        if acknowledges(payload@) {
            assert(payload@.subrange(0, 2) == payload@);
            crate::protocol::lemma_u16_le_at(payload@, 0, PROTOCOL_VERSION);
        }
        if version == PROTOCOL_VERSION {
            assert(payload@ =~= crate::protocol::u16_le(PROTOCOL_VERSION));
        }
    }
    version == PROTOCOL_VERSION
}

/// What a message from the appliance calls for, or why it ends the connection.
pub open spec fn event_of(typ: u8, payload: Seq<u8>) -> Result<EventView, BridgeError> {
    if typ == MSG_HELLO_ACK {
        if acknowledges(payload) {
            Ok(EventView::HandshakeComplete)
        } else {
            Err(BridgeError::ProtocolMismatch)
        }
    } else if typ == MSG_VIDEO_STATE {
        if payload.len() == VIDEO_STATE_LEN {
            Ok(EventView::VideoStateChanged)
        } else {
            Err(BridgeError::InvalidVideoState(payload.len() as usize))
        }
    } else if typ == MSG_VIDEO_FRAME {
        if payload.len() >= FRAME_HEADER_LEN {
            Ok(EventView::Frame(crate::video::frame_in(payload)))
        } else {
            Ok(EventView::ShortFrame)
        }
    } else if typ == MSG_ERROR {
        Ok(EventView::PeerError(payload))
    } else {
        Ok(EventView::Ignored)
    }
}

/// The video state after a message from the appliance.
pub open spec fn video_after(video: VideoState, typ: u8, payload: Seq<u8>) -> VideoState {
    if typ == MSG_VIDEO_STATE && payload.len() == VIDEO_STATE_LEN {
        video.reported(crate::video::report_at_start(payload))
    } else {
        video
    }
}

/// The link to the appliance: whether there is a connection, the messages that
/// wait to be written to it, and the last known video state.
pub struct BridgeLink {
    connected: bool,
    outbox: Vec<BridgeMessage>,
    video: VideoState,
}

/// The mathematical content of a [`BridgeLink`].
pub struct LinkView {
    pub connected: bool,
    pub outbox: Seq<MessageView>,
    pub video: VideoState,
}

/// The contents of messages.
pub open spec fn messages_view(messages: Seq<BridgeMessage>) -> Seq<MessageView> {
    messages.map_values(|message: BridgeMessage| message@)
}

impl LinkView {
    /// With `message` at the end of the outbox, or unchanged where there is no
    /// connection to send it over.
    pub open spec fn sent(self, message: MessageView) -> LinkView {
        if self.connected {
            LinkView { outbox: self.outbox.push(message), ..self }
        } else {
            self
        }
    }
}

impl View for BridgeLink {
    type V = LinkView;

    closed spec fn view(&self) -> LinkView {
        LinkView {
            connected: self.connected,
            outbox: messages_view(self.outbox@),
            video: self.video,
        }
    }
}

impl BridgeLink {
    /// A link without a connection.
    pub fn new() -> (link: BridgeLink)
        ensures
            link@ == (LinkView {
                connected: false,
                outbox: Seq::empty(),
                video: VideoState::initial(),
            }),
    {
        let link = BridgeLink {
            connected: false,
            outbox: Vec::new(),
            video: VideoState::default(),
        };
        assert(link@.outbox =~= Seq::empty());
        link
    }

    /// Starts over with a fresh connection, greeting the appliance.
    pub fn open(&mut self)
        ensures
            final(self)@ == (LinkView {
                connected: true,
                outbox: seq![hello_message()],
                video: old(self)@.video,
            }),
    {
        self.connected = true;
        self.outbox = Vec::new();
        let mut payload: Vec<u8> = Vec::with_capacity(2);
        push_u16_le(&mut payload, PROTOCOL_VERSION);
        assert(payload@ =~= crate::protocol::u16_le(PROTOCOL_VERSION));
        self.send(MSG_HELLO, payload);
        assert(self@.outbox =~= seq![hello_message()]);
    }

    /// Notes that the connection is gone, with all that waited to be sent.
    pub fn close(&mut self)
        ensures
            final(self)@ == (LinkView {
                connected: false,
                outbox: Seq::empty(),
                video: old(self)@.video,
            }),
    {
        self.connected = false;
        self.outbox = Vec::new();
        assert(self@.outbox =~= Seq::empty());
    }

    /// Takes the messages that wait to be written, in order.
    pub fn take_outbox(&mut self) -> (messages: Vec<BridgeMessage>)
        ensures
            messages_view(messages@) == old(self)@.outbox,
            final(self)@ == (LinkView { outbox: Seq::empty(), ..old(self)@ }),
    {
        let mut messages: Vec<BridgeMessage> = Vec::new();
        std::mem::swap(&mut messages, &mut self.outbox);
        assert(self@.outbox =~= Seq::empty());
        messages
    }

    /// The last known video state.
    pub fn video(&self) -> (video: VideoState)
        ensures
            video == self@.video,
    {
        self.video
    }

    /// The desktop size that is offered to a client.
    pub fn desktop_size(&self) -> (size: DesktopSize)
        ensures
            size == self@.video.desktop(),
    {
        self.video.desktop_size()
    }

    /// Sends a message, if there is a connection.
    pub fn send(&mut self, typ: u8, payload: Vec<u8>)
        ensures
            final(self)@ == old(self)@.sent((MessageView { typ, payload: payload@ })),
    {
        if self.connected {
            let ghost before = self.outbox@;
            self.outbox.push(BridgeMessage { typ, payload });
            assert(messages_view(self.outbox@) =~= messages_view(before).push(
                MessageView { typ, payload: payload@ },
            ));
        }
    }

    /// Asks the appliance for H.264 video.
    pub fn start_video(&mut self)
        ensures
            final(self)@ == old(self)@.sent(start_message()),
    {
        let payload: Vec<u8> = vec![CODEC_H264];
        assert(payload@ =~= start_message().payload);
        self.send(MSG_VIDEO_START, payload);
    }

    /// Asks for the end of video, and releases all keys on the target.
    pub fn stop_video(&mut self)
        ensures
            final(self)@ == old(self)@.sent(stop_message()).sent(
                keyboard_message(0, seq![0u8, 0u8, 0u8, 0u8, 0u8, 0u8]),
            ),
    {
        let payload: Vec<u8> = Vec::new();
        assert(payload@ =~= stop_message().payload);
        self.send(MSG_VIDEO_STOP, payload);
        let keys: [u8; 6] = [0u8; 6];
        assert(keys@ =~= seq![0u8, 0u8, 0u8, 0u8, 0u8, 0u8]);
        self.keyboard_state(0, keys);
    }

    /// Reports the modifiers and the keys that are held down.
    pub fn keyboard_state(&mut self, modifiers: u8, keys: [u8; 6])
        ensures
            final(self)@ == old(self)@.sent(keyboard_message(modifiers, keys@)),
    {
        let mut payload: Vec<u8> = Vec::with_capacity(7);
        payload.push(modifiers);
        payload.extend_from_slice(&keys);
        assert(payload@ =~= keyboard_message(modifiers, keys@).payload);
        self.send(MSG_KEYBOARD_STATE, payload);
    }

    /// Reports the position of the pointer and the buttons that are held down.
    pub fn abs_mouse(&mut self, x: u16, y: u16, buttons: u8)
        ensures
            final(self)@ == old(self)@.sent(abs_mouse_message(x, y, buttons)),
    {
        let mut payload: Vec<u8> = Vec::with_capacity(5);
        push_u16_le(&mut payload, x);
        push_u16_le(&mut payload, y);
        payload.push(buttons);
        assert(payload@ =~= abs_mouse_message(x, y, buttons).payload);
        self.send(MSG_ABS_MOUSE, payload);
    }

    /// Reports a movement of the pointer and the buttons that are held down.
    pub fn rel_mouse(&mut self, dx: i8, dy: i8, buttons: u8)
        ensures
            final(self)@ == old(self)@.sent(rel_mouse_message(dx, dy, buttons)),
    {
        let payload: Vec<u8> = vec![dx as u8, dy as u8, buttons];
        assert(payload@ =~= rel_mouse_message(dx, dy, buttons).payload);
        self.send(MSG_REL_MOUSE, payload);
    }

    /// Reports a turn of the wheels.
    pub fn wheel(&mut self, vertical: i8, horizontal: i8)
        ensures
            final(self)@ == old(self)@.sent(wheel_message(vertical, horizontal)),
    {
        let payload: Vec<u8> = vec![vertical as u8, horizontal as u8];
        assert(payload@ =~= wheel_message(vertical, horizontal).payload);
        self.send(MSG_WHEEL, payload);
    }

    /// Passes on the desktop size that a client asks for.
    pub fn request_desktop(&mut self, size: DesktopSize)
        ensures
            final(self)@ == old(self)@.sent(desktop_message(size)),
    {
        let mut payload: Vec<u8> = Vec::with_capacity(4);
        push_u16_le(&mut payload, size.width);
        push_u16_le(&mut payload, size.height);
        assert(payload@ =~= desktop_message(size).payload);
        self.send(MSG_DESKTOP_REQUEST, payload);
    }

    /// Takes in a message from the appliance: notes a new video state, and says
    /// what else is to be done.
    pub fn handle_message(&mut self, typ: u8, payload: Vec<u8>) -> (r: Result<
        BridgeEvent,
        BridgeError,
    >)
        ensures
            final(self)@ == (LinkView {
                video: video_after(old(self)@.video, typ, payload@),
                ..old(self)@
            }),
            match r {
                Ok(event) => event_of(typ, payload@) == Ok::<EventView, BridgeError>(event@),
                Err(error) => event_of(typ, payload@) == Err::<EventView, BridgeError>(error),
            },
    {
        if typ == MSG_HELLO_ACK {
            if !is_acknowledged(payload.as_slice()) {
                return Err(BridgeError::ProtocolMismatch);
            }
            Ok(BridgeEvent::HandshakeComplete)
        } else if typ == MSG_VIDEO_STATE {
            if payload.len() != VIDEO_STATE_LEN {
                return Err(BridgeError::InvalidVideoState(payload.len()));
            }
            self.video.update(parse_report(payload.as_slice()));
            Ok(BridgeEvent::VideoStateChanged)
        } else if typ == MSG_VIDEO_FRAME {
            match parse_frame(payload.as_slice()) {
                Some(frame) => Ok(BridgeEvent::Frame(frame)),
                None => Ok(BridgeEvent::ShortFrame),
            }
        } else if typ == MSG_ERROR {
            Ok(BridgeEvent::PeerError(payload))
        } else {
            Ok(BridgeEvent::Ignored)
        }
    }
}

/// Without a connection nothing is sent, whatever is asked for, and over a
/// connection messages go out in the order in which they were sent.
pub proof fn law_messages_need_a_connection_and_keep_their_order(
    link: LinkView,
    first: MessageView,
    second: MessageView,
)
    ensures
        !link.connected ==> link.sent(first).sent(second) == link,
        link.connected ==> link.sent(first).sent(second).outbox == link.outbox + seq![
            first,
            second,
        ],
{
    if link.connected {
        assert(link.sent(first).sent(second).outbox =~= link.outbox + seq![first, second]);
    }
}

/// Every message that the daemon sends is short enough for the protocol, so that
/// framing it never fails.
pub proof fn law_own_messages_are_never_refused(
    modifiers: u8,
    keys: Seq<u8>,
    x: u16,
    y: u16,
    dx: i8,
    dy: i8,
    buttons: u8,
    size: DesktopSize,
)
    requires
        keys.len() == 6,
    ensures
        hello_message().payload.len() <= crate::protocol::MAX_MESSAGE,
        start_message().payload.len() <= crate::protocol::MAX_MESSAGE,
        stop_message().payload.len() <= crate::protocol::MAX_MESSAGE,
        keyboard_message(modifiers, keys).payload.len() <= crate::protocol::MAX_MESSAGE,
        abs_mouse_message(x, y, buttons).payload.len() <= crate::protocol::MAX_MESSAGE,
        rel_mouse_message(dx, dy, buttons).payload.len() <= crate::protocol::MAX_MESSAGE,
        wheel_message(dx, dy).payload.len() <= crate::protocol::MAX_MESSAGE,
        desktop_message(size).payload.len() <= crate::protocol::MAX_MESSAGE,
{
}

/// The handshake completes exactly where the appliance names the daemon's own
/// protocol version.
pub proof fn law_handshake_needs_the_same_version(version: u16)
    ensures
        event_of(MSG_HELLO_ACK, crate::protocol::u16_le(version)) == (if version
            == PROTOCOL_VERSION {
            Ok::<EventView, BridgeError>(EventView::HandshakeComplete)
        } else {
            Err::<EventView, BridgeError>(BridgeError::ProtocolMismatch)
        }),
{
    let payload = crate::protocol::u16_le(version);
    if acknowledges(payload) {
        assert(payload.subrange(0, 2) == payload);
        crate::protocol::lemma_u16_le_at(payload, 0, version);
        crate::protocol::lemma_u16_le_at(payload, 0, PROTOCOL_VERSION);
    }
}

/// A video report that the appliance sends is taken over into the video state.
pub proof fn law_report_is_taken_over(
    video: VideoState,
    report: crate::video::VideoReport,
    sessions: u32,
)
    ensures
        event_of(MSG_VIDEO_STATE, crate::video::report_bytes(report, sessions)) == Ok::<
            EventView,
            BridgeError,
        >(EventView::VideoStateChanged),
        video_after(video, MSG_VIDEO_STATE, crate::video::report_bytes(report, sessions))
            == video.reported(report),
{
    crate::video::law_report_round_trip(report, sessions);
}

/// A frame that the appliance sends is passed on as it was sent.
pub proof fn law_frame_is_passed_on(frame: FrameView)
    ensures
        event_of(MSG_VIDEO_FRAME, crate::video::frame_bytes(frame)) == Ok::<
            EventView,
            BridgeError,
        >(EventView::Frame(frame)),
{
    crate::video::law_frame_round_trip(frame);
}

/// Once the size of the video is known, no message makes it unknown again, and
/// none but a video report changes the video state at all.
pub proof fn law_video_size_stays_known(video: VideoState, typ: u8, payload: Seq<u8>)
    requires
        video.width > 0,
        video.height > 0,
    ensures
        video_after(video, typ, payload).width > 0,
        video_after(video, typ, payload).height > 0,
        typ != MSG_VIDEO_STATE ==> video_after(video, typ, payload) == video,
{
}

/// Each message that the daemon sends has its own type and its fields in their
/// places, numbers with the low byte first and signed bytes in two's complement.
pub proof fn law_messages_have_their_bytes(
    modifiers: u8,
    keys: Seq<u8>,
    x: u16,
    y: u16,
    dx: i8,
    dy: i8,
    buttons: u8,
    size: DesktopSize,
)
    ensures
        hello_message().typ == 0x01 && hello_message().payload == seq![1u8, 0u8],
        start_message().typ == 0x03 && start_message().payload == seq![0u8],
        stop_message().typ == 0x04 && stop_message().payload.len() == 0,
        ({
            let message = keyboard_message(modifiers, keys);
            &&& message.typ == 0x10
            &&& message.payload.len() == 1 + keys.len()
            &&& message.payload[0] == modifiers
            &&& forall|i: int|
                0 <= i < keys.len() ==> #[trigger] message.payload[1 + i] == keys[i]
        }),
        ({
            let message = abs_mouse_message(x, y, buttons);
            &&& message.typ == 0x11
            &&& message.payload.len() == 5
            &&& message.payload[0] + 0x100 * message.payload[1] == x
            &&& message.payload[2] + 0x100 * message.payload[3] == y
            &&& message.payload[4] == buttons
        }),
        ({
            let message = rel_mouse_message(dx, dy, buttons);
            &&& message.typ == 0x12
            &&& message.payload.len() == 3
            &&& message.payload[0] == dx as int || message.payload[0] == dx + 0x100
            &&& message.payload[1] == dy as int || message.payload[1] == dy + 0x100
            &&& message.payload[2] == buttons
        }),
        ({
            let message = wheel_message(dx, dy);
            &&& message.typ == 0x13
            &&& message.payload.len() == 2
            &&& message.payload[0] == dx as int || message.payload[0] == dx + 0x100
            &&& message.payload[1] == dy as int || message.payload[1] == dy + 0x100
        }),
        ({
            let message = desktop_message(size);
            &&& message.typ == 0x14
            &&& message.payload.len() == 4
            &&& message.payload[0] + 0x100 * message.payload[1] == size.width
            &&& message.payload[2] + 0x100 * message.payload[3] == size.height
        }),
{
    crate::protocol::law_numbers_are_written_low_byte_first(PROTOCOL_VERSION, 0);
    crate::protocol::law_numbers_are_written_low_byte_first(x, 0);
    crate::protocol::law_numbers_are_written_low_byte_first(y, 0);
    crate::protocol::law_numbers_are_written_low_byte_first(size.width, 0);
    crate::protocol::law_numbers_are_written_low_byte_first(size.height, 0);
    law_signed_bytes_are_twos_complement(dx);
    law_signed_bytes_are_twos_complement(dy);
    assert(hello_message().payload =~= seq![1u8, 0u8]);
}

/// Over a connection every message goes out, behind those that were sent before
/// it and unchanged; without one nothing does. Sending changes nothing else.
pub proof fn law_every_message_goes_out(link: LinkView, message: MessageView)
    ensures
        link.sent(message).connected == link.connected,
        link.sent(message).video == link.video,
        link.connected ==> {
            &&& link.sent(message).outbox.len() == link.outbox.len() + 1
            &&& link.sent(message).outbox.last() == message
            &&& forall|i: int|
                0 <= i < link.outbox.len() ==> #[trigger] link.sent(message).outbox[i]
                    == link.outbox[i]
        },
        !link.connected ==> link.sent(message).outbox == link.outbox,
{
}

/// What is taken from the outbox are the messages themselves, all of them and in
/// order.
pub proof fn law_views_tell_the_messages(messages: Seq<BridgeMessage>)
    ensures
        messages_view(messages).len() == messages.len(),
        forall|i: int|
            #![trigger messages[i]]
            0 <= i < messages.len() ==> {
                &&& messages_view(messages)[i].typ == messages[i].typ
                &&& messages_view(messages)[i].payload == messages[i].payload@
            },
{
}

/// The view of an event is the event.
pub proof fn law_view_tells_the_event(event: BridgeEvent)
    ensures
        event is HandshakeComplete <==> event@ is HandshakeComplete,
        event is VideoStateChanged <==> event@ is VideoStateChanged,
        event is Frame <==> event@ is Frame,
        event is Frame ==> event@->Frame_0 == event->Frame_0@,
        event is ShortFrame <==> event@ is ShortFrame,
        event is PeerError <==> event@ is PeerError,
        event is PeerError ==> event@->PeerError_0 == event->PeerError_0@,
        event is Ignored <==> event@ is Ignored,
{
}

/// What the messages of the appliance call for, whatever they carry: an
/// acknowledgement counts only with version 1 in two bytes, a video report only
/// with 13 bytes, and a frame only with the 9 bytes that stand before its data;
/// an error is passed on as it is, and all else is ignored.
pub proof fn law_messages_call_for_what_they_carry(typ: u8, payload: Seq<u8>)
    ensures
        typ == 0x02 ==> event_of(typ, payload) == (if payload.len() == 2 && payload[0] == 1
            && payload[1] == 0 {
            Ok::<EventView, BridgeError>(EventView::HandshakeComplete)
        } else {
            Err::<EventView, BridgeError>(BridgeError::ProtocolMismatch)
        }),
        typ == 0x05 ==> event_of(typ, payload) == (if payload.len() == 13 {
            Ok::<EventView, BridgeError>(EventView::VideoStateChanged)
        } else {
            Err::<EventView, BridgeError>(BridgeError::InvalidVideoState(payload.len() as usize))
        }),
        typ == 0x06 && payload.len() < 9 ==> event_of(typ, payload) == Ok::<
            EventView,
            BridgeError,
        >(EventView::ShortFrame),
        typ == 0x06 && payload.len() >= 9 ==> {
            &&& event_of(typ, payload) matches Ok(EventView::Frame(frame))
            &&& frame.duration_us == payload[0] + 0x100 * payload[1] + 0x1_0000 * payload[2]
                + 0x100_0000 * payload[3]
            &&& frame.width == payload[4] + 0x100 * payload[5]
            &&& frame.height == payload[6] + 0x100 * payload[7]
            &&& frame.codec == payload[8]
            &&& frame.data == payload.subrange(9, payload.len() as int)
        },
        typ == 0x07 ==> event_of(typ, payload) == Ok::<EventView, BridgeError>(
            EventView::PeerError(payload),
        ),
        typ != 0x02 && typ != 0x05 && typ != 0x06 && typ != 0x07 ==> event_of(typ, payload) == Ok::<
            EventView,
            BridgeError,
        >(EventView::Ignored),
{
    let version = crate::protocol::u16_le(PROTOCOL_VERSION);
    crate::protocol::law_numbers_are_written_low_byte_first(PROTOCOL_VERSION, 0);
    assert(version =~= seq![1u8, 0u8]);
    if payload.len() == 2 && payload[0] == 1 && payload[1] == 0 {
        assert(payload =~= version);
    }
    if payload.len() >= 9 {
        crate::video::law_frame_bytes_have_their_places(payload);
        assert(crate::video::frame_in(payload).data =~= payload.subrange(
            9,
            payload.len() as int,
        ));
    }
}

/// The video state follows the reports, and nothing else: a report of 13 bytes
/// decides readiness, frame rate and every extent that it knows, whatever the
/// state was before.
pub proof fn law_video_follows_the_reports(video: VideoState, typ: u8, payload: Seq<u8>)
    ensures
        typ == 0x05 && payload.len() == 13 ==> {
            let after = video_after(video, typ, payload);
            let width = payload[1] + 0x100 * payload[2];
            let height = payload[3] + 0x100 * payload[4];
            &&& after.ready <==> payload[0] != 0
            &&& after.fps_milli == payload[5] + 0x100 * payload[6] + 0x1_0000 * payload[7]
                + 0x100_0000 * payload[8]
            &&& after.width == if width > 0 {
                width
            } else {
                video.width as int
            }
            &&& after.height == if height > 0 {
                height
            } else {
                video.height as int
            }
            &&& width >= 200 ==> after.desktop().width == width
            &&& height >= 200 ==> after.desktop().height == height
        },
        typ != 0x05 || payload.len() != 13 ==> video_after(video, typ, payload) == video,
{
    if payload.len() == 13 {
        let report = crate::video::report_at_start(payload);
        crate::video::law_report_bytes_have_their_places(payload);
        crate::video::law_report_replaces_what_was_known(video, report);
        crate::video::law_desktop_fits_the_signal(
            video.reported(report),
            video.reported(report).width,
            video.reported(report).height,
        );
    }
}

} // verus!
