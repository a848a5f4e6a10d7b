//! The local bridge protocol: message types and the framing of messages.
//!
//! A message travels as a type byte, the payload length as a little-endian
//! 32-bit integer, and the payload.

use vstd::prelude::*;

verus! {

/// Version of the bridge protocol that both ends must speak.
pub const PROTOCOL_VERSION: u16 = 1;

/// Longest payload that either end may announce.
pub const MAX_MESSAGE: usize = 16777216;

/// Length of the type byte and the length field.
pub const HEADER_LEN: usize = 5;

pub const MSG_HELLO: u8 = 0x01;

pub const MSG_HELLO_ACK: u8 = 0x02;

pub const MSG_VIDEO_START: u8 = 0x03;

pub const MSG_VIDEO_STOP: u8 = 0x04;

pub const MSG_VIDEO_STATE: u8 = 0x05;

pub const MSG_VIDEO_FRAME: u8 = 0x06;

pub const MSG_ERROR: u8 = 0x07;

pub const MSG_KEYBOARD_STATE: u8 = 0x10;

pub const MSG_ABS_MOUSE: u8 = 0x11;

pub const MSG_REL_MOUSE: u8 = 0x12;

pub const MSG_WHEEL: u8 = 0x13;

pub const MSG_DESKTOP_REQUEST: u8 = 0x14;

/// The two bytes of `x`, least significant first.
pub open spec fn u16_le(x: u16) -> Seq<u8> {
    seq![(x % 256) as u8, (x / 256) as u8]
}

/// The four bytes of `x`, least significant first.
pub open spec fn u32_le(x: u32) -> Seq<u8> {
    seq![
        (x % 256) as u8,
        (x / 256 % 256) as u8,
        (x / 65536 % 256) as u8,
        (x / 16777216) as u8,
    ]
}

/// The 16-bit integer whose little-endian bytes start at `at`.
pub open spec fn u16_at(bytes: Seq<u8>, at: int) -> u16 {
    (bytes[at] + bytes[at + 1] * 256) as u16
}

/// The 32-bit integer whose little-endian bytes start at `at`.
pub open spec fn u32_at(bytes: Seq<u8>, at: int) -> u32 {
    (bytes[at] + bytes[at + 1] * 256 + bytes[at + 2] * 65536 + bytes[at + 3] * 16777216) as u32
}

/// Reading a 16-bit field gives back the integer whose bytes were written there.
pub proof fn lemma_u16_le_at(bytes: Seq<u8>, at: int, x: u16)
    requires
        0 <= at,
        at + 2 <= bytes.len(),
        bytes.subrange(at, at + 2) == u16_le(x),
    ensures
        u16_at(bytes, at) == x,
{
    assert(bytes.subrange(at, at + 2)[0] == bytes[at]);
    assert(bytes.subrange(at, at + 2)[1] == bytes[at + 1]);
}

/// Reading a 32-bit field gives back the integer whose bytes were written there.
pub proof fn lemma_u32_le_at(bytes: Seq<u8>, at: int, x: u32)
    requires
        0 <= at,
        at + 4 <= bytes.len(),
        bytes.subrange(at, at + 4) == u32_le(x),
    ensures
        u32_at(bytes, at) == x,
{
    let field = bytes.subrange(at, at + 4);
    assert(field[0] == bytes[at]);
    assert(field[1] == bytes[at + 1]);
    assert(field[2] == bytes[at + 2]);
    assert(field[3] == bytes[at + 3]);
}

/// Appends `x` in little-endian order.
pub fn push_u16_le(out: &mut Vec<u8>, x: u16)
    ensures
        final(out)@ == old(out)@ + u16_le(x),
{
    out.push((x % 256) as u8);
    out.push((x / 256) as u8);
}

/// Appends `x` in little-endian order.
pub fn push_u32_le(out: &mut Vec<u8>, x: u32)
    ensures
        final(out)@ == old(out)@ + u32_le(x),
{
    out.push((x % 256) as u8);
    out.push((x / 256 % 256) as u8);
    out.push((x / 65536 % 256) as u8);
    out.push((x / 16777216) as u8);
}

/// Reads the little-endian 16-bit integer at `at`.
pub fn get_u16_le(bytes: &[u8], at: usize) -> (x: u16)
    requires
        at + 2 <= bytes@.len(),
    ensures
        x == u16_at(bytes@, at as int),
{
    bytes[at] as u16 + bytes[at + 1] as u16 * 256
}

/// Reads the little-endian 32-bit integer at `at`.
pub fn get_u32_le(bytes: &[u8], at: usize) -> (x: u32)
    requires
        at + 4 <= bytes@.len(),
    ensures
        x == u32_at(bytes@, at as int),
{
    bytes[at] as u32 + bytes[at + 1] as u32 * 256 + bytes[at + 2] as u32 * 65536 + bytes[at
        + 3] as u32 * 16777216
}

/// Copies `bytes[from..to]` into a vector.
pub fn copy_range(bytes: &[u8], from: usize, to: usize) -> (out: Vec<u8>)
    requires
        from <= to <= bytes@.len(),
    ensures
        out@ == bytes@.subrange(from as int, to as int),
{
    let mut out: Vec<u8> = Vec::with_capacity(to - from);
    let mut i: usize = from;
    while i < to
        invariant
            from <= i <= to <= bytes@.len(),
            out@ == bytes@.subrange(from as int, i as int),
        decreases to - i,
    {
        out.push(bytes[i]);
        i = i + 1;
    }
    out
}

/// A message of the bridge protocol.
pub struct BridgeMessage {
    pub typ: u8,
    pub payload: Vec<u8>,
}

/// The mathematical content of a [`BridgeMessage`].
pub struct MessageView {
    pub typ: u8,
    pub payload: Seq<u8>,
}

impl View for BridgeMessage {
    type V = MessageView;

    open spec fn view(&self) -> MessageView {
        MessageView { typ: self.typ, payload: self.payload@ }
    }
}

/// The bytes by which a message travels.
pub open spec fn message_bytes(message: MessageView) -> Seq<u8> {
    seq![message.typ] + u32_le(message.payload.len() as u32) + message.payload
}

/// Why a message is refused.
#[derive(Clone, Copy, PartialEq, Eq, Structural, Debug)]
pub enum FrameError {
    /// The payload is this long, which is more than [`MAX_MESSAGE`].
    TooLarge(usize),
}

/// Frames a message for the wire.
pub fn write_message(typ: u8, payload: &[u8]) -> (r: Result<Vec<u8>, FrameError>)
    ensures
        match r {
            Ok(bytes) => payload@.len() <= MAX_MESSAGE && bytes@ == message_bytes(
                (MessageView { typ, payload: payload@ }),
            ),
            Err(error) => payload@.len() > MAX_MESSAGE && error == FrameError::TooLarge(
                payload@.len() as usize,
            ),
        },
{
    if payload.len() > MAX_MESSAGE {
        return Err(FrameError::TooLarge(payload.len()));
    }
    let mut bytes: Vec<u8> = Vec::with_capacity(HEADER_LEN + payload.len());
    bytes.push(typ);
    push_u32_le(&mut bytes, payload.len() as u32);
    bytes.extend_from_slice(payload);
    assert(bytes@ == message_bytes(MessageView { typ, payload: payload@ }));
    Ok(bytes)
}

/// What a reader does after the bytes it has taken from the stream so far.
pub enum ReadStep {
    /// Take this many more bytes from the stream.
    Need(usize),
    /// Give up: the announced payload is too large.
    Refused(FrameError),
    /// The message is complete.
    Message(BridgeMessage),
}

/// The next step of a reader that has taken `input` from the stream: first the
/// type byte, then the length field, then the announced payload.
pub open spec fn read_step(input: Seq<u8>) -> ReadStepView {
    if input.len() == 0 {
        ReadStepView::Need(1)
    } else if input.len() < HEADER_LEN {
        ReadStepView::Need(HEADER_LEN - input.len())
    } else {
        let length = u32_at(input, 1) as int;
        if length > MAX_MESSAGE {
            ReadStepView::Refused(FrameError::TooLarge(length as usize))
        } else if input.len() < HEADER_LEN + length {
            ReadStepView::Need(HEADER_LEN + length - input.len())
        } else {
            ReadStepView::Message(
                MessageView {
                    typ: input[0],
                    payload: input.subrange(HEADER_LEN as int, HEADER_LEN + length),
                },
            )
        }
    }
}

/// The mathematical content of a [`ReadStep`].
pub enum ReadStepView {
    Need(int),
    Refused(FrameError),
    Message(MessageView),
}

impl View for ReadStep {
    type V = ReadStepView;

    open spec fn view(&self) -> ReadStepView {
        match *self {
            ReadStep::Need(n) => ReadStepView::Need(n as int),
            ReadStep::Refused(error) => ReadStepView::Refused(error),
            ReadStep::Message(message) => ReadStepView::Message(message@),
        }
    }
}

/// Decides how to go on with a message of which `input` has been read.
pub fn read_message(input: &[u8]) -> (step: ReadStep)
    ensures
        step@ == read_step(input@),
{
    if input.len() == 0 {
        return ReadStep::Need(1);
    }
    if input.len() < HEADER_LEN {
        return ReadStep::Need(HEADER_LEN - input.len());
    }
    let length: usize = get_u32_le(input, 1) as usize;
    if length > MAX_MESSAGE {
        return ReadStep::Refused(FrameError::TooLarge(length));
    }
    if input.len() < HEADER_LEN + length {
        return ReadStep::Need(HEADER_LEN + length - input.len());
    }
    let payload = copy_range(input, HEADER_LEN, HEADER_LEN + length);
    ReadStep::Message(BridgeMessage { typ: input[0], payload })
}

/// A reader gets back the message that was framed, whatever follows it on the
/// stream.
pub proof fn law_read_gives_back_what_was_written(message: MessageView, rest: Seq<u8>)
    requires
        message.payload.len() <= MAX_MESSAGE,
    ensures
        read_step(message_bytes(message) + rest) == ReadStepView::Message(message),
{
    let bytes = message_bytes(message);
    let input = bytes + rest;
    assert(bytes.len() == HEADER_LEN + message.payload.len());
    assert(input.subrange(1, 5) == u32_le(message.payload.len() as u32));
    lemma_u32_le_at(input, 1, message.payload.len() as u32);
    assert(input.subrange(HEADER_LEN as int, HEADER_LEN + message.payload.len())
        == message.payload);
}

/// A reader that holds only part of a framed message asks for more bytes, and
/// never for bytes beyond the end of that message.
pub proof fn law_reader_stays_within_the_message(message: MessageView, taken: int)
    requires
        message.payload.len() <= MAX_MESSAGE,
        0 <= taken < message_bytes(message).len(),
    ensures
        match read_step(message_bytes(message).take(taken)) {
            ReadStepView::Need(n) => 1 <= n && taken + n <= message_bytes(message).len(),
            _ => false,
        },
{
    let bytes = message_bytes(message);
    let input = bytes.take(taken);
    if taken >= HEADER_LEN {
        assert(input.subrange(1, 5) == u32_le(message.payload.len() as u32));
        lemma_u32_le_at(input, 1, message.payload.len() as u32);
    }
}

/// A message that announces more than [`MAX_MESSAGE`] bytes is refused as soon
/// as its header is in, whatever else has been read.
pub proof fn law_oversized_announcement_is_refused(typ: u8, length: u32, rest: Seq<u8>)
    requires
        length > MAX_MESSAGE,
    ensures
        read_step(seq![typ] + u32_le(length) + rest) == ReadStepView::Refused(
            FrameError::TooLarge(length as usize),
        ),
{
    let input = seq![typ] + u32_le(length) + rest;
    assert(input.subrange(1, 5) == u32_le(length));
    lemma_u32_le_at(input, 1, length);
}

/// What a reader accepts is exactly what the framing of that message produces.
pub proof fn law_accepted_bytes_are_the_framing(input: Seq<u8>)
    ensures
        match read_step(input) {
            ReadStepView::Message(message) => {
                &&& message.payload.len() <= MAX_MESSAGE
                &&& message_bytes(message).len() <= input.len()
                &&& input.take(message_bytes(message).len() as int) == message_bytes(message)
            },
            _ => true,
        },
{
    if let ReadStepView::Message(message) = read_step(input) {
        let length = u32_at(input, 1);
        let bytes = message_bytes(message);
        assert(bytes.len() == HEADER_LEN + length);
        assert(message.payload.len() as u32 == length);
        assert(u32_le(length)[0] == input[1]);
        assert(u32_le(length)[1] == input[2]);
        assert(u32_le(length)[2] == input[3]);
        assert(u32_le(length)[3] == input[4]);
        assert forall|i: int| 0 <= i < bytes.len() implies input[i] == bytes[i] by {
            if i >= HEADER_LEN {
                assert(bytes[i] == message.payload[i - HEADER_LEN]);
            }
        }
        assert(input.take(bytes.len() as int) =~= bytes);
    }
}

/// Numbers are written with the low byte first, in as many bytes as they have.
pub proof fn law_numbers_are_written_low_byte_first(x: u16, y: u32)
    ensures
        u16_le(x).len() == 2,
        u16_le(x)[0] + 0x100 * u16_le(x)[1] == x,
        u32_le(y).len() == 4,
        u32_le(y)[0] + 0x100 * u32_le(y)[1] + 0x1_0000 * u32_le(y)[2] + 0x100_0000 * u32_le(y)[3]
            == y,
{
}

/// Numbers are read with the low byte first.
pub proof fn law_numbers_are_read_low_byte_first(bytes: Seq<u8>, at: int)
    ensures
        u16_at(bytes, at) == bytes[at] + 0x100 * bytes[at + 1],
        u32_at(bytes, at) == bytes[at] + 0x100 * bytes[at + 1] + 0x1_0000 * bytes[at + 2]
            + 0x100_0000 * bytes[at + 3],
{
}

/// A message travels as its type, the length of its payload in four bytes with
/// the low byte first, and its payload.
pub proof fn law_message_is_type_length_and_payload(message: MessageView)
    requires
        message.payload.len() <= 0x100_0000,
    ensures
        ({
            let bytes = message_bytes(message);
            &&& bytes.len() == 5 + message.payload.len()
            &&& bytes[0] == message.typ
            &&& bytes[1] + 0x100 * bytes[2] + 0x1_0000 * bytes[3] + 0x100_0000 * bytes[4]
                == message.payload.len()
            &&& forall|i: int|
                0 <= i < message.payload.len() ==> #[trigger] bytes[5 + i] == message.payload[i]
        }),
{
    law_numbers_are_written_low_byte_first(0, message.payload.len() as u32);
}

/// Whatever the bytes are, a reader goes by the length that they announce: it
/// refuses more than sixteen mebibytes, asks for exactly what is missing, and
/// takes no byte more or less than announced.
pub proof fn law_reader_goes_by_the_announced_length(input: Seq<u8>)
    ensures
        input.len() < 5 ==> {
            &&& read_step(input) is Need
            &&& 1 <= read_step(input)->Need_0 <= 5 - input.len()
        },
        input.len() >= 5 ==> {
            let announced = input[1] + 0x100 * input[2] + 0x1_0000 * input[3] + 0x100_0000
                * input[4];
            if announced > 0x100_0000 {
                read_step(input) == ReadStepView::Refused(
                    FrameError::TooLarge(announced as usize),
                )
            } else if input.len() < 5 + announced {
                read_step(input) == ReadStepView::Need(5 + announced - input.len())
            } else {
                &&& read_step(input) is Message
                &&& read_step(input)->Message_0.typ == input[0]
                &&& read_step(input)->Message_0.payload.len() == announced
                &&& forall|i: int|
                    0 <= i < announced ==> #[trigger] read_step(input)->Message_0.payload[i]
                        == input[5 + i]
            }
        },
{
}

/// The view of a message is its type and payload.
pub proof fn law_view_tells_the_message(message: BridgeMessage)
    ensures
        message@.typ == message.typ,
        message@.payload == message.payload@,
{
}

/// The view of a step is the step.
pub proof fn law_view_tells_the_step(step: ReadStep)
    ensures
        step matches ReadStep::Need(count) ==> step@ == ReadStepView::Need(count as int),
        step matches ReadStep::Refused(error) ==> step@ == ReadStepView::Refused(error),
        step matches ReadStep::Message(message) ==> step@ == ReadStepView::Message(message@),
{
}

} // verus!
