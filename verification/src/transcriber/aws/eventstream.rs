//! Event stream messages and frames, as `aws_smithy_eventstream` encodes them.
//!
//! A message is a list of headers and a payload. On the wire it is one frame: a prelude
//! (the frame's length, the headers' length and a checksum), the headers, the payload
//! and a checksum over everything before it.

use crate::text;
use aws_smithy_eventstream::error::Error;
use aws_smithy_eventstream::frame::{
    DecodedFrame, Header, HeaderValue, Message, MessageFrameDecoder,
};
use bytes::BytesMut;
use vstd::prelude::*;

verus! {

#[verifier::external_type_specification]
#[verifier::external_body]
pub struct ExMessage(aws_smithy_eventstream::frame::Message);

#[verifier::external_type_specification]
#[verifier::external_body]
pub struct ExMessageFrameDecoder(aws_smithy_eventstream::frame::MessageFrameDecoder);

#[verifier::external_type_specification]
#[verifier::external_body]
pub struct ExEventStreamError(aws_smithy_eventstream::error::Error);

#[verifier::external_type_specification]
#[verifier::external_body]
pub struct ExBytesMut(bytes::BytesMut);

/// What a header carries, one variant for each type of value the format has.
pub enum HeaderContent {
    Flag(bool),
    Byte(i8),
    Int16(i16),
    Int32(i32),
    Int64(i64),
    Bytes(Seq<u8>),
    Text(Seq<char>),
    Instant { secs: int, subsec_nanos: int },
    Uuid(u128),
}

impl HeaderContent {
    /// The text of a header that carries text.
    pub open spec fn text(self) -> Option<Seq<char>> {
        match self {
            HeaderContent::Text(text) => Some(text),
            _ => None,
        }
    }

    /// How many bytes the value takes up in a frame, its type byte included.
    pub open spec fn size(self) -> nat {
        match self {
            HeaderContent::Flag(_) => 1,
            HeaderContent::Byte(_) => 2,
            HeaderContent::Int16(_) => 3,
            HeaderContent::Int32(_) => 5,
            HeaderContent::Int64(_) => 9,
            HeaderContent::Bytes(bytes) => 3 + bytes.len(),
            HeaderContent::Text(text) => 3 + vstd::utf8::encode_utf8(text).len(),
            HeaderContent::Instant { .. } => 9,
            HeaderContent::Uuid(_) => 17,
        }
    }

    /// Whether the value fits the format: byte strings and texts have a two-byte length,
    /// and an instant is written as eight bytes of milliseconds.
    pub open spec fn fits(self) -> bool {
        match self {
            HeaderContent::Bytes(bytes) => bytes.len() <= u16::MAX,
            HeaderContent::Text(text) => vstd::utf8::encode_utf8(text).len() <= u16::MAX,
            HeaderContent::Instant { secs, subsec_nanos } => i64::MIN <= secs * 1000 + subsec_nanos
                / 1_000_000 <= i64::MAX,
            _ => true,
        }
    }

    /// Whether the value is written without loss. Only an instant can lose something,
    /// what it has beyond whole milliseconds.
    pub open spec fn is_exact(self) -> bool {
        self matches HeaderContent::Instant { subsec_nanos, .. } ==> subsec_nanos % 1_000_000 == 0
    }
}

/// How many bytes a list of headers takes up in a frame.
pub open spec fn headers_size(headers: Seq<(Seq<char>, HeaderContent)>) -> nat
    decreases headers.len(),
{
    if headers.len() == 0 {
        0
    } else {
        headers_size(headers.drop_last()) + 1 + vstd::utf8::encode_utf8(headers.last().0).len()
            + headers.last().1.size()
    }
}

/// How many bytes the frame of a message has: twelve of prelude, the headers, the
/// payload and four of checksum.
pub open spec fn frame_size(headers: Seq<(Seq<char>, HeaderContent)>, payload: Seq<u8>) -> nat {
    12 + headers_size(headers) + payload.len() + 4
}

/// Whether every header of the list can be written.
pub open spec fn headers_fit(headers: Seq<(Seq<char>, HeaderContent)>) -> bool {
    forall|i: int|
        0 <= i < headers.len() ==> {
            &&& vstd::utf8::encode_utf8((#[trigger] headers[i]).0).len() <= u8::MAX
            &&& headers[i].1.fits()
        }
}

/// Whether every header of the list is written without loss.
pub open spec fn headers_exact(headers: Seq<(Seq<char>, HeaderContent)>) -> bool {
    forall|i: int| 0 <= i < headers.len() ==> (#[trigger] headers[i]).1.is_exact()
}

/// Whether a message can be written as a frame: each header fits, and the frame's length
/// fits its four bytes.
pub open spec fn encodable(headers: Seq<(Seq<char>, HeaderContent)>, payload: Seq<u8>) -> bool {
    headers_fit(headers) && frame_size(headers, payload) <= u32::MAX
}

/// The headers that a message holds, in order, each with its name.
pub uninterp spec fn message_headers(message: Message) -> Seq<(Seq<char>, HeaderContent)>;

/// The payload that a message holds.
pub uninterp spec fn message_payload(message: Message) -> Seq<u8>;

/// The frame that `Message::write_to` writes for a message with these headers and this
/// payload.
pub uninterp spec fn wire_form(
    headers: Seq<(Seq<char>, HeaderContent)>,
    payload: Seq<u8>,
) -> Seq<u8>;

/// The headers and the payload that `Message::read_from` finds in the bytes of one
/// frame, or what its error displays where it rejects the frame.
pub uninterp spec fn read_message(bytes: Seq<u8>) -> Result<
    (Seq<(Seq<char>, HeaderContent)>, Seq<u8>),
    Seq<char>,
>;

/// Whether a message with the given headers and payload is read in the bytes of one frame.
pub open spec fn reads_as(
    bytes: Seq<u8>,
    headers: Seq<(Seq<char>, HeaderContent)>,
    payload: Seq<u8>,
) -> bool {
    read_message(bytes) is Ok && read_message(bytes)->Ok_0 == (headers, payload)
}

/// The bytes that a buffer holds, in the order in which they are read.
pub uninterp spec fn buffered(buffer: BytesMut) -> Seq<u8>;

/// The prelude that a decoder has taken out of its buffer and not yet used.
pub uninterp spec fn held_prelude(decoder: MessageFrameDecoder) -> Seq<u8>;

/// Makes a message without headers, by `Message::new`.
#[verifier::external_body]
pub(crate) fn new_message(payload: Vec<u8>) -> (message: Message)
    ensures
        message_headers(message) == Seq::<(Seq<char>, HeaderContent)>::empty(),
        message_payload(message) == payload@,
{
    Message::new(payload)
}

/// Adds a header that carries a text behind those that the message has, by
/// `Message::add_header`. The payload stays as it is.
#[verifier::external_body]
pub(crate) fn add_text_header(message: Message, name: &str, text: &str) -> (extended: Message)
    ensures
        message_headers(extended) == message_headers(message).push(
            (name@, HeaderContent::Text(text@)),
        ),
        message_payload(extended) == message_payload(message),
{
    let value = HeaderValue::String(text.to_owned().into());
    message.add_header(Header::new(name.to_owned(), value))
}

/// Writes a message as a frame, by `Message::write_to`.
///
/// The call succeeds exactly on a message that fits the format. The frame has the
/// length that its parts add up to, and `Message::read_from` gives the message back
/// where no header lost anything in writing.
#[verifier::external_body]
pub(crate) fn write_message(message: &Message) -> (frame: Result<Vec<u8>, Error>)
    ensures
        frame is Ok <==> encodable(message_headers(*message), message_payload(*message)),
        frame matches Ok(bytes) ==> {
            &&& bytes@ == wire_form(message_headers(*message), message_payload(*message))
            &&& bytes@.len() == frame_size(message_headers(*message), message_payload(*message))
        },
        frame matches Ok(bytes) ==> headers_exact(message_headers(*message)) ==> reads_as(
            bytes@,
            message_headers(*message),
            message_payload(*message),
        ),
{
    let mut bytes = Vec::new();
    message.write_to(&mut bytes)?;
    Ok(bytes)
}

/// A header as a reader of messages sees it: its name, and its text where it carries one.
#[derive(Debug)]
pub struct TextHeader {
    pub name: String,
    pub text: Option<String>,
}

impl TextHeader {
    /// Whether this is how a reader sees the given header.
    pub open spec fn shows(self, header: (Seq<char>, HeaderContent)) -> bool {
        &&& self.name@ == header.0
        &&& option_text(self.text) == header.1.text()
    }
}

/// The characters of an optional string.
pub open spec fn option_text(text: Option<String>) -> Option<Seq<char>> {
    match text {
        Some(text) => Some(text@),
        None => None,
    }
}

/// Lists the headers of a message, by `Message::headers`. A header's text is what
/// `HeaderValue::as_string` gives, and `None` where the header carries something else.
#[verifier::external_body]
pub(crate) fn list_headers(message: &Message) -> (headers: Vec<TextHeader>)
    ensures
        headers@.len() == message_headers(*message).len(),
        forall|i: int|
            0 <= i < headers@.len() ==> (#[trigger] headers@[i]).shows(message_headers(*message)[i]),
{
    let see = |header: &Header| TextHeader {
        name: header.name().as_str().to_owned(),
        text: header.value().as_string().ok().map(|text| text.as_str().to_owned()),
    };
    message.headers().iter().map(see).collect()
}

/// Copies the payload of a message, by `Message::payload`.
#[verifier::external_body]
pub(crate) fn copy_payload(message: &Message) -> (payload: Vec<u8>)
    ensures
        payload@ == message_payload(*message),
{
    message.payload().to_vec()
}

/// Makes an empty buffer, by `BytesMut::new`.
#[verifier::external_body]
pub(crate) fn new_buffer() -> (buffer: BytesMut)
    ensures
        buffered(buffer) == Seq::<u8>::empty(),
{
    BytesMut::new()
}

/// Appends bytes to a buffer, by `BytesMut::extend_from_slice`.
#[verifier::external_body]
pub(crate) fn extend_buffer(buffer: &mut BytesMut, bytes: &[u8])
    requires
        buffered(*old(buffer)).len() + bytes@.len() <= isize::MAX,
    ensures
        buffered(*final(buffer)) == buffered(*old(buffer)) + bytes@,
{
    buffer.extend_from_slice(bytes);
}

/// How many bytes a buffer holds, by `BytesMut::len`.
#[verifier::external_body]
pub(crate) fn buffer_len(buffer: &BytesMut) -> (len: usize)
    ensures
        len == buffered(*buffer).len(),
{
    buffer.len()
}

/// Makes a decoder that is between two frames, by `MessageFrameDecoder::new`.
#[verifier::external_body]
pub(crate) fn new_decoder() -> (decoder: MessageFrameDecoder)
    ensures
        held_prelude(decoder) == Seq::<u8>::empty(),
{
    MessageFrameDecoder::new()
}

/// The length that the first four bytes of a frame announce, prelude and checksum
/// included.
pub open spec fn announced_size(frame: Seq<u8>) -> int {
    frame[0] * 0x100_0000 + frame[1] * 0x1_0000 + frame[2] * 0x100 + frame[3]
}

/// Whether the bytes begin with a whole frame, going by the length that they announce.
pub open spec fn begins_with_frame(bytes: Seq<u8>) -> bool {
    bytes.len() >= 12 && 12 <= announced_size(bytes) <= bytes.len()
}

/// Whether more bytes are needed before the first frame is whole.
pub open spec fn is_partial_frame(bytes: Seq<u8>) -> bool {
    bytes.len() < 12 || bytes.len() < announced_size(bytes)
}

/// What is wrong with the first frame of some bytes that begin with one that is rejected.
pub open spec fn frame_fault(bytes: Seq<u8>) -> Seq<char> {
    if announced_size(bytes) < 12 {
        "invalid message length"@
    } else {
        read_message(bytes.take(announced_size(bytes)))->Err_0
    }
}

/// Takes the first frame out of a buffer, by `MessageFrameDecoder::decode_frame`.
///
/// The decoder moves a frame's prelude out of the buffer as soon as it is all there, so
/// what has arrived is the held prelude and the buffer together. As long as the frame is
/// not whole, none of these bytes is lost. A whole frame leaves, and the bytes behind it
/// stay. A frame that announces a length below that of its own prelude is rejected for its
/// length, and one that `Message::read_from` rejects with the error that this gives; what is
/// left in the buffer then is not stated.
#[verifier::external_body]
pub(crate) fn decode_frame(decoder: &mut MessageFrameDecoder, buffer: &mut BytesMut) -> (decoded:
    Result<Option<Message>, Error>)
    requires
        held_prelude(*old(decoder)).len() == 0 || held_prelude(*old(decoder)).len() == 12,
    ensures
        ({
            let arrived = held_prelude(*old(decoder)) + buffered(*old(buffer));
            let left = held_prelude(*final(decoder)) + buffered(*final(buffer));
            match decoded {
                Ok(None) => {
                    &&& is_partial_frame(arrived)
                    &&& left == arrived
                },
                Ok(Some(message)) => {
                    &&& begins_with_frame(arrived)
                    &&& reads_as(
                        arrived.take(announced_size(arrived)),
                        message_headers(message),
                        message_payload(message),
                    )
                    &&& left == arrived.skip(announced_size(arrived))
                },
                Err(error) => {
                    &&& arrived.len() >= 12
                    &&& announced_size(arrived) < 12 || begins_with_frame(arrived) && read_message(
                        arrived.take(announced_size(arrived)),
                    ) is Err
                    &&& text::displays_as(&error, frame_fault(arrived))
                },
            }
        }),
        held_prelude(*final(decoder)).len() == 0 || held_prelude(*final(decoder)).len() == 12,
{
    match decoder.decode_frame(buffer)? {
        DecodedFrame::Complete(message) => Ok(Some(message)),
        DecodedFrame::Incomplete => Ok(None),
    }
}

/// A frame announces its length in its first four bytes, the highest first.
pub proof fn law_lengths_are_announced_in_four_bytes(frame: Seq<u8>, size: int)
    requires
        frame.len() >= 4,
        0 <= size < 0x1_0000_0000,
        frame[0] == size / 0x100_0000,
        frame[1] == size / 0x1_0000 % 256,
        frame[2] == size / 0x100 % 256,
        frame[3] == size % 256,
    ensures
        announced_size(frame) == size,
{
}

/// What has arrived is the beginning of a frame, a whole frame with whatever follows, or a frame
/// that is shorter than its own prelude, and never two of these. A prelude has twelve bytes, and
/// a frame is whole once as many bytes are there as it announces.
pub proof fn law_frames_are_whole_or_not(bytes: Seq<u8>)
    ensures
        bytes.len() < 12 ==> is_partial_frame(bytes) && !begins_with_frame(bytes),
        bytes.len() >= 12 ==> {
            &&& is_partial_frame(bytes) <==> announced_size(bytes) > bytes.len()
            &&& begins_with_frame(bytes) <==> 12 <= announced_size(bytes) <= bytes.len()
        },
        !(is_partial_frame(bytes) && begins_with_frame(bytes)),
{
}

/// What follows a whole frame does not change it.
pub proof fn law_frames_stay_whole(bytes: Seq<u8>, more: Seq<u8>)
    requires
        begins_with_frame(bytes),
    ensures
        begins_with_frame(bytes + more),
        announced_size(bytes + more) == announced_size(bytes),
        (bytes + more).take(announced_size(bytes)) == bytes.take(announced_size(bytes)),
{
    assert((bytes + more).take(announced_size(bytes)) =~= bytes.take(announced_size(bytes)));
}

/// Only a header that carries a text has one, and it is that text.
pub proof fn law_texts_of_headers(content: HeaderContent, text: Seq<char>)
    ensures
        content.text() == Some(text) <==> content == HeaderContent::Text(text),
        content.text() is None <==> content !is Text,
{
}

/// A reader sees the name of a header as it is, and its text exactly where it has one.
pub proof fn law_headers_are_seen_as_they_are(
    seen: TextHeader,
    header: (Seq<char>, HeaderContent),
)
    requires
        seen.shows(header),
    ensures
        seen.name@ == header.0,
        seen.text is Some <==> header.1 is Text,
        seen.text matches Some(text) ==> header.1 == HeaderContent::Text(text@),
{
}

/// A frame that is rejected is so for its length where that is below the length of a prelude,
/// and otherwise for what reading it fails on.
pub proof fn law_frame_faults(bytes: Seq<u8>)
    ensures
        announced_size(bytes) < 12 ==> frame_fault(bytes) == "invalid message length"@,
        announced_size(bytes) >= 12 ==> frame_fault(bytes) == read_message(
            bytes.take(announced_size(bytes)),
        )->Err_0,
{
}

} // verus!
