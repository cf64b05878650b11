//! What the service answers: its status, and the stream of messages that follows.

use crate::text;
use crate::text::{decimal_text, same_text};
use crate::transcriber::aws::eventstream;
use crate::transcriber::aws::eventstream::{
    buffer_len, copy_payload, decode_frame, extend_buffer, list_headers, new_buffer, new_decoder,
    HeaderContent, TextHeader,
};
use aws_smithy_eventstream::frame::MessageFrameDecoder;
use bytes::BytesMut;
use vstd::prelude::*;
use vstd::string::StringExecFns;

verus! {

#[verifier::external_type_specification]
#[verifier::external_body]
pub struct ExUtf8Error(core::str::Utf8Error);

/// What the error of the standard library's UTF-8 decoder displays of bytes that are not a
/// valid encoding.
pub uninterp spec fn utf8_fault(bytes: Seq<u8>) -> Seq<char>;

/// The standard library's UTF-8 decoder accepts exactly the valid encodings, and gives
/// the text that the bytes encode. Its error tells of the place in the bytes, and of nothing
/// else.
pub assume_specification<'a>[ core::str::from_utf8 ](bytes: &'a [u8]) -> (decoded: Result<
    &'a str,
    core::str::Utf8Error,
>)
    ensures
        match decoded {
            Ok(characters) => vstd::utf8::encode_utf8(characters@) == bytes@,
            Err(error) => {
                &&& !vstd::utf8::valid_utf8(bytes@)
                &&& forall|shown: String| #[trigger]
                    vstd::string::to_string_from_display_ensures(&error, shown) ==> shown@
                        == utf8_fault(bytes@)
            },
        },
;

/// The service refused the request with a status outside of the two hundreds.
#[derive(Clone, Copy, Debug, PartialEq, Eq, Structural)]
pub struct HttpError {
    pub status: u16,
}

/// The reason that `hyper::StatusCode` gives for a status, or nothing where it has none.
pub uninterp spec fn canonical_reason(status: u16) -> Option<Seq<char>>;

/// The reason for a status with which the service is known to refuse requests.
pub open spec fn usual_reason(status: u16) -> Option<Seq<char>> {
    match status {
        400 => Some("Bad Request"@),
        403 => Some("Forbidden"@),
        409 => Some("Conflict"@),
        429 => Some("Too Many Requests"@),
        500 => Some("Internal Server Error"@),
        503 => Some("Service Unavailable"@),
        _ => None,
    }
}

/// Looks up the reason for a status, by `hyper::StatusCode::canonical_reason`. There is none
/// for a number that is no status. The reasons for the statuses with which the service
/// usually refuses a request are the standard ones.
#[verifier::external_body]
fn find_reason(status: u16) -> (reason: Option<&'static str>)
    ensures
        match reason {
            Some(reason) => canonical_reason(status) == Some(reason@),
            None => canonical_reason(status) is None,
        },
        usual_reason(status) is Some ==> reason is Some && reason.unwrap()@ == usual_reason(
            status,
        ).unwrap(),
{
    hyper::StatusCode::from_u16(status).ok().and_then(|status| status.canonical_reason())
}

/// What is said of a status for the given reason.
pub open spec fn status_text(status: u16, reason: Option<Seq<char>>) -> Seq<char> {
    "HTTP "@ + text::decimal(status as nat) + " "@ + match reason {
        Some(reason) => reason,
        None => "<unknown status code>"@,
    }
}

impl HttpError {
    /// Says what is wrong.
    pub fn text(&self) -> (text: String)
        ensures
            text@ == status_text(self.status, canonical_reason(self.status)),
            usual_reason(self.status) is Some ==> text@ == status_text(
                self.status,
                usual_reason(self.status),
            ),
    {
        let reason = match find_reason(self.status) {
            Some(reason) => reason,
            None => "<unknown status code>",
        };
        let number = decimal_text(self.status);
        "HTTP ".to_owned().concat(number.as_str()).concat(" ").concat(reason)
    }
}

/// Lets the statuses that stand for success pass.
pub fn check_status(status: u16) -> (checked: Result<(), HttpError>)
    ensures
        checked == if 200 <= status < 300 {
            Ok::<(), HttpError>(())
        } else {
            Err(HttpError { status })
        },
{
    if 200 <= status && status < 300 {
        Ok(())
    } else {
        Err(HttpError { status })
    }
}

/// A message from the service.
#[derive(Debug, PartialEq, Eq)]
pub enum Incoming {
    /// A transcript event, with the JSON text that describes it.
    Transcript(String),
    /// An event of another type, with the name of that type.
    UnhandledEvent(String),
    /// An exception, with what the service says of it.
    Exception(String),
    /// A message of another type, with the name of that type.
    UnhandledMessage(String),
}

/// Why the stream of messages cannot be read on.
#[derive(Debug)]
pub enum ReadError {
    /// A frame is damaged.
    Frame(aws_smithy_eventstream::error::Error),
    /// A payload is not a text.
    NotUtf8(core::str::Utf8Error),
    /// A message has no message-type header.
    NoMessageType,
    /// A message's message-type header does not carry a text.
    MalformedMessageType,
    /// An event has no event-type header.
    NoEventType,
    /// An event's event-type header does not carry a text.
    MalformedEventType,
}

impl ReadError {
    /// Whether a text says what is wrong. Of a frame or a payload it is what the error of the
    /// other crate displays.
    pub open spec fn is_told_by(&self, text: String) -> bool {
        match self {
            ReadError::Frame(error) => vstd::string::to_string_from_display_ensures(error, text),
            ReadError::NotUtf8(error) => vstd::string::to_string_from_display_ensures(error, text),
            ReadError::NoMessageType => text@ == "message has no message-type header"@,
            ReadError::MalformedMessageType => text@ == "malformed message-type header"@,
            ReadError::NoEventType => text@ == "message has no event-type header"@,
            ReadError::MalformedEventType => text@ == "malformed event-type header"@,
        }
    }

    /// Says what is wrong.
    pub fn text(&self) -> (text: String)
        ensures
            self.is_told_by(text),
    {
        match self {
            ReadError::Frame(error) => error.to_string(),
            ReadError::NotUtf8(error) => error.to_string(),
            ReadError::NoMessageType => "message has no message-type header".to_owned(),
            ReadError::MalformedMessageType => "malformed message-type header".to_owned(),
            ReadError::NoEventType => "message has no event-type header".to_owned(),
            ReadError::MalformedEventType => "malformed event-type header".to_owned(),
        }
    }
}

/// What readers see of a list of headers.
pub open spec fn seen_headers(headers: Seq<TextHeader>) -> Seq<(Seq<char>, Option<Seq<char>>)> {
    headers.map_values(
        |header: TextHeader| (header.name@, eventstream::option_text(header.text)),
    )
}

/// What readers see of the headers that a message holds.
pub open spec fn shown_headers(headers: Seq<(Seq<char>, HeaderContent)>) -> Seq<
    (Seq<char>, Option<Seq<char>>),
> {
    headers.map_values(|header: (Seq<char>, HeaderContent)| (header.0, header.1.text()))
}

/// The text of the first header of a name: nothing where no header has that name, and no
/// text where the header carries something else.
pub open spec fn first_header(
    headers: Seq<(Seq<char>, Option<Seq<char>>)>,
    name: Seq<char>,
) -> Option<Option<Seq<char>>>
    decreases headers.len(),
{
    if headers.len() == 0 {
        None
    } else if headers[0].0 == name {
        Some(headers[0].1)
    } else {
        first_header(headers.drop_first(), name)
    }
}

/// Finds the first header of a name.
fn find_header<'a>(headers: &'a Vec<TextHeader>, name: &str) -> (found: Option<&'a TextHeader>)
    ensures
        match found {
            Some(header) => first_header(seen_headers(headers@), name@) == Some(
                eventstream::option_text(header.text),
            ),
            None => first_header(seen_headers(headers@), name@) is None,
        },
{
    let ghost seen = seen_headers(headers@);
    assert(seen.skip(0) =~= seen);
    let mut i: usize = 0;
    while i < headers.len()
        invariant
            i <= headers.len(),
            seen == seen_headers(headers@),
            first_header(seen.skip(i as int), name@) == first_header(seen, name@),
        decreases headers.len() - i,
    {
        if same_text(&headers[i].name, name) {
            return Some(&headers[i]);
        }
        assert(seen.skip(i as int).drop_first() =~= seen.skip(i + 1));
        i += 1;
    }
    None
}

/// What a message with the given headers and payload is taken for.
pub open spec fn classifies(
    headers: Seq<(Seq<char>, Option<Seq<char>>)>,
    payload: Seq<u8>,
    incoming: Result<Incoming, ReadError>,
) -> bool {
    if !vstd::utf8::valid_utf8(payload) {
        incoming matches Err(ReadError::NotUtf8(error)) && text::displays_as(
            &error,
            utf8_fault(payload),
        )
    } else {
        match first_header(headers, ":message-type"@) {
            None => incoming matches Err(ReadError::NoMessageType),
            Some(None) => incoming matches Err(ReadError::MalformedMessageType),
            Some(Some(message_type)) => if message_type == "event"@ {
                match first_header(headers, ":event-type"@) {
                    None => incoming matches Err(ReadError::NoEventType),
                    Some(None) => incoming matches Err(ReadError::MalformedEventType),
                    Some(Some(event_type)) => if event_type == "TranscriptEvent"@ {
                        incoming matches Ok(Incoming::Transcript(text)) && text@
                            == vstd::utf8::decode_utf8(payload)
                    } else {
                        incoming matches Ok(Incoming::UnhandledEvent(name)) && name@ == event_type
                    },
                }
            } else if message_type == "exception"@ {
                incoming matches Ok(Incoming::Exception(text)) && text@ == vstd::utf8::decode_utf8(
                    payload,
                )
            } else {
                incoming matches Ok(Incoming::UnhandledMessage(name)) && name@ == message_type
            },
        }
    }
}

/// Tells what a message is by its headers.
pub fn classify(headers: &Vec<TextHeader>, payload: &[u8]) -> (incoming: Result<
    Incoming,
    ReadError,
>)
    ensures
        classifies(seen_headers(headers@), payload@, incoming),
{
    let text = match core::str::from_utf8(payload) {
        Ok(text) => text,
        Err(error) => {
            return Err(ReadError::NotUtf8(error));
        },
    };
    proof {
        vstd::utf8::encode_utf8_valid_utf8(text@);
        vstd::utf8::encode_utf8_decode_utf8(text@);
    }
    let message_type = match find_header(headers, ":message-type") {
        None => {
            return Err(ReadError::NoMessageType);
        },
        Some(header) => match &header.text {
            None => {
                return Err(ReadError::MalformedMessageType);
            },
            Some(text) => text,
        },
    };
    if same_text(message_type, "event") {
        let event_type = match find_header(headers, ":event-type") {
            None => {
                return Err(ReadError::NoEventType);
            },
            Some(header) => match &header.text {
                None => {
                    return Err(ReadError::MalformedEventType);
                },
                Some(text) => text,
            },
        };
        if same_text(event_type, "TranscriptEvent") {
            Ok(Incoming::Transcript(text.to_owned()))
        } else {
            Ok(Incoming::UnhandledEvent(event_type.clone()))
        }
    } else if same_text(message_type, "exception") {
        Ok(Incoming::Exception(text.to_owned()))
    } else {
        Ok(Incoming::UnhandledMessage(message_type.clone()))
    }
}

/// Reads the messages out of a response body that arrives in chunks.
pub struct ResponseReader {
    buffer: BytesMut,
    decoder: MessageFrameDecoder,
}

impl ResponseReader {
    /// A decoder holds no prelude, or a whole one.
    #[verifier::type_invariant]
    spec fn wf(&self) -> bool {
        eventstream::held_prelude(self.decoder).len() == 0 || eventstream::held_prelude(
            self.decoder,
        ).len() == 12
    }

    /// The bytes that have arrived and that no message was made of yet.
    pub closed spec fn pending(&self) -> Seq<u8> {
        eventstream::held_prelude(self.decoder) + eventstream::buffered(self.buffer)
    }

    /// Whether the buffer has room for that many bytes more: no buffer holds more than
    /// `isize::MAX`.
    pub closed spec fn has_room(&self, more: nat) -> bool {
        eventstream::buffered(self.buffer).len() + more <= isize::MAX
    }

    /// There is room as long as the pending bytes leave it.
    pub proof fn lemma_has_room(&self, more: nat)
        requires
            self.pending().len() + more <= isize::MAX,
        ensures
            self.has_room(more),
    {
    }

    /// Whether the buffer has room for that many bytes more.
    pub fn check_room(&self, more: usize) -> (room: bool)
        ensures
            room == self.has_room(more as nat),
    {
        let most: usize = isize::MAX as usize;
        let len = buffer_len(&self.buffer);
        len <= most && more <= most - len
    }

    /// A reader to which nothing has arrived.
    pub fn new() -> (reader: ResponseReader)
        ensures
            reader.pending() == Seq::<u8>::empty(),
    {
        let reader = ResponseReader { buffer: new_buffer(), decoder: new_decoder() };
        assert(reader.pending() =~= Seq::<u8>::empty());
        reader
    }

    /// Takes in a chunk of the body, and hands out the message that the pending bytes
    /// begin with once it is whole. Whatever follows stays for the next chunk, even where
    /// it is a whole message too.
    pub fn receive(&mut self, chunk: &[u8]) -> (received: Result<Option<Incoming>, ReadError>)
        requires
            old(self).has_room(chunk@.len()),
        ensures
            receives(old(self).pending() + chunk@, received, final(self).pending()),
    {
        proof {
            use_type_invariant(&*self);
        }
        let ghost before = self.pending();
        let mut buffer = new_buffer();
        let mut decoder = new_decoder();
        std::mem::swap(&mut buffer, &mut self.buffer);
        std::mem::swap(&mut decoder, &mut self.decoder);
        extend_buffer(&mut buffer, chunk);
        let ghost arrived = before + chunk@;
        assert(eventstream::held_prelude(decoder) + eventstream::buffered(buffer) =~= arrived);
        let decoded = decode_frame(&mut decoder, &mut buffer);
        self.buffer = buffer;
        self.decoder = decoder;
        match decoded {
            Ok(None) => Ok(None),
            Ok(Some(message)) => {
                let headers = list_headers(&message);
                let payload = copy_payload(&message);
                assert(seen_headers(headers@) =~= shown_headers(
                    eventstream::message_headers(message),
                )) by {
                    assert forall|i: int| 0 <= i < headers@.len() implies seen_headers(headers@)[i]
                        == shown_headers(eventstream::message_headers(message))[i] by {
                        assert(headers@[i].shows(eventstream::message_headers(message)[i]));
                    }
                }
                match classify(&headers, payload.as_slice()) {
                    Ok(incoming) => Ok(Some(incoming)),
                    Err(error) => Err(error),
                }
            },
            Err(error) => Err(ReadError::Frame(error)),
        }
    }
}

/// What reading on comes to once the given bytes have arrived: `received` is what is
/// handed out, and `left` are the bytes that stay.
pub open spec fn receives(
    arrived: Seq<u8>,
    received: Result<Option<Incoming>, ReadError>,
    left: Seq<u8>,
) -> bool {
    let frame = arrived.take(eventstream::announced_size(arrived));
    if eventstream::is_partial_frame(arrived) {
        &&& received matches Ok(None)
        &&& left == arrived
    } else if !eventstream::begins_with_frame(arrived) || eventstream::read_message(frame) is Err {
        received matches Err(ReadError::Frame(error)) && text::displays_as(
            &error,
            eventstream::frame_fault(arrived),
        )
    } else {
        let (headers, payload) = eventstream::read_message(frame)->Ok_0;
        &&& left == arrived.skip(eventstream::announced_size(arrived))
        &&& match received {
            Ok(Some(incoming)) => classifies(shown_headers(headers), payload, Ok(incoming)),
            Ok(None) => false,
            Err(error) => classifies(shown_headers(headers), payload, Err(error)),
        }
    }
}

/// Some byte strings put together, one behind the other.
pub open spec fn joined(parts: Seq<Seq<u8>>) -> Seq<u8>
    decreases parts.len(),
{
    if parts.len() == 0 {
        Seq::empty()
    } else {
        joined(parts.drop_last()) + parts.last()
    }
}

/// The frames that are taken out of a body that arrives in the given chunks, and the bytes
/// that are left: each chunk is put behind what is left, and one frame is taken from there
/// if it is whole.
pub open spec fn taken_frames(chunks: Seq<Seq<u8>>) -> (Seq<Seq<u8>>, Seq<u8>)
    decreases chunks.len(),
{
    if chunks.len() == 0 {
        (Seq::empty(), Seq::empty())
    } else {
        let (frames, left) = taken_frames(chunks.drop_last());
        let arrived = left + chunks.last();
        if eventstream::begins_with_frame(arrived) {
            let size = eventstream::announced_size(arrived);
            (frames.push(arrived.take(size)), arrived.skip(size))
        } else {
            (frames, arrived)
        }
    }
}

/// The frames that a body begins with, as far as they are whole.
pub open spec fn whole_frames(body: Seq<u8>) -> Seq<Seq<u8>>
    decreases body.len(),
{
    if eventstream::begins_with_frame(body) {
        let size = eventstream::announced_size(body);
        seq![body.take(size)] + whole_frames(body.skip(size))
    } else {
        Seq::empty()
    }
}

/// A reader at which a body has arrived in some chunks, and which takes in one more chunk
/// without an error, has then left what the body leaves that arrives in all those chunks.
/// What it hands out is the message of the frame that was taken last.
pub proof fn law_reader_takes_frames(
    chunks: Seq<Seq<u8>>,
    chunk: Seq<u8>,
    before: Seq<u8>,
    received: Result<Option<Incoming>, ReadError>,
    after: Seq<u8>,
)
    requires
        before == taken_frames(chunks).1,
        receives(before + chunk, received, after),
        received is Ok,
    ensures
        after == taken_frames(chunks.push(chunk)).1,
        received->Ok_0 is Some <==> taken_frames(chunks.push(chunk)).0.len() == taken_frames(
            chunks,
        ).0.len() + 1,
        received matches Ok(Some(incoming)) ==> {
            let frame = taken_frames(chunks.push(chunk)).0.last();
            &&& eventstream::read_message(frame) matches Ok((headers, payload))
            &&& classifies(shown_headers(headers), payload, Ok(incoming))
        },
{
    assert(chunks.push(chunk).drop_last() =~= chunks);
}

/// No byte is lost, moved or made up on the way: the frames that were taken and the bytes
/// that are left are the chunks put together. There are no more frames than chunks, and
/// every frame has the length that it announces.
pub proof fn law_bytes_are_kept(chunks: Seq<Seq<u8>>)
    ensures
        joined(taken_frames(chunks).0) + taken_frames(chunks).1 == joined(chunks),
        taken_frames(chunks).0.len() <= chunks.len(),
        forall|i: int|
            0 <= i < taken_frames(chunks).0.len() ==> {
                &&& eventstream::begins_with_frame(#[trigger] taken_frames(chunks).0[i])
                &&& eventstream::announced_size(taken_frames(chunks).0[i]) == taken_frames(
                    chunks,
                ).0[i].len()
            },
    decreases chunks.len(),
{
    if chunks.len() > 0 {
        law_bytes_are_kept(chunks.drop_last());
        let (frames, left) = taken_frames(chunks.drop_last());
        let arrived = left + chunks.last();
        assert(joined(frames) + arrived =~= joined(chunks));
        if eventstream::begins_with_frame(arrived) {
            let size = eventstream::announced_size(arrived);
            let frame = arrived.take(size);
            assert(frames.push(frame).drop_last() =~= frames);
            assert(frame + arrived.skip(size) =~= arrived);
            assert(joined(frames.push(frame)) + arrived.skip(size) =~= joined(frames) + (frame
                + arrived.skip(size)));
        }
    } else {
        assert(joined(taken_frames(chunks).0) + taken_frames(chunks).1 =~= joined(chunks));
    }
}

/// Frames that have the length they announce are the first ones of what begins with them.
proof fn lemma_whole_frames_of_joined(frames: Seq<Seq<u8>>, rest: Seq<u8>)
    requires
        forall|i: int|
            0 <= i < frames.len() ==> {
                &&& eventstream::begins_with_frame(#[trigger] frames[i])
                &&& eventstream::announced_size(frames[i]) == frames[i].len()
            },
    ensures
        whole_frames(joined(frames) + rest) == frames + whole_frames(rest),
    decreases frames.len(),
{
    if frames.len() == 0 {
        assert(joined(frames) + rest =~= rest);
        assert(frames + whole_frames(rest) =~= whole_frames(rest));
    } else {
        let last = frames.last();
        let tail = last + rest;
        assert forall|i: int| 0 <= i < frames.drop_last().len() implies {
            &&& eventstream::begins_with_frame(#[trigger] frames.drop_last()[i])
            &&& eventstream::announced_size(frames.drop_last()[i]) == frames.drop_last()[i].len()
        } by {
            assert(frames.drop_last()[i] == frames[i]);
        }
        lemma_whole_frames_of_joined(frames.drop_last(), tail);
        assert(joined(frames) + rest =~= joined(frames.drop_last()) + tail);
        assert(eventstream::begins_with_frame(last));
        assert(tail.take(last.len() as int) =~= last);
        assert(tail.skip(last.len() as int) =~= rest);
        assert(frames.drop_last() + (seq![last] + whole_frames(rest)) =~= frames + whole_frames(
            rest,
        ));
    }
}

/// However a body is cut into chunks, the frames that are taken are its first whole
/// frames, in their order and none left out; the remaining ones are still in the bytes
/// that are left.
pub proof fn law_frames_are_taken_in_order(chunks: Seq<Seq<u8>>)
    ensures
        whole_frames(joined(chunks)) == taken_frames(chunks).0 + whole_frames(
            taken_frames(chunks).1,
        ),
{
    law_bytes_are_kept(chunks);
    lemma_whole_frames_of_joined(taken_frames(chunks).0, taken_frames(chunks).1);
}

/// Where every chunk ends exactly one frame, so that as many frames are whole as chunks have
/// arrived, all frames are taken, and each with the chunk that ends it.
pub proof fn law_all_frames_are_taken(chunks: Seq<Seq<u8>>)
    requires
        forall|i: int|
            0 <= i <= chunks.len() ==> whole_frames(joined(#[trigger] chunks.take(i))).len() == i,
    ensures
        taken_frames(chunks).0.len() == chunks.len(),
        taken_frames(chunks).0 == whole_frames(joined(chunks)),
    decreases chunks.len(),
{
    assert(chunks.take(chunks.len() as int) =~= chunks);
    law_frames_are_taken_in_order(chunks);
    if chunks.len() > 0 {
        let earlier = chunks.drop_last();
        assert(chunks.take(chunks.len() - 1) =~= earlier);
        assert forall|i: int| 0 <= i <= earlier.len() implies whole_frames(
            joined(#[trigger] earlier.take(i)),
        ).len() == i by {
            assert(earlier.take(i) =~= chunks.take(i));
        }
        law_all_frames_are_taken(earlier);
        law_bytes_are_kept(chunks);
        let arrived = taken_frames(earlier).1 + chunks.last();
        if !eventstream::begins_with_frame(arrived) {
            assert(whole_frames(arrived).len() == 0);
        }
    }
    assert(whole_frames(taken_frames(chunks).1).len() == 0);
    assert(taken_frames(chunks).0 + whole_frames(taken_frames(chunks).1) =~= taken_frames(
        chunks,
    ).0);
}

/// Looking up a header gives nothing if and only if no header has that name, wherever it
/// stands; and otherwise what the first one with that name carries.
pub proof fn law_headers_are_found_wherever_they_stand(
    headers: Seq<(Seq<char>, Option<Seq<char>>)>,
    name: Seq<char>,
)
    ensures
        first_header(headers, name) is None <==> forall|i: int|
            0 <= i < headers.len() ==> (#[trigger] headers[i]).0 != name,
        forall|i: int|
            0 <= i < headers.len() && (#[trigger] headers[i]).0 == name && (forall|j: int|
                0 <= j < i ==> (#[trigger] headers[j]).0 != name) ==> first_header(headers, name)
                == Some(headers[i].1),
{
    if first_header(headers, name) is None {
        lemma_no_header(headers, name);
    } else {
        lemma_some_header(headers, name);
    }
    assert forall|i: int|
        0 <= i < headers.len() && (#[trigger] headers[i]).0 == name && (forall|j: int|
            0 <= j < i ==> (#[trigger] headers[j]).0 != name) implies first_header(headers, name)
        == Some(headers[i].1) by {
        lemma_header_at(headers, name, i);
    }
}

/// Where no header is found, none has the name.
proof fn lemma_no_header(headers: Seq<(Seq<char>, Option<Seq<char>>)>, name: Seq<char>)
    requires
        first_header(headers, name) is None,
    ensures
        forall|i: int| 0 <= i < headers.len() ==> (#[trigger] headers[i]).0 != name,
    decreases headers.len(),
{
    if headers.len() > 0 {
        let rest = headers.drop_first();
        lemma_no_header(rest, name);
        assert forall|i: int| 0 <= i < headers.len() implies (#[trigger] headers[i]).0 != name by {
            if i > 0 {
                assert(rest[i - 1].0 != name);
            }
        }
    }
}

/// Where a header is found, one has the name.
proof fn lemma_some_header(headers: Seq<(Seq<char>, Option<Seq<char>>)>, name: Seq<char>)
    requires
        first_header(headers, name) is Some,
    ensures
        exists|i: int| 0 <= i < headers.len() && (#[trigger] headers[i]).0 == name,
    decreases headers.len(),
{
    if headers[0].0 != name {
        let rest = headers.drop_first();
        lemma_some_header(rest, name);
        let i = choose|i: int| 0 <= i < rest.len() && (#[trigger] rest[i]).0 == name;
        assert(headers[i + 1].0 == name);
    }
}

/// The header that is found is the first one that has the name.
proof fn lemma_header_at(headers: Seq<(Seq<char>, Option<Seq<char>>)>, name: Seq<char>, i: int)
    requires
        0 <= i < headers.len(),
        headers[i].0 == name,
        forall|j: int| 0 <= j < i ==> (#[trigger] headers[j]).0 != name,
    ensures
        first_header(headers, name) == Some(headers[i].1),
    decreases headers.len(),
{
    if i > 0 {
        let rest = headers.drop_first();
        assert(headers[0].0 != name);
        assert forall|j: int| 0 <= j < i - 1 implies (#[trigger] rest[j]).0 != name by {
            assert(headers[j + 1].0 != name);
        }
        lemma_header_at(rest, name, i - 1);
    }
}

/// Headers of other names make no difference to what is found, wherever they stand.
pub proof fn law_other_headers_do_not_matter(
    headers: Seq<(Seq<char>, Option<Seq<char>>)>,
    other: (Seq<char>, Option<Seq<char>>),
    at: int,
    name: Seq<char>,
)
    requires
        0 <= at <= headers.len(),
        other.0 != name,
    ensures
        first_header(headers.insert(at, other), name) == first_header(headers, name),
    decreases headers.len(),
{
    let more = headers.insert(at, other);
    if at == 0 {
        assert(more.drop_first() =~= headers);
    } else {
        assert(more[0] == headers[0]);
        assert(more.drop_first() =~= headers.drop_first().insert(at - 1, other));
        law_other_headers_do_not_matter(headers.drop_first(), other, at - 1, name);
    }
}

/// The headers that a message is told by are all headers of it, in order, each with its name and
/// the text that it carries.
pub proof fn law_all_headers_are_seen(
    seen: Seq<TextHeader>,
    headers: Seq<(Seq<char>, HeaderContent)>,
)
    ensures
        seen_headers(seen).len() == seen.len(),
        forall|i: int|
            0 <= i < seen.len() ==> {
                &&& (#[trigger] seen_headers(seen)[i]).0 == seen[i].name@
                &&& seen_headers(seen)[i].1 is Some <==> seen[i].text is Some
                &&& seen[i].text matches Some(text) ==> seen_headers(seen)[i].1 == Some(text@)
            },
        shown_headers(headers).len() == headers.len(),
        forall|i: int|
            0 <= i < headers.len() ==> {
                &&& (#[trigger] shown_headers(headers)[i]).0 == headers[i].0
                &&& headers[i].1 matches HeaderContent::Text(text) ==> shown_headers(headers)[i].1
                    == Some(text)
                &&& headers[i].1 !is Text ==> shown_headers(headers)[i].1 is None
            },
{
}

/// A message whose payload is no text, or that has no header for its type, or whose first such
/// header carries no text, is an error; and each of these is its own.
pub proof fn law_messages_without_a_type_are_errors(
    headers: Seq<(Seq<char>, Option<Seq<char>>)>,
    payload: Seq<u8>,
    incoming: Result<Incoming, ReadError>,
)
    requires
        classifies(headers, payload, incoming),
    ensures
        (incoming matches Err(ReadError::NotUtf8(_))) <==> !vstd::utf8::valid_utf8(payload),
        (incoming matches Err(ReadError::NoMessageType)) <==> vstd::utf8::valid_utf8(payload) && (
        forall|i: int| 0 <= i < headers.len() ==> (#[trigger] headers[i]).0 != ":message-type"@),
        !(incoming matches Err(ReadError::Frame(_))),
{
    law_headers_are_found_wherever_they_stand(headers, ":message-type"@);
}

/// A message is what its first message-type header says: an event, an exception or something
/// else. What an exception says is its payload, whole and unchanged; something else is told by
/// its type.
pub proof fn law_messages_are_told_by_their_type(
    headers: Seq<(Seq<char>, Option<Seq<char>>)>,
    payload: Seq<u8>,
    incoming: Result<Incoming, ReadError>,
    i: int,
)
    requires
        classifies(headers, payload, incoming),
        vstd::utf8::valid_utf8(payload),
        0 <= i < headers.len(),
        headers[i].0 == ":message-type"@,
        forall|j: int| 0 <= j < i ==> (#[trigger] headers[j]).0 != ":message-type"@,
    ensures
        (incoming matches Err(ReadError::MalformedMessageType)) <==> headers[i].1 is None,
        (incoming matches Ok(Incoming::Exception(_))) <==> headers[i].1 == Some("exception"@),
        incoming matches Ok(Incoming::Exception(text)) ==> vstd::utf8::encode_utf8(text@)
            == payload,
        (incoming matches Ok(Incoming::UnhandledMessage(_))) <==> headers[i].1 is Some
            && headers[i].1 != Some("event"@) && headers[i].1 != Some("exception"@),
        incoming matches Ok(Incoming::UnhandledMessage(name)) ==> headers[i].1 == Some(name@),
{
    law_headers_are_found_wherever_they_stand(headers, ":message-type"@);
    vstd::utf8::decode_utf8_encode_utf8(payload);
    reveal_strlit("event");
    reveal_strlit("exception");
    assert("event"@.len() != "exception"@.len());
}

/// An event is what its first event-type header says: a transcript event, whose text is the
/// payload, whole and unchanged, or another one, which is told by its type. Without such a header
/// that carries a text it is an error.
pub proof fn law_events_are_told_by_their_type(
    headers: Seq<(Seq<char>, Option<Seq<char>>)>,
    payload: Seq<u8>,
    incoming: Result<Incoming, ReadError>,
    i: int,
)
    requires
        classifies(headers, payload, incoming),
        vstd::utf8::valid_utf8(payload),
        0 <= i < headers.len(),
        headers[i] == (":message-type"@, Some("event"@)),
        forall|j: int| 0 <= j < i ==> (#[trigger] headers[j]).0 != ":message-type"@,
    ensures
        (incoming matches Err(ReadError::NoEventType)) <==> forall|k: int|
            0 <= k < headers.len() ==> (#[trigger] headers[k]).0 != ":event-type"@,
        forall|k: int|
            0 <= k < headers.len() && (#[trigger] headers[k]).0 == ":event-type"@ && (forall|j: int|
                0 <= j < k ==> (#[trigger] headers[j]).0 != ":event-type"@) ==> {
                &&& (incoming matches Err(ReadError::MalformedEventType)) <==> headers[k].1 is None
                &&& (incoming matches Ok(Incoming::Transcript(_))) <==> headers[k].1 == Some(
                    "TranscriptEvent"@,
                )
                &&& (incoming matches Ok(Incoming::UnhandledEvent(_))) <==> headers[k].1 is Some
                    && headers[k].1 != Some("TranscriptEvent"@)
                &&& incoming matches Ok(Incoming::UnhandledEvent(name)) ==> headers[k].1 == Some(
                    name@,
                )
            },
        incoming matches Ok(Incoming::Transcript(text)) ==> vstd::utf8::encode_utf8(text@)
            == payload,
{
    law_headers_are_found_wherever_they_stand(headers, ":message-type"@);
    law_headers_are_found_wherever_they_stand(headers, ":event-type"@);
    vstd::utf8::decode_utf8_encode_utf8(payload);
}

/// What reading on comes to, byte by byte: as long as fewer bytes are there than the first four
/// of them announce, or fewer than a prelude has, nothing comes of it and every byte stays.
/// Once they are there, exactly those bytes leave, and what they hold is what is handed out; and
/// whatever follows stays as it is.
pub proof fn law_reading_takes_what_is_announced(
    arrived: Seq<u8>,
    received: Result<Option<Incoming>, ReadError>,
    left: Seq<u8>,
)
    requires
        receives(arrived, received, left),
    ensures
        ({
            let size = ((arrived[0] * 256 + arrived[1]) * 256 + arrived[2]) * 256 + arrived[3];
            let read = eventstream::read_message(arrived.take(size));
            let partial = arrived.len() < 12 || arrived.len() < size;
            &&& (received matches Ok(None)) <==> partial
            &&& partial ==> left == arrived
            &&& (received matches Err(ReadError::Frame(_))) <==> !partial && (size < 12 || read is Err)
            &&& !partial && size >= 12 && read is Ok ==> {
                &&& left.len() == arrived.len() - size
                &&& arrived.take(size) + left == arrived
                &&& match received {
                    Ok(Some(incoming)) => classifies(
                        shown_headers(read->Ok_0.0),
                        read->Ok_0.1,
                        Ok(incoming),
                    ),
                    Ok(None) => false,
                    Err(error) => classifies(
                        shown_headers(read->Ok_0.0),
                        read->Ok_0.1,
                        Err(error),
                    ),
                }
            }
        }),
{
    let size = ((arrived[0] * 256 + arrived[1]) * 256 + arrived[2]) * 256 + arrived[3];
    assert(size == eventstream::announced_size(arrived));
    if 12 <= size <= arrived.len() {
        assert(arrived.take(size) + arrived.skip(size) =~= arrived);
    }
}

/// What is said of a refusal names the status in digits, and the reason behind it.
pub proof fn law_refusals_are_told(status: u16, reason: Option<Seq<char>>)
    ensures
        ({
            let said = status_text(status, reason);
            let digits = text::decimal(status as nat);
            let rest = said.skip(5 + digits.len() as int + 1);
            &&& said.take(5) == "HTTP "@
            &&& said.subrange(5, 5 + digits.len() as int) == digits
            &&& text::decimal_value(digits) == status
            &&& said[5 + digits.len() as int] == ' '
            &&& reason matches Some(reason) ==> rest == reason
            &&& reason is None ==> rest == "<unknown status code>"@
        }),
{
    reveal_strlit("HTTP ");
    reveal_strlit(" ");
    text::law_decimal_reads_back(status as nat);
    let said = status_text(status, reason);
    let digits = text::decimal(status as nat);
    let rest = said.skip(5 + digits.len() as int + 1);
    assert(said.take(5) =~= "HTTP "@);
    assert(said.subrange(5, 5 + digits.len() as int) =~= digits);
    match reason {
        Some(reason) => {
            assert(rest =~= reason);
        },
        None => {
            assert(rest =~= "<unknown status code>"@);
        },
    }
}

/// What is said of a stream that cannot be read on names what is wrong.
pub proof fn law_read_errors_are_told(error: ReadError, said: String)
    requires
        error.is_told_by(said),
    ensures
        error is NoMessageType ==> said@ == "message has no message-type header"@,
        error is MalformedMessageType ==> said@ == "malformed message-type header"@,
        error is NoEventType ==> said@ == "message has no event-type header"@,
        error is MalformedEventType ==> said@ == "malformed event-type header"@,
        error matches ReadError::Frame(fault) ==> forall|shown: Seq<char>| #[trigger]
            text::displays_as(&fault, shown) ==> said@ == shown,
        error matches ReadError::NotUtf8(fault) ==> forall|shown: Seq<char>| #[trigger]
            text::displays_as(&fault, shown) ==> said@ == shown,
{
}

/// A frame that is rejected is told by its fault, and so is a payload that is no text.
pub proof fn law_faults_are_handed_on(
    arrived: Seq<u8>,
    received: Result<Option<Incoming>, ReadError>,
    left: Seq<u8>,
    said: String,
)
    requires
        receives(arrived, received, left),
        received matches Err(error) && error.is_told_by(said),
    ensures
        received matches Err(ReadError::Frame(_)) ==> said@ == eventstream::frame_fault(arrived),
        received matches Err(ReadError::NotUtf8(_)) ==> said@ == utf8_fault(
            eventstream::read_message(arrived.take(eventstream::announced_size(arrived)))->Ok_0.1,
        ),
{
}

/// A status passes exactly if its hundreds are two, and is handed back where it does not.
pub proof fn law_statuses_of_success_pass(status: u16, checked: Result<(), HttpError>)
    requires
        call_ensures(check_status, (status,), checked),
    ensures
        checked is Ok <==> status / 100 == 2,
        checked matches Err(error) ==> error.status == status,
{
}

/// What is said of a status is the status in digits and the reason that there is for it.
pub proof fn law_statuses_are_told(error: HttpError, said: String)
    requires
        call_ensures(HttpError::text, (&error,), said),
    ensures
        said@ == status_text(error.status, canonical_reason(error.status)),
        usual_reason(error.status) is Some ==> said@ == status_text(
            error.status,
            usual_reason(error.status),
        ),
{
}

/// What a message is told to be, by its headers as they are seen, is what it is.
pub proof fn law_messages_are_classified(
    headers: Vec<TextHeader>,
    payload: &[u8],
    incoming: Result<Incoming, ReadError>,
)
    requires
        call_ensures(classify, (&headers, payload), incoming),
    ensures
        classifies(seen_headers(headers@), payload@, incoming),
        (incoming matches Err(ReadError::NoMessageType)) ==> forall|i: int|
            0 <= i < headers@.len() ==> (#[trigger] headers@[i]).name@ != ":message-type"@,
        (incoming matches Err(ReadError::NoEventType)) ==> forall|i: int|
            0 <= i < headers@.len() ==> (#[trigger] headers@[i]).name@ != ":event-type"@,
{
    let seen = seen_headers(headers@);
    law_headers_are_found_wherever_they_stand(seen, ":message-type"@);
    law_headers_are_found_wherever_they_stand(seen, ":event-type"@);
    if incoming matches Err(ReadError::NoMessageType) {
        assert forall|i: int| 0 <= i < headers@.len() implies (#[trigger] headers@[i]).name@
            != ":message-type"@ by {
            assert(seen[i].0 == headers@[i].name@);
        }
    }
    if incoming matches Err(ReadError::NoEventType) {
        assert forall|i: int| 0 <= i < headers@.len() implies (#[trigger] headers@[i]).name@
            != ":event-type"@ by {
            assert(seen[i].0 == headers@[i].name@);
        }
    }
}

} // verus!
