//! The answer of the service.

use aws_smithy_eventstream::frame::{Header, HeaderValue, Message};
use regasi::transcriber::aws::eventstream::TextHeader;
use regasi::transcriber::aws::response::{
    check_status, classify, HttpError, Incoming, ReadError, ResponseReader,
};
use regasi::transcriber::aws::run::{next_action, StreamAction};

fn frame(headers: &[(&'static str, &'static str)], payload: &'static [u8]) -> Vec<u8> {
    let mut message = Message::new(payload);
    for (name, value) in headers {
        message = message.add_header(Header::new(*name, HeaderValue::String((*value).into())));
    }
    let mut bytes = Vec::new();
    message.write_to(&mut bytes).unwrap();
    bytes
}

fn transcript(payload: &'static [u8]) -> Vec<u8> {
    frame(&[(":message-type", "event"), (":event-type", "TranscriptEvent")], payload)
}

fn read(bytes: &[u8]) -> Result<Option<Incoming>, ReadError> {
    let mut reader = ResponseReader::new();
    assert!(reader.check_room(bytes.len()));
    reader.receive(bytes)
}

fn header(name: &str, text: Option<&str>) -> TextHeader {
    TextHeader { name: name.to_owned(), text: text.map(|text| text.to_owned()) }
}

#[test]
fn statuses_of_success_pass() {
    assert_eq!(check_status(200), Ok(()));
    assert_eq!(check_status(299), Ok(()));
    assert_eq!(check_status(199), Err(HttpError { status: 199 }));
    assert_eq!(check_status(300), Err(HttpError { status: 300 }));
    assert_eq!(check_status(403), Err(HttpError { status: 403 }));
}

#[test]
fn a_transcript_event_is_read() {
    let incoming = read(&transcript(b"{\"a\": \"\xc3\xa9\"}")).unwrap();
    assert_eq!(incoming, Some(Incoming::Transcript("{\"a\": \"\u{e9}\"}".to_owned())));
}

#[test]
fn other_events_are_told_by_their_type() {
    let bytes = frame(&[(":event-type", "Other"), (":message-type", "event")], b"x");
    assert_eq!(read(&bytes).unwrap(), Some(Incoming::UnhandledEvent("Other".to_owned())));
}

#[test]
fn exceptions_are_told_by_what_they_say() {
    let bytes = frame(&[(":message-type", "exception")], b"bad request");
    assert_eq!(read(&bytes).unwrap(), Some(Incoming::Exception("bad request".to_owned())));
}

#[test]
fn other_messages_are_told_by_their_type() {
    let bytes = frame(&[(":message-type", "Event")], b"x");
    assert_eq!(read(&bytes).unwrap(), Some(Incoming::UnhandledMessage("Event".to_owned())));
}

#[test]
fn a_body_may_be_cut_anywhere() {
    let bytes = transcript(b"hello");
    for cut in 0..bytes.len() {
        let mut reader = ResponseReader::new();
        assert_eq!(reader.receive(&bytes[..cut]).unwrap(), None);
        let incoming = reader.receive(&bytes[cut..]).unwrap();
        assert_eq!(incoming, Some(Incoming::Transcript("hello".to_owned())));
        assert_eq!(reader.receive(&[]).unwrap(), None);
    }
}

#[test]
fn one_message_is_read_for_each_chunk() {
    let mut body = transcript(b"one");
    body.extend(transcript(b"two"));
    body.extend(transcript(b"three"));
    let last = body.pop().unwrap();
    let mut reader = ResponseReader::new();
    let text = |text: &str| Some(Incoming::Transcript(text.to_owned()));
    assert_eq!(reader.receive(&body).unwrap(), text("one"));
    assert_eq!(reader.receive(&[]).unwrap(), text("two"));
    assert_eq!(reader.receive(&[]).unwrap(), None);
    assert_eq!(reader.receive(&[last]).unwrap(), text("three"));
    assert_eq!(reader.receive(&[]).unwrap(), None);
}

#[test]
fn a_damaged_frame_is_an_error() {
    let mut bytes = transcript(b"hello");
    let middle = bytes.len() / 2;
    bytes[middle] ^= 1;
    assert!(matches!(read(&bytes), Err(ReadError::Frame(_))));
}

#[test]
fn a_frame_shorter_than_its_prelude_is_an_error() {
    assert!(matches!(read(&[0, 0, 0, 11, 0, 0, 0, 0, 0, 0, 0, 0]), Err(ReadError::Frame(_))));
    assert!(matches!(read(&[0, 0, 0, 11, 0, 0, 0, 0, 0, 0, 0]), Ok(None)));
}

#[test]
fn a_payload_must_be_a_text() {
    assert!(matches!(read(&transcript(b"\xff")), Err(ReadError::NotUtf8(_))));
    let bytes = frame(&[], b"\xff");
    assert!(matches!(read(&bytes), Err(ReadError::NotUtf8(_))));
}

#[test]
fn a_message_must_have_a_type() {
    assert!(matches!(read(&frame(&[], b"x")), Err(ReadError::NoMessageType)));
    let bytes = frame(&[(":message-type", "event")], b"x");
    assert!(matches!(read(&bytes), Err(ReadError::NoEventType)));
}

#[test]
fn a_type_must_be_a_text() {
    let mut bytes = Vec::new();
    let message = Message::new(&b"x"[..])
        .add_header(Header::new(":message-type", HeaderValue::Bool(true)));
    message.write_to(&mut bytes).unwrap();
    assert!(matches!(read(&bytes), Err(ReadError::MalformedMessageType)));
    let mut bytes = Vec::new();
    let message = Message::new(&b"x"[..])
        .add_header(Header::new(":message-type", HeaderValue::String("event".into())))
        .add_header(Header::new(":event-type", HeaderValue::Int32(7)));
    message.write_to(&mut bytes).unwrap();
    assert!(matches!(read(&bytes), Err(ReadError::MalformedEventType)));
}

#[test]
fn the_first_header_of_a_name_counts() {
    let headers = vec![
        header("other", Some("event")),
        header(":message-type", Some("exception")),
        header(":message-type", Some("event")),
    ];
    let incoming = classify(&headers, b"oops").unwrap();
    assert_eq!(incoming, Incoming::Exception("oops".to_owned()));
    let headers = vec![header(":message-type", None), header(":message-type", Some("event"))];
    assert!(matches!(classify(&headers, b""), Err(ReadError::MalformedMessageType)));
}

#[test]
fn a_reader_has_room() {
    let mut reader = ResponseReader::new();
    assert!(reader.check_room(isize::MAX as usize));
    assert!(!reader.check_room(isize::MAX as usize + 1));
    assert_eq!(reader.receive(&[0]).unwrap(), None);
    assert!(!reader.check_room(isize::MAX as usize));
}

#[test]
fn a_refusal_names_its_status() {
    let text = |status: u16| check_status(status).unwrap_err().text();
    assert_eq!(text(400), "HTTP 400 Bad Request");
    assert_eq!(text(403), "HTTP 403 Forbidden");
    assert_eq!(text(409), "HTTP 409 Conflict");
    assert_eq!(text(429), "HTTP 429 Too Many Requests");
    assert_eq!(text(500), "HTTP 500 Internal Server Error");
    assert_eq!(text(503), "HTTP 503 Service Unavailable");
    assert_eq!(text(301), "HTTP 301 Moved Permanently");
    assert_eq!(text(599), "HTTP 599 <unknown status code>");
    assert_eq!(text(7), "HTTP 7 <unknown status code>");
    assert_eq!(text(65535), "HTTP 65535 <unknown status code>");
}

#[test]
fn read_errors_say_what_is_wrong() {
    assert_eq!(ReadError::NoMessageType.text(), "message has no message-type header");
    assert_eq!(ReadError::MalformedMessageType.text(), "malformed message-type header");
    assert_eq!(ReadError::NoEventType.text(), "message has no event-type header");
    assert_eq!(ReadError::MalformedEventType.text(), "malformed event-type header");
    assert_eq!(read(&[0u8; 12]).unwrap_err().text(), "invalid message length");
    assert_eq!(
        read(&transcript(b"\xff")).unwrap_err().text(),
        "invalid utf-8 sequence of 1 bytes from index 0"
    );
}

#[test]
fn all_messages_are_read_where_each_chunk_ends_one() {
    let first = transcript(b"one");
    let second = transcript(b"two");
    let third = transcript(b"three");
    let mut chunks = vec![first.clone(), second.clone(), third.clone()];
    chunks[0].extend_from_slice(&second[..20]);
    chunks[1] = second[20..].to_vec();
    let mut reader = ResponseReader::new();
    for (chunk, text) in chunks.iter().zip(["one", "two", "three"]) {
        let received = reader.receive(chunk).unwrap();
        assert_eq!(received, Some(Incoming::Transcript(text.to_owned())));
    }
}

#[test]
fn messages_before_a_damaged_frame_are_read() {
    let good = transcript(b"one");
    let mut bad = transcript(b"two");
    let last = bad.len() - 1;
    bad[last] ^= 1;
    let mut reader = ResponseReader::new();
    assert_eq!(reader.receive(&good).unwrap(), Some(Incoming::Transcript("one".to_owned())));
    assert!(matches!(reader.receive(&bad), Err(ReadError::Frame(_))));
}

#[test]
fn each_message_has_its_action() {
    let text = "x".to_owned();
    assert!(matches!(next_action(Ok(None)), StreamAction::Receive));
    assert!(matches!(
        next_action(read(&transcript(b"x"))),
        StreamAction::Parse(parsed) if parsed == text
    ));
    let noted = |incoming: Incoming| next_action(Ok(Some(incoming)));
    assert!(matches!(
        noted(Incoming::UnhandledEvent(text.clone())),
        StreamAction::Note(Incoming::UnhandledEvent(name)) if name == text
    ));
    assert!(matches!(
        noted(Incoming::Exception(text.clone())),
        StreamAction::Note(Incoming::Exception(said)) if said == text
    ));
    assert!(matches!(
        noted(Incoming::UnhandledMessage(text.clone())),
        StreamAction::Note(Incoming::UnhandledMessage(name)) if name == text
    ));
    assert!(matches!(
        next_action(read(&frame(&[], b""))),
        StreamAction::Fail(ReadError::NoMessageType)
    ));
}

#[test]
fn a_damaged_frame_is_told_by_its_checksum() {
    let mut prelude = transcript(b"x");
    prelude[11] ^= 1;
    assert!(read(&prelude).unwrap_err().text().starts_with("prelude checksum 0x"));
    let mut message = transcript(b"x");
    let last = message.len() - 1;
    message[last] ^= 1;
    assert!(read(&message).unwrap_err().text().starts_with("message checksum 0x"));
}
