//! Signed audio frames.

use aws_smithy_eventstream::frame::Message;
use regasi::timestamp::Timestamp;
use regasi::transcriber::aws::signing::{
    audio_message, check_signable, Credentials, FrameError, FrameSigner, LAST_SIGNABLE_SECOND,
};

fn signer(seed: &str) -> FrameSigner {
    let credentials = Credentials {
        access_key: "fake access key".to_owned(),
        secret_key: "fake secret key".to_owned(),
    };
    FrameSigner::new(credentials, "eu-west-1".to_owned(), seed.to_owned())
}

fn at(secs: u64) -> Timestamp {
    Timestamp { secs, nanos: 123 }
}

const FIRST: &str = "c533af3183619dffb4f5e3c9178071475fb20ba7bc55571197d4fdf0f418d010";
const SECOND: &str = "0e518ec891771afb9dd56be334b816b581e3a35165df8f0cb9737741cd8850d8";
const CLOSING: &str = "0000005300000043f5447a58103a6368756e6b2d7369676e61747572650600200e518ec8\
                       91771afb9dd56be334b816b581e3a35165df8f0cb9737741cd8850d8053a64617465\
                       080000001cbe991df0ff86e1b1";

fn hex(bytes: &[u8]) -> String {
    bytes.iter().map(|byte| format!("{:02x}", byte)).collect()
}

#[test]
fn audio_message_has_three_headers() {
    let message = audio_message(b"opus".to_vec());
    let headers: Vec<(&str, &str)> = message
        .headers()
        .iter()
        .map(|header| (header.name().as_str(), header.value().as_string().unwrap().as_str()))
        .collect();
    assert_eq!(
        headers,
        vec![
            (":content-type", "application/octet-stream"),
            (":message-type", "event"),
            (":event-type", "AudioEvent"),
        ]
    );
    assert_eq!(message.payload().as_ref(), b"opus");
}

#[test]
fn frames_are_signed_one_after_the_other() {
    let mut signer = signer("seed");
    let frame = signer.sign(Some(b"opus".to_vec()), at(123_456_789)).unwrap();
    assert_eq!(frame.len(), 191);
    assert_eq!(signer.last_signature, FIRST);
    let closing = signer.sign(None, at(123_456_790)).unwrap();
    assert_eq!(signer.last_signature, SECOND);
    assert_eq!(hex(&closing), CLOSING);
}

#[test]
fn a_stream_can_be_taken_up_where_it_stands() {
    let mut resumed = signer(FIRST);
    let closing = resumed.sign(None, at(123_456_790)).unwrap();
    assert_eq!(hex(&closing), CLOSING);
}

#[test]
fn a_frame_wraps_the_audio() {
    let frame = signer("seed").sign(Some(b"opus".to_vec()), at(123_456_789)).unwrap();
    let signed = Message::read_from(&frame[..]).unwrap();
    assert_eq!(signed.headers().len(), 2);
    assert_eq!(signed.headers()[0].name().as_str(), ":chunk-signature");
    assert_eq!(hex(signed.headers()[0].value().as_byte_array().unwrap()), FIRST);
    assert_eq!(signed.headers()[1].name().as_str(), ":date");
    let date = signed.headers()[1].value().as_timestamp().unwrap();
    assert_eq!((date.secs(), date.subsec_nanos()), (123_456_789, 0));
    let message = Message::read_from(&signed.payload()[..]).unwrap();
    assert_eq!(message, audio_message(b"opus".to_vec()));
}

#[test]
fn the_closing_frame_is_empty() {
    let frame = signer("seed").sign(None, at(123_456_789)).unwrap();
    assert_eq!(frame.len(), 83);
    assert!(Message::read_from(&frame[..]).unwrap().payload().is_empty());
}

#[test]
fn an_empty_chunk_is_not_the_end() {
    let time = at(123_456_789);
    let empty = signer("seed").sign(Some(Vec::new()), time).unwrap();
    let end = signer("seed").sign(None, time).unwrap();
    assert_eq!(empty.len(), 187);
    assert_ne!(empty, end);
}

#[test]
fn no_date_after_the_year_9999() {
    assert!(check_signable(at(LAST_SIGNABLE_SECOND)));
    assert!(!check_signable(at(LAST_SIGNABLE_SECOND + 1)));
    assert!(!check_signable(Timestamp { secs: 0, nanos: 1_000_000_000 }));
    let mut signer = signer("seed");
    let audio = Some(b"opus".to_vec());
    assert_eq!(signer.sign(audio, at(LAST_SIGNABLE_SECOND + 1)), Err(FrameError::Clock));
    assert_eq!(signer.last_signature, "seed");
    assert!(signer.sign(None, at(LAST_SIGNABLE_SECOND)).is_ok());
}

#[test]
fn frames_are_dated_with_the_current_time() {
    let mut signer = signer("seed");
    let frame = signer.sign_now(Some(b"opus".to_vec())).unwrap();
    let signed = Message::read_from(&frame[..]).unwrap();
    let date = signed.headers()[1].value().as_timestamp().unwrap();
    assert!(date.secs() > 1_600_000_000);
    assert_ne!(signer.last_signature, "seed");
}

#[test]
fn frame_errors_say_what_is_wrong() {
    assert_eq!(FrameError::Clock.text(), "the clock shows a time that cannot be signed");
    assert_eq!(FrameError::TooLong.text(), "message too long to fit in event stream frame");
}
