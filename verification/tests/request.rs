//! The request that opens a stream.

use regasi::timestamp::Timestamp;
use regasi::transcriber::aws::request::{
    open_stream, open_stream_now, stream_region, HttpVersion, RequestError, RequestHead,
    SignedRequest,
};
use regasi::transcriber::aws::signing::{Credentials, LAST_SIGNABLE_SECOND};

fn credentials(access_key: &str) -> Credentials {
    Credentials { access_key: access_key.to_owned(), secret_key: "fake secret key".to_owned() }
}

fn open(region: &str, access_key: &str, secs: u64) -> Result<SignedRequest, RequestError> {
    open_stream(region.to_owned(), credentials(access_key), Timestamp { secs, nanos: 5 })
}

const SIGNATURE: &str = "50bcd535ea4786ee2bd716361b914b5550290e66af693cc3b6c497bfa12f8785";

#[test]
fn the_head_names_the_region() {
    let head = RequestHead::stream("us-east-1");
    assert_eq!(head.version, HttpVersion::Http2);
    assert_eq!(head.method, "POST");
    assert_eq!(
        head.uri,
        "https://transcribestreaming.us-east-1.amazonaws.com/stream-transcription"
    );
    let headers: Vec<(&str, &str)> =
        head.headers.iter().map(|(name, value)| (name.as_str(), value.as_str())).collect();
    assert_eq!(
        headers,
        vec![
            ("content-type", "application/vnd.amazon.eventstream"),
            ("x-amzn-transcribe-enable-partial-results-stabilization", "true"),
            ("x-amzn-transcribe-partial-results-stability", "high"),
            ("x-amzn-transcribe-language-code", "en-US"),
            ("x-amzn-transcribe-media-encoding", "ogg-opus"),
            ("x-amzn-transcribe-sample-rate", "48000"),
            ("x-amz-target", "com.amazonaws.transcribe.Transcribe.StartStreamTranscription"),
        ]
    );
}

#[test]
fn the_request_is_signed() {
    let request = open("eu-west-1", "fake access key", 123_456_789).unwrap();
    assert_eq!(request.signer.last_signature, SIGNATURE);
    assert_eq!(request.signer.region, "eu-west-1");
    assert_eq!(request.signer.credentials.access_key, "fake access key");
    let header = |name: &str| {
        let found = request.signing_headers.iter().find(|header| header.name == name);
        String::from_utf8(found.unwrap().value.clone()).unwrap()
    };
    assert_eq!(request.signing_headers.len(), 3);
    assert_eq!(header("x-amz-date"), "19731129T213309Z");
    assert_eq!(header("x-amz-content-sha256"), "STREAMING-AWS4-HMAC-SHA256-EVENTS");
    assert_eq!(
        header("authorization"),
        format!(
            "AWS4-HMAC-SHA256 Credential=fake access key/19731129/eu-west-1/transcribe/aws4_request, \
             SignedHeaders=content-type;host;x-amz-content-sha256;x-amz-date;x-amz-target;\
             x-amzn-transcribe-enable-partial-results-stabilization;\
             x-amzn-transcribe-language-code;x-amzn-transcribe-media-encoding;\
             x-amzn-transcribe-partial-results-stability;x-amzn-transcribe-sample-rate, \
             Signature={}",
            SIGNATURE
        )
    );
}

#[test]
fn the_first_frame_follows_the_request() {
    let mut request = open("eu-west-1", "fake access key", 123_456_789).unwrap();
    let time = Timestamp { secs: 123_456_790, nanos: 0 };
    let first = request.signer.sign(None, time).unwrap();
    let mut other = open("eu-west-1", "fake access key", 123_456_788).unwrap();
    assert_ne!(other.signer.last_signature, SIGNATURE);
    assert_ne!(other.signer.sign(None, time).unwrap(), first);
}

#[test]
fn a_region_must_fit_a_header() {
    assert!(matches!(open("a#\u{7f}", "key", 1), Err(RequestError::Region)));
    assert!(matches!(open("a#\n", "key\n", 1), Err(RequestError::Region)));
}

#[test]
fn an_access_key_must_fit_a_header() {
    assert!(matches!(open("eu-west-1", "key\r", 1), Err(RequestError::AccessKey)));
    assert!(open("eu-west-1", "k\u{e9}y\t", 1).is_ok());
}

#[test]
fn a_region_must_make_a_target() {
    assert!(matches!(open("eu west", "key", 1), Err(RequestError::Target(_))));
    assert!(matches!(open("eu\nwest", "key\n", u64::MAX), Err(RequestError::Target(_))));
}

#[test]
fn a_region_may_be_left_out() {
    assert_eq!(stream_region(Some("eu-west-1")), "eu-west-1");
    assert_eq!(stream_region(None), "");
    let request = open("", "key", 1).unwrap();
    assert_eq!(
        request.head.uri,
        "https://transcribestreaming..amazonaws.com/stream-transcription"
    );
}

#[test]
fn no_request_after_the_year_9999() {
    assert!(matches!(open("r", "key", LAST_SIGNABLE_SECOND + 1), Err(RequestError::Clock)));
    assert!(open("r", "key", LAST_SIGNABLE_SECOND).is_ok());
}

#[test]
fn the_request_is_dated_with_the_current_time() {
    let request = open_stream_now("eu-west-1".to_owned(), credentials("key")).unwrap();
    let date = request.signing_headers.iter().find(|header| header.name == "x-amz-date").unwrap();
    assert!(date.value.as_slice() > &b"20200101T000000Z"[..]);
}

#[test]
fn only_the_authorization_is_sensitive() {
    let request = open("eu-west-1", "key", 1).unwrap();
    let marks: Vec<(&str, bool)> =
        request.signing_headers.iter().map(|header| (header.name.as_str(), header.sensitive)).collect();
    assert_eq!(
        marks,
        vec![("x-amz-date", false), ("authorization", true), ("x-amz-content-sha256", false)]
    );
}

fn request_text(opened: Result<SignedRequest, RequestError>) -> String {
    match opened {
        Ok(_) => panic!("opened"),
        Err(error) => error.text(),
    }
}

#[test]
fn request_errors_say_what_is_wrong() {
    assert_eq!(request_text(open("eu west", "key", 1)), "invalid uri character");
    assert_eq!(
        request_text(open("r", "key", u64::MAX)),
        "the clock shows a time that cannot be signed"
    );
    assert_eq!(request_text(open("a#\n", "key", 1)), "the region cannot stand in a header");
    assert_eq!(request_text(open("r", "\n", 1)), "the access key cannot stand in a header");
    assert_eq!(
        RequestError::Signing("no".to_owned()).text(),
        "failed to sign request: no"
    );
}
