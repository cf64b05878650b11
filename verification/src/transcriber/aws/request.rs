//! The request that opens a transcription stream.

use crate::text;
use crate::timestamp::Timestamp;
use crate::transcriber::aws::signing;
use crate::transcriber::aws::signing::{check_signable, Credentials, FrameSigner, SERVICE_NAME};
use aws_sigv4::http_request::{
    sign, PayloadChecksumKind, SignableBody, SignableRequest, SigningParams, SigningSettings,
};
use hyper::header::HeaderValue;
use hyper::{HeaderMap, Request};
use std::time::{Duration, UNIX_EPOCH};
use vstd::prelude::*;
use vstd::string::StringExecFns;

verus! {

/// What stands in place of the body's checksum where the body is a stream of signed
/// events.
pub const STREAMING_CHECKSUM: &'static str = "STREAMING-AWS4-HMAC-SHA256-EVENTS";

#[verifier::external_type_specification]
#[verifier::external_body]
#[verifier::reject_recursive_types(T)]
pub struct ExRequest<T>(hyper::Request<T>);

#[verifier::external_type_specification]
#[verifier::external_body]
#[verifier::reject_recursive_types(T)]
pub struct ExHeaderMap<T>(hyper::HeaderMap<T>);

#[verifier::external_type_specification]
#[verifier::external_body]
pub struct ExHeaderValue(hyper::header::HeaderValue);

#[verifier::external_type_specification]
#[verifier::external_body]
pub struct ExHttpError(hyper::http::Error);

/// A version of HTTP.
#[derive(Clone, Copy, Debug, PartialEq, Eq, Structural)]
pub enum HttpVersion {
    Http11,
    Http2,
}

/// A request without its body.
#[derive(Debug)]
pub struct RequestHead {
    pub version: HttpVersion,
    pub method: String,
    pub uri: String,
    pub headers: Vec<(String, String)>,
}

/// The names and the values of a list of headers.
pub open spec fn header_texts(headers: Seq<(String, String)>) -> Seq<(Seq<char>, Seq<char>)> {
    headers.map_values(|header: (String, String)| (header.0@, header.1@))
}

/// The host of the service in a region.
pub open spec fn host(region: Seq<char>) -> Seq<char> {
    "transcribestreaming."@ + region + ".amazonaws.com"@
}

/// Where streams are opened in a region.
pub open spec fn stream_uri(region: Seq<char>) -> Seq<char> {
    "https://"@ + host(region) + "/stream-transcription"@
}

/// The headers of the request before it is signed.
pub open spec fn stream_headers() -> Seq<(Seq<char>, Seq<char>)> {
    seq![
        ("content-type"@, "application/vnd.amazon.eventstream"@),
        ("x-amzn-transcribe-enable-partial-results-stabilization"@, "true"@),
        ("x-amzn-transcribe-partial-results-stability"@, "high"@),
        ("x-amzn-transcribe-language-code"@, "en-US"@),
        ("x-amzn-transcribe-media-encoding"@, "ogg-opus"@),
        ("x-amzn-transcribe-sample-rate"@, "48000"@),
        ("x-amz-target"@, "com.amazonaws.transcribe.Transcribe.StartStreamTranscription"@),
    ]
}

impl RequestHead {
    /// Whether this is the request that opens a stream in a region.
    pub open spec fn opens_stream(&self, region: Seq<char>) -> bool {
        &&& self.version == HttpVersion::Http2
        &&& self.method@ == "POST"@
        &&& self.uri@ == stream_uri(region)
        &&& header_texts(self.headers@) == stream_headers()
    }

    /// The request that opens a stream in a region.
    pub fn stream(region: &str) -> (head: RequestHead)
        ensures
            head.opens_stream(region@),
    {
        let uri = "https://".to_owned().concat("transcribestreaming.").concat(region).concat(
            ".amazonaws.com",
        ).concat("/stream-transcription");
        assert(uri@ =~= stream_uri(region@));
        let headers = vec![
            ("content-type".to_owned(), "application/vnd.amazon.eventstream".to_owned()),
            (
                "x-amzn-transcribe-enable-partial-results-stabilization".to_owned(),
                "true".to_owned(),
            ),
            ("x-amzn-transcribe-partial-results-stability".to_owned(), "high".to_owned()),
            ("x-amzn-transcribe-language-code".to_owned(), "en-US".to_owned()),
            ("x-amzn-transcribe-media-encoding".to_owned(), "ogg-opus".to_owned()),
            ("x-amzn-transcribe-sample-rate".to_owned(), "48000".to_owned()),
            (
                "x-amz-target".to_owned(),
                "com.amazonaws.transcribe.Transcribe.StartStreamTranscription".to_owned(),
            ),
        ];
        assert(header_texts(headers@) =~= stream_headers());
        RequestHead { version: HttpVersion::Http2, method: "POST".to_owned(), uri, headers }
    }
}

/// Whether a text can stand in the value of a header: it has no control character but
/// the tab.
pub open spec fn is_header_text(text: Seq<char>) -> bool {
    forall|i: int| 0 <= i < text.len() ==> is_header_char(#[trigger] text[i])
}

/// Whether a character can stand in the value of a header.
pub open spec fn is_header_char(c: char) -> bool {
    c as u32 >= 32 && c as u32 != 127 || c == '\t'
}

/// Whether a text can stand in the value of a header.
fn check_header_text(text: &str) -> (fits: bool)
    ensures
        fits == is_header_text(text@),
{
    for c in chars: text.chars()
        invariant
            chars.seq() == text@,
            forall|i: int| 0 <= i < chars.index() ==> is_header_char(#[trigger] text@[i]),
    {
        let fits = c as u32 >= 32 && c as u32 != 127 || c == '\t';
        if !fits {
            assert(!is_header_char(text@[chars.index() as int]));
            return false;
        }
    }
    true
}

/// A header that signs a request.
pub struct SigningHeader {
    pub name: String,
    pub value: Vec<u8>,
    /// Whether the value is to be kept out of logs.
    pub sensitive: bool,
}

/// The names and the values of a list of headers, and which of them are sensitive.
pub open spec fn header_bytes(headers: Seq<SigningHeader>) -> Seq<(Seq<char>, Seq<u8>, bool)> {
    headers.map_values(
        |header: SigningHeader| (header.name@, header.value@, header.sensitive),
    )
}

/// A list of headers with its values in UTF-8.
pub open spec fn encoded_values(headers: Seq<(Seq<char>, Seq<char>)>) -> Seq<
    (Seq<char>, Seq<u8>),
> {
    headers.map_values(
        |header: (Seq<char>, Seq<char>)| (header.0, vstd::utf8::encode_utf8(header.1)),
    )
}

/// The headers that a map holds, in the order in which `iter` walks them, and which of them
/// are marked as sensitive.
pub uninterp spec fn map_headers(map: HeaderMap<HeaderValue>) -> Seq<
    (Seq<char>, Seq<u8>, bool),
>;

/// The headers that a request without a body holds, in the order in which `iter` walks
/// them.
pub uninterp spec fn request_headers(request: Request<()>) -> Seq<(Seq<char>, Seq<u8>)>;

/// The method and the target that a request without a body holds. The target is written in
/// its absolute form, scheme and authority included, and is empty where it has no scheme.
pub uninterp spec fn request_line(request: Request<()>) -> (Seq<char>, Seq<char>);

/// The target that `hyper::Uri` makes of a text, written out again, or what its error
/// displays where the text is not a valid one.
pub uninterp spec fn parsed_uri(uri: Seq<char>) -> Result<Seq<char>, Seq<char>>;

/// Whether a text is made like the name of a region: of lowercase letters, digits and
/// hyphens.
pub open spec fn is_region_name(text: Seq<char>) -> bool {
    &&& text.len() <= 255
    &&& forall|i: int|
        0 <= i < text.len() ==> {
            ||| 'a' <= #[trigger] text[i] <= 'z'
            ||| '0' <= text[i] <= '9'
            ||| text[i] == '-'
        }
}

/// Puts a request together, by `hyper::Request::builder`.
///
/// The method and the headers of a request that opens a stream are valid, so that only
/// the target can be at fault, and the error is then that of the target. A valid target keeps its scheme. The target of a region
/// with an ordinary name is valid and stays as it is. The version of HTTP is left out, as it
/// does not enter into a signature.
#[verifier::external_body]
fn build_request(head: &RequestHead) -> (built: Result<Request<()>, hyper::http::Error>)
    requires
        exists|region: Seq<char>| head.opens_stream(region),
    ensures
        built is Ok <==> parsed_uri(head.uri@) is Ok,
        built matches Err(error) ==> text::displays_as(&error, parsed_uri(head.uri@)->Err_0),
        built matches Ok(request) ==> {
            &&& request_line(request) == (head.method@, parsed_uri(head.uri@)->Ok_0)
            &&& request_headers(request) == encoded_values(header_texts(head.headers@))
        },
        built matches Ok(request) ==> "https://"@.is_prefix_of(request_line(request).1),
        built is Err ==> forall|region: Seq<char>| #[trigger]
            head.opens_stream(region) ==> !is_region_name(region),
        built matches Ok(request) ==> forall|region: Seq<char>| #[trigger]
            head.opens_stream(region) && is_region_name(region) ==> request_line(request).1
                == head.uri@,
{
    let mut request = Request::builder().method(head.method.as_str()).uri(head.uri.as_str());
    for (name, value) in &head.headers {
        request = request.header(name, value);
    }
    request.body(())
}

/// The headers that `aws_sigv4` signs a request with and the signature that they hold, or
/// what its error displays where it rejects the request. `send_checksum` is whether the checksum is a header
/// of its own, and `secs` the second in which the request is signed.
pub uninterp spec fn request_signature(
    line: (Seq<char>, Seq<char>),
    headers: Seq<(Seq<char>, Seq<u8>)>,
    checksum: Seq<char>,
    send_checksum: bool,
    access_key: Seq<char>,
    secret_key: Seq<char>,
    region: Seq<char>,
    service: Seq<char>,
    secs: u64,
) -> Result<(Seq<(Seq<char>, Seq<u8>, bool)>, Seq<char>), Seq<char>>;

/// Whether some bytes are printable ASCII.
pub open spec fn is_printable(bytes: Seq<u8>) -> bool {
    forall|i: int| 0 <= i < bytes.len() ==> 32 <= #[trigger] bytes[i] < 127
}

/// Whether the values of some headers are printable ASCII.
pub open spec fn are_printable(headers: Seq<(Seq<char>, Seq<u8>)>) -> bool {
    forall|i: int| 0 <= i < headers.len() ==> is_printable((#[trigger] headers[i]).1)
}

/// Whether these are the date and the authorization of a request, which alone is sensitive,
/// and the checksum where it is a header of its own.
pub open spec fn are_signing_headers(
    headers: Seq<(Seq<char>, Seq<u8>, bool)>,
    checksum: Seq<char>,
    send_checksum: bool,
) -> bool {
    &&& headers.len() == if send_checksum {
        3int
    } else {
        2
    }
    &&& headers[0].0 == "x-amz-date"@ && !headers[0].2
    &&& headers[1].0 == "authorization"@ && headers[1].2
    &&& send_checksum ==> headers[2] == (
        "x-amz-content-sha256"@,
        vstd::utf8::encode_utf8(checksum),
        false,
    )
}

/// Signs a request, by `aws_sigv4::http_request::sign`. `send_checksum` is whether the
/// settings ask for the checksum as a header of its own.
///
/// The signing headers are the date, the authorization, which holds the signature and is
/// marked as sensitive, and the checksum as it was given if it was asked for. The signature
/// is made of hexadecimal digits. What the instant has below a whole second does not enter into the result. No
/// request is rejected whose headers and checksum are printable ASCII.
#[verifier::external_body]
fn sign_request(
    request: &Request<()>,
    checksum: &str,
    send_checksum: bool,
    keys: &Credentials,
    region: &str,
    service: &str,
    time: Timestamp,
) -> (signed: Result<(HeaderMap<HeaderValue>, String), String>)
    requires
        "https://"@.is_prefix_of(request_line(*request).1),
        request_headers(*request).len() <= 1000,
        is_header_text(checksum@),
        is_header_text(keys.access_key@),
        is_header_text(region@),
        is_header_text(service@),
        signing::is_signable(time),
    ensures
        ({
            let expected = request_signature(
                request_line(*request),
                request_headers(*request),
                checksum@,
                send_checksum,
                keys.access_key@,
                keys.secret_key@,
                region@,
                service@,
                time.secs,
            );
            match signed {
                Ok((headers, signature)) => {
                    &&& expected is Ok
                    &&& expected->Ok_0 == (map_headers(headers), signature@)
                },
                Err(error) => {
                    &&& expected is Err
                    &&& expected->Err_0 == error@
                },
            }
        }),
        signed matches Ok((_, signature)) ==> signing::is_signature(signature@),
        signed matches Ok((headers, _)) ==> are_signing_headers(
            map_headers(headers),
            checksum@,
            send_checksum,
        ),
        are_printable(request_headers(*request)) && is_printable(
            vstd::utf8::encode_utf8(checksum@),
        ) ==> signed is Ok,
{
    let mut settings = SigningSettings::default();
    settings.payload_checksum_kind = match send_checksum {
        true => PayloadChecksumKind::XAmzSha256,
        false => PayloadChecksumKind::NoHeader,
    };
    let params = SigningParams::builder().access_key(&keys.access_key).secret_key(&keys.secret_key);
    let params = params.region(region).service_name(service).settings(settings);
    let params = params.time(UNIX_EPOCH + Duration::new(time.secs, time.nanos)).build().unwrap();
    let body = SignableBody::Precomputed(checksum.to_owned());
    let signable = SignableRequest::new(request.method(), request.uri(), request.headers(), body);
    let (mut instructions, signature) =
        sign(signable, &params).map_err(|error| error.to_string())?.into_parts();
    Ok((instructions.take_headers().unwrap_or_default(), signature))
}

/// Lists the headers of a map, by `HeaderMap::iter`. Whether a header is sensitive is what
/// `HeaderValue::is_sensitive` says.
#[verifier::external_body]
fn list_headers(map: &HeaderMap<HeaderValue>) -> (headers: Vec<SigningHeader>)
    ensures
        header_bytes(headers@) == map_headers(*map),
{
    let list = map.iter().map(|(name, value)| SigningHeader {
        name: name.to_string(),
        value: value.as_bytes().to_vec(),
        sensitive: value.is_sensitive(),
    });
    list.collect()
}

/// Why a stream could not be opened.
#[derive(Debug)]
pub enum RequestError {
    /// There is no valid target for the region.
    Target(hyper::http::Error),
    /// The clock shows an instant that no signature can be dated with.
    Clock,
    /// The region has a character that cannot stand in a header.
    Region,
    /// The access key has a character that cannot stand in a header.
    AccessKey,
    /// The request cannot be signed.
    Signing(String),
}

impl RequestError {
    /// Whether a text says what is wrong. Of a target it is what the error of `hyper`
    /// displays.
    pub open spec fn is_told_by(&self, text: String) -> bool {
        match self {
            RequestError::Target(error) => vstd::string::to_string_from_display_ensures(
                error,
                text,
            ),
            RequestError::Clock => text@ == "the clock shows a time that cannot be signed"@,
            RequestError::Region => text@ == "the region cannot stand in a header"@,
            RequestError::AccessKey => text@ == "the access key cannot stand in a header"@,
            RequestError::Signing(error) => text@ == "failed to sign request: "@ + error@,
        }
    }

    /// Says what is wrong.
    pub fn text(&self) -> (text: String)
        ensures
            self.is_told_by(text),
    {
        match self {
            RequestError::Target(error) => error.to_string(),
            RequestError::Clock => "the clock shows a time that cannot be signed".to_owned(),
            RequestError::Region => "the region cannot stand in a header".to_owned(),
            RequestError::AccessKey => "the access key cannot stand in a header".to_owned(),
            RequestError::Signing(error) => "failed to sign request: ".to_owned().concat(
                error.as_str(),
            ),
        }
    }
}

/// A signed request, and what signs the frames of the stream that it opens.
pub struct SignedRequest {
    pub head: RequestHead,
    /// The headers to set on the request beside those of its head.
    pub signing_headers: Vec<SigningHeader>,
    pub signer: FrameSigner,
}

/// What signing the request that opens a stream in a region comes to, if it is signed
/// within the given second and its target is valid.
pub open spec fn stream_request_signature(
    credentials: Credentials,
    region: Seq<char>,
    secs: u64,
) -> Result<(Seq<(Seq<char>, Seq<u8>, bool)>, Seq<char>), Seq<char>> {
    request_signature(
        ("POST"@, parsed_uri(stream_uri(region))->Ok_0),
        encoded_values(stream_headers()),
        STREAMING_CHECKSUM@,
        true,
        credentials.access_key@,
        credentials.secret_key@,
        region,
        SERVICE_NAME@,
        secs,
    )
}

/// What opening a stream at the given instant comes to.
pub open spec fn opens(
    region: String,
    credentials: Credentials,
    time: Timestamp,
    opened: Result<SignedRequest, RequestError>,
) -> bool {
    let signature = stream_request_signature(credentials, region@, time.secs);
    match opened {
        Err(RequestError::Target(error)) => {
            &&& parsed_uri(stream_uri(region@)) is Err
            &&& text::displays_as(&error, parsed_uri(stream_uri(region@))->Err_0)
        },
        Err(RequestError::Clock) => {
            &&& parsed_uri(stream_uri(region@)) is Ok
            &&& !signing::is_signable(time)
        },
        Err(RequestError::Region) => {
            &&& parsed_uri(stream_uri(region@)) is Ok
            &&& signing::is_signable(time)
            &&& !is_header_text(region@)
        },
        Err(RequestError::AccessKey) => {
            &&& parsed_uri(stream_uri(region@)) is Ok
            &&& signing::is_signable(time)
            &&& is_header_text(region@)
            &&& !is_header_text(credentials.access_key@)
        },
        Err(RequestError::Signing(error)) => {
            &&& parsed_uri(stream_uri(region@)) is Ok
            &&& signing::is_signable(time)
            &&& is_header_text(region@)
            &&& is_header_text(credentials.access_key@)
            &&& signature is Err
            &&& signature->Err_0 == error@
        },
        Ok(request) => {
            &&& parsed_uri(stream_uri(region@)) is Ok
            &&& signing::is_signable(time)
            &&& is_header_text(region@)
            &&& is_header_text(credentials.access_key@)
            &&& request.head.opens_stream(region@)
            &&& signature is Ok
            &&& signature->Ok_0 == (
                header_bytes(request.signing_headers@),
                request.signer.last_signature@,
            )
            &&& are_signing_headers(
                header_bytes(request.signing_headers@),
                STREAMING_CHECKSUM@,
                true,
            )
            &&& signing::is_signature(request.signer.last_signature@)
            &&& request.signer.credentials == credentials
            &&& request.signer.region == region
        },
    }
}

/// The checksum of a stream of events and the name of the service can stand in a header.
proof fn lemma_constants_are_header_texts()
    ensures
        is_header_text(STREAMING_CHECKSUM@),
        is_printable(vstd::utf8::encode_utf8(STREAMING_CHECKSUM@)),
        is_header_text(SERVICE_NAME@),
{
    reveal_strlit("STREAMING-AWS4-HMAC-SHA256-EVENTS");
    reveal_strlit("transcribe");
    lemma_printable(STREAMING_CHECKSUM@);
}

/// Printable ASCII stays printable in UTF-8.
proof fn lemma_printable(text: Seq<char>)
    requires
        forall|i: int| 0 <= i < text.len() ==> ' ' <= #[trigger] text[i] <= '~',
    ensures
        is_printable(vstd::utf8::encode_utf8(text)),
{
    vstd::utf8::is_ascii_chars_encode_utf8(text);
    assert forall|i: int| 0 <= i < text.len() implies 32 <= #[trigger] vstd::utf8::encode_utf8(
        text,
    )[i] < 127 by {
        assert(text[i] as u8 == vstd::utf8::encode_utf8(text)[i]);
    }
}

/// The headers of the request are printable.
proof fn lemma_stream_headers_are_printable()
    ensures
        are_printable(encoded_values(stream_headers())),
{
    reveal_strlit("application/vnd.amazon.eventstream");
    reveal_strlit("true");
    reveal_strlit("high");
    reveal_strlit("en-US");
    reveal_strlit("ogg-opus");
    reveal_strlit("48000");
    reveal_strlit("com.amazonaws.transcribe.Transcribe.StartStreamTranscription");
    lemma_printable("application/vnd.amazon.eventstream"@);
    lemma_printable("true"@);
    lemma_printable("high"@);
    lemma_printable("en-US"@);
    lemma_printable("ogg-opus"@);
    lemma_printable("48000"@);
    lemma_printable("com.amazonaws.transcribe.Transcribe.StartStreamTranscription"@);
}

/// The name of a region can stand in a header.
proof fn lemma_region_name_is_header_text(region: Seq<char>)
    requires
        is_region_name(region),
    ensures
        is_header_text(region),
{
}

/// Whether nothing stands in the way of a stream that is opened at the given instant.
pub open spec fn is_openable(region: String, credentials: Credentials, time: Timestamp) -> bool {
    &&& is_region_name(region@)
    &&& is_header_text(credentials.access_key@)
    &&& signing::is_signable(time)
}

/// Opens a stream in a region: puts the request together, signs it, and makes the signer
/// of its frames, which starts from the signature of the request.
pub fn open_stream(region: String, credentials: Credentials, time: Timestamp) -> (opened: Result<
    SignedRequest,
    RequestError,
>)
    ensures
        opens(region, credentials, time, opened),
        is_openable(region, credentials, time) ==> opened is Ok && parsed_uri(stream_uri(region@))
            == Ok::<Seq<char>, Seq<char>>(stream_uri(region@)),
{
    proof {
        if is_region_name(region@) {
            lemma_region_name_is_header_text(region@);
        }
    }
    let head = RequestHead::stream(region.as_str());
    let request = match build_request(&head) {
        Ok(request) => request,
        Err(error) => {
            return Err(RequestError::Target(error));
        },
    };
    if !check_signable(time) {
        return Err(RequestError::Clock);
    }
    if !check_header_text(region.as_str()) {
        return Err(RequestError::Region);
    }
    if !check_header_text(credentials.access_key.as_str()) {
        return Err(RequestError::AccessKey);
    }
    proof {
        lemma_constants_are_header_texts();
        lemma_stream_headers_are_printable();
    }
    let signed = sign_request(
        &request,
        STREAMING_CHECKSUM,
        true,
        &credentials,
        region.as_str(),
        SERVICE_NAME,
        time,
    );
    match signed {
        Ok((headers, signature)) => {
            let signing_headers = list_headers(&headers);
            let signer = FrameSigner::new(credentials, region, signature);
            Ok(SignedRequest { head, signing_headers, signer })
        },
        Err(error) => Err(RequestError::Signing(error)),
    }
}

/// Opens a stream as `open_stream` does, dated with the current time.
pub fn open_stream_now(region: String, credentials: Credentials) -> (opened: Result<
    SignedRequest,
    RequestError,
>)
    ensures
        exists|time: Timestamp|
            {
                &&& time.is_clock_reading()
                &&& time.nanos < 1_000_000_000
                &&& #[trigger] opens(region, credentials, time, opened)
                &&& is_openable(region, credentials, time) ==> opened is Ok
            },
{
    broadcast use crate::timestamp::law_clock_readings_are_read;

    let time = Timestamp::now();
    open_stream(region, credentials, time)
}

/// The region to open a stream in: the one that was asked for, or none.
pub fn stream_region(region: Option<&str>) -> (name: String)
    ensures
        name@ == match region {
            Some(region) => region@,
            None => Seq::empty(),
        },
{
    match region {
        Some(region) => region.to_owned(),
        None => String::new(),
    }
}

/// The first frame of a stream is signed together with the signature of the request that
/// opened it.
pub proof fn law_first_frame_follows_the_request(
    region: String,
    credentials: Credentials,
    opening: Timestamp,
    request: SignedRequest,
    after: FrameSigner,
    audio: Option<Seq<u8>>,
    time: Timestamp,
    frame: Vec<u8>,
)
    requires
        opens(region, credentials, opening, Ok(request)),
        request.signer.signs(after, audio, time, Ok(frame)),
    ensures
        after.last_signature@ == signing::stream_signature(
            credentials.secret_key@,
            region@,
            stream_request_signature(credentials, region@, opening.secs)->Ok_0.1,
            seq![(audio, time.secs)],
        ),
{
    let seed = request.signer.last_signature@;
    let none = Seq::<(Option<Seq<u8>>, u64)>::empty();
    signing::law_signing_extends_the_stream(
        request.signer,
        after,
        seed,
        none,
        audio,
        time,
        Ok(frame),
    );
    assert(none.push((audio, time.secs)) =~= seq![(audio, time.secs)]);
}

/// What can stand in a header is every text without control characters but the tab: any letter,
/// also beyond ASCII, any sign and the space.
pub proof fn law_header_texts(text: Seq<char>)
    ensures
        is_header_text(text) <==> forall|i: int|
            0 <= i < text.len() ==> (#[trigger] text[i]) as int == 9 || text[i] as int >= 32
                && text[i] as int != 127,
{
    assert forall|i: int| 0 <= i < text.len() implies (is_header_char(#[trigger] text[i]) <==> (
    text[i] as int == 9 || text[i] as int >= 32 && text[i] as int != 127)) by {
        law_header_char(text[i]);
    }
}

/// A character can stand in a header unless it is a control character other than the tab.
pub proof fn law_header_char(c: char)
    ensures
        is_header_char(c) <==> c as int == 9 || c as int >= 32 && c as int != 127,
{
}

/// Texts that can stand in a header can do so together, and in part.
pub proof fn law_header_texts_add_up(text: Seq<char>, more: Seq<char>)
    ensures
        is_header_text(text + more) <==> is_header_text(text) && is_header_text(more),
{
    let both = text + more;
    if is_header_text(both) {
        assert forall|i: int| 0 <= i < text.len() implies is_header_char(#[trigger] text[i]) by {
            assert(is_header_char(both[i]));
        }
        assert forall|i: int| 0 <= i < more.len() implies is_header_char(#[trigger] more[i]) by {
            assert(is_header_char(both[text.len() + i]));
        }
    }
}

/// The request that opens a stream is an HTTP/2 POST to the service's host in the region, with
/// seven headers that are the same for every region.
pub proof fn law_stream_request(head: RequestHead, region: Seq<char>)
    requires
        head.opens_stream(region),
    ensures
        head.version == HttpVersion::Http2,
        head.method@ == "POST"@,
        head.uri@.len() == 28 + region.len() + 35,
        head.uri@.take(28) == "https://transcribestreaming."@,
        head.uri@.subrange(28, 28 + region.len() as int) == region,
        head.uri@.skip(28 + region.len() as int) == ".amazonaws.com/stream-transcription"@,
        head.headers@.len() == 7,
        ({
            let names = Seq::new(7, |i: int| head.headers@[i].0@);
            let values = Seq::new(7, |i: int| head.headers@[i].1@);
            &&& names == seq![
                "content-type"@,
                "x-amzn-transcribe-enable-partial-results-stabilization"@,
                "x-amzn-transcribe-partial-results-stability"@,
                "x-amzn-transcribe-language-code"@,
                "x-amzn-transcribe-media-encoding"@,
                "x-amzn-transcribe-sample-rate"@,
                "x-amz-target"@,
            ]
            &&& values == seq![
                "application/vnd.amazon.eventstream"@,
                "true"@,
                "high"@,
                "en-US"@,
                "ogg-opus"@,
                "48000"@,
                "com.amazonaws.transcribe.Transcribe.StartStreamTranscription"@,
            ]
        }),
{
    lemma_stream_uri(region);
    assert(header_texts(head.headers@).len() == 7);
    let texts = header_texts(head.headers@);
    assert forall|i: int| 0 <= i < 7 implies #[trigger] head.headers@[i].0@
        == stream_headers()[i].0 && head.headers@[i].1@ == stream_headers()[i].1 by {
        assert(texts[i] == (head.headers@[i].0@, head.headers@[i].1@));
    }
    assert(Seq::new(7, |i: int| head.headers@[i].0@) =~= seq![
        "content-type"@,
        "x-amzn-transcribe-enable-partial-results-stabilization"@,
        "x-amzn-transcribe-partial-results-stability"@,
        "x-amzn-transcribe-language-code"@,
        "x-amzn-transcribe-media-encoding"@,
        "x-amzn-transcribe-sample-rate"@,
        "x-amz-target"@,
    ]);
    assert(Seq::new(7, |i: int| head.headers@[i].1@) =~= seq![
        "application/vnd.amazon.eventstream"@,
        "true"@,
        "high"@,
        "en-US"@,
        "ogg-opus"@,
        "48000"@,
        "com.amazonaws.transcribe.Transcribe.StartStreamTranscription"@,
    ]);
}

/// The parts that the target of a stream is made of.
proof fn lemma_stream_uri(region: Seq<char>)
    ensures
        stream_uri(region).len() == 28 + region.len() + 35,
        stream_uri(region).take(28) == "https://transcribestreaming."@,
        stream_uri(region).subrange(28, 28 + region.len() as int) == region,
        stream_uri(region).skip(28 + region.len() as int)
            == ".amazonaws.com/stream-transcription"@,
{
    reveal_strlit("https://");
    reveal_strlit("transcribestreaming.");
    reveal_strlit(".amazonaws.com");
    reveal_strlit("/stream-transcription");
    reveal_strlit("https://transcribestreaming.");
    reveal_strlit(".amazonaws.com/stream-transcription");
    assert(stream_uri(region).take(28) =~= "https://transcribestreaming."@);
    assert(stream_uri(region).subrange(28, 28 + region.len() as int) =~= region);
    assert(stream_uri(region).skip(28 + region.len() as int)
        =~= ".amazonaws.com/stream-transcription"@);
}

/// Every region that is named by lowercase letters, digits and hyphens, or not at all, can be
/// opened with every key that has no control characters, at every instant that can be dated.
pub proof fn law_ordinary_streams_are_openable(
    region: String,
    credentials: Credentials,
    time: Timestamp,
)
    requires
        region@.len() < 256,
        forall|i: int|
            0 <= i < region@.len() ==> 'a' <= #[trigger] region@[i] <= 'z' || '0' <= region@[i]
                <= '9' || region@[i] == '-',
        forall|i: int|
            0 <= i < credentials.access_key@.len() ==> {
                let c = (#[trigger] credentials.access_key@[i]) as int;
                c >= 32 && c != 127
            },
        time.secs < 2_932_897 * 86_400,
        time.nanos < 1_000_000_000,
    ensures
        is_openable(region, credentials, time),
{
    law_header_texts(credentials.access_key@);
}

/// A stream is opened if its target is valid, it can be dated, region and key can stand in a
/// header and the request can be signed; and if it is not, then for the first of these that does
/// not hold.
pub proof fn law_streams_open_unless_something_is_wrong(
    region: String,
    credentials: Credentials,
    time: Timestamp,
    opened: Result<SignedRequest, RequestError>,
)
    requires
        opens(region, credentials, time, opened),
    ensures
        ({
            let target = parsed_uri(stream_uri(region@));
            let dated = time.secs < 2_932_897 * 86_400 && time.nanos < 1_000_000_000;
            let bad = |c: char| c as int != 9 && (c as int == 127 || (c as int) < 32);
            let region_fits = forall|i: int|
                0 <= i < region@.len() ==> !bad(#[trigger] region@[i]);
            let key_fits = forall|i: int|
                0 <= i < credentials.access_key@.len() ==> !bad(
                    #[trigger] credentials.access_key@[i],
                );
            let signature = stream_request_signature(credentials, region@, time.secs);
            &&& (opened matches Err(RequestError::Target(_))) <==> target is Err
            &&& (opened matches Err(RequestError::Clock)) <==> target is Ok && !dated
            &&& (opened matches Err(RequestError::Region)) <==> target is Ok && dated && !region_fits
            &&& (opened matches Err(RequestError::AccessKey)) <==> target is Ok && dated
                && region_fits && !key_fits
            &&& (opened matches Err(RequestError::Signing(_))) <==> target is Ok && dated
                && region_fits && key_fits && signature is Err
            &&& opened is Ok <==> target is Ok && dated && region_fits && key_fits
                && signature is Ok
        }),
{
    law_header_texts(region@);
    law_header_texts(credentials.access_key@);
    let bad = |c: char| c as int != 9 && (c as int == 127 || (c as int) < 32);
    assert(is_header_text(region@) <==> forall|i: int|
        0 <= i < region@.len() ==> !bad(#[trigger] region@[i]));
    assert(is_header_text(credentials.access_key@) <==> forall|i: int|
        0 <= i < credentials.access_key@.len() ==> !bad(#[trigger] credentials.access_key@[i]));
}

/// An opened stream has the request for its region, and what signs its frames has the key pair,
/// the region and the signature of the request. The signing headers are the date, the
/// authorization and the checksum that stands for a stream of events, and only the authorization
/// is kept out of logs.
pub proof fn law_opened_streams_are_signed(
    region: String,
    credentials: Credentials,
    time: Timestamp,
    request: SignedRequest,
)
    requires
        opens(region, credentials, time, Ok(request)),
    ensures
        request.head.opens_stream(region@),
        request.signer.credentials == credentials,
        request.signer.region == region,
        request.signing_headers@.len() == 3,
        request.signing_headers@[0].name@ == "x-amz-date"@,
        request.signing_headers@[1].name@ == "authorization"@,
        request.signing_headers@[2].name@ == "x-amz-content-sha256"@,
        request.signing_headers@[2].value@ == vstd::utf8::encode_utf8(
            "STREAMING-AWS4-HMAC-SHA256-EVENTS"@,
        ),
        !request.signing_headers@[0].sensitive,
        request.signing_headers@[1].sensitive,
        !request.signing_headers@[2].sensitive,
        ({
            let signed = request_signature(
                ("POST"@, parsed_uri(request.head.uri@)->Ok_0),
                encoded_values(header_texts(request.head.headers@)),
                "STREAMING-AWS4-HMAC-SHA256-EVENTS"@,
                true,
                credentials.access_key@,
                credentials.secret_key@,
                region@,
                "transcribe"@,
                time.secs,
            );
            &&& signed is Ok
            &&& signed->Ok_0.0 == request.signing_headers@.map_values(
                |header: SigningHeader| (header.name@, header.value@, header.sensitive),
            )
            &&& signed->Ok_0.1 == request.signer.last_signature@
        }),
{
    let headers = header_bytes(request.signing_headers@);
    assert(headers[0].0 == request.signing_headers@[0].name@);
    assert(headers[1].0 == request.signing_headers@[1].name@);
    assert(headers[2].0 == request.signing_headers@[2].name@);
    assert(headers =~= request.signing_headers@.map_values(
        |header: SigningHeader| (header.name@, header.value@, header.sensitive),
    ));
}

/// What is said of a request that could not be made names what is wrong, and of one that could
/// not be signed it ends with the reason.
pub proof fn law_request_errors_are_told(error: RequestError, text: String)
    requires
        error.is_told_by(text),
    ensures
        error is Clock ==> text@ == "the clock shows a time that cannot be signed"@,
        error is Region ==> text@ == "the region cannot stand in a header"@,
        error is AccessKey ==> text@ == "the access key cannot stand in a header"@,
        error matches RequestError::Signing(reason) ==> {
            &&& text@.len() == 24 + reason@.len()
            &&& text@.take(24) == "failed to sign request: "@
            &&& text@.skip(24) == reason@
        },
        error matches RequestError::Target(reason) ==> forall|shown: Seq<char>|
            #[trigger] text::displays_as(&reason, shown) ==> text@ == shown,
{
    reveal_strlit("failed to sign request: ");
    if let RequestError::Signing(reason) = error {
        assert(text@.take(24) =~= "failed to sign request: "@);
        assert(text@.skip(24) =~= reason@);
    }
}

/// A target that is not valid is told by its fault, and a request that cannot be signed by the
/// reason.
pub proof fn law_request_faults_are_handed_on(
    region: String,
    credentials: Credentials,
    time: Timestamp,
    opened: Result<SignedRequest, RequestError>,
    said: String,
)
    requires
        opens(region, credentials, time, opened),
        opened matches Err(error) && error.is_told_by(said),
    ensures
        opened matches Err(RequestError::Target(_)) ==> said@ == parsed_uri(
            stream_uri(region@),
        )->Err_0,
        opened matches Err(RequestError::Signing(_)) ==> said@ == "failed to sign request: "@
            + stream_request_signature(credentials, region@, time.secs)->Err_0,
{
}

/// A stream is opened in the region that was asked for, as it was written, and in none where
/// none was.
pub proof fn law_stream_region(region: Option<&str>, name: String)
    requires
        call_ensures(stream_region, (region,), name),
    ensures
        region matches Some(region) ==> name@ == region@,
        region is None ==> name@.len() == 0,
{
}

/// What a stream is opened with is the request for the region, signed at the given instant; and
/// in an ordinary region, with an ordinary key, at an instant that can be dated, it succeeds.
pub proof fn law_streams_open(
    region: String,
    credentials: Credentials,
    time: Timestamp,
    opened: Result<SignedRequest, RequestError>,
)
    requires
        call_ensures(open_stream, (region, credentials, time), opened),
    ensures
        opens(region, credentials, time, opened),
        is_openable(region, credentials, time) ==> opened is Ok,
        opened matches Ok(request) ==> request.head.opens_stream(region@),
{
}

/// A stream that is opened now is dated and signed with what the clock showed.
pub proof fn law_streams_are_dated_by_the_clock(
    region: String,
    credentials: Credentials,
    opened: Result<SignedRequest, RequestError>,
)
    requires
        call_ensures(open_stream_now, (region, credentials), opened),
    ensures
        opened matches Ok(request) ==> exists|time: Timestamp| #[trigger]
            time.is_clock_reading() && {
                let signed = stream_request_signature(credentials, region@, time.secs);
                &&& signed is Ok
                &&& signed->Ok_0.0 == header_bytes(request.signing_headers@)
                &&& signed->Ok_0.1 == request.signer.last_signature@
            },
        opened matches Err(RequestError::Clock) ==> exists|time: Timestamp| #[trigger]
            time.is_clock_reading() && time.secs >= 2_932_897 * 86_400,
{
    let time = choose|time: Timestamp|
        {
            &&& time.is_clock_reading()
            &&& time.nanos < 1_000_000_000
            &&& #[trigger] opens(region, credentials, time, opened)
            &&& is_openable(region, credentials, time) ==> opened is Ok
        };
    assert(time.is_clock_reading());
    assert(opens(region, credentials, time, opened));
}

/// What a signature of the request that opens a stream covers: the target and the headers of the
/// request, the checksum that stands for a stream of events, the key pair, the region, the
/// service and the second of signing.
pub proof fn law_request_signatures_cover_the_request(
    credentials: Credentials,
    region: Seq<char>,
    secs: u64,
)
    ensures
        stream_request_signature(credentials, region, secs) == request_signature(
            ("POST"@, parsed_uri(stream_uri(region))->Ok_0),
            encoded_values(stream_headers()),
            "STREAMING-AWS4-HMAC-SHA256-EVENTS"@,
            true,
            credentials.access_key@,
            credentials.secret_key@,
            region,
            "transcribe"@,
            secs,
        ),
        encoded_values(stream_headers()).len() == 7,
        forall|i: int|
            0 <= i < 7 ==> {
                &&& (#[trigger] encoded_values(stream_headers())[i]).0 == stream_headers()[i].0
                &&& encoded_values(stream_headers())[i].1 == vstd::utf8::encode_utf8(
                    stream_headers()[i].1,
                )
            },
{
}

} // verus!
