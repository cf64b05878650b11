//! The signed frames that carry a participant's audio to the service.
//!
//! Every frame is signed together with the signature of the frame before it, and the
//! first one together with the signature of the request that opened the stream. A frame
//! without audio closes the stream.

use crate::timestamp::Timestamp;
use crate::transcriber::aws::eventstream;
use crate::transcriber::aws::eventstream::{
    add_text_header, new_message, write_message, HeaderContent,
};
use aws_sigv4::event_stream::SigningParams;
use aws_smithy_eventstream::frame::Message;
use std::time::{Duration, SystemTime};
use vstd::prelude::*;

verus! {

/// The service that requests and frames are signed for.
pub const SERVICE_NAME: &'static str = "transcribe";

/// The last second that has a date to sign with: the end of the year 9999.
pub const LAST_SIGNABLE_SECOND: u64 = 253_402_300_799;

/// The most audio that fits the message inside a frame.
pub const MAX_MESSAGE_AUDIO: u64 = 0xffff_ffff - 104;

/// The most audio that fits a signed frame.
pub const MAX_FRAME_AUDIO: u64 = 0xffff_ffff - 187;

/// The key pair of an AWS account.
pub struct Credentials {
    pub access_key: String,
    pub secret_key: String,
}

/// Why a frame could not be signed.
#[derive(Clone, Copy, Debug, PartialEq, Eq, Structural)]
pub enum FrameError {
    /// The clock shows an instant that no signature can be dated with.
    Clock,
    /// The audio does not fit a frame.
    TooLong,
}

impl FrameError {
    /// Says what is wrong.
    pub fn text(&self) -> (text: String)
        ensures
            text@ == match self {
                FrameError::Clock => "the clock shows a time that cannot be signed"@,
                FrameError::TooLong => "message too long to fit in event stream frame"@,
            },
    {
        match self {
            FrameError::Clock => "the clock shows a time that cannot be signed".to_owned(),
            FrameError::TooLong => "message too long to fit in event stream frame".to_owned(),
        }
    }
}

/// Whether a signature can be dated with the given instant.
pub open spec fn is_signable(time: Timestamp) -> bool {
    time.secs <= LAST_SIGNABLE_SECOND && time.nanos < 1_000_000_000
}

/// Whether a signature can be dated with the given instant.
pub fn check_signable(time: Timestamp) -> (signable: bool)
    ensures
        signable == is_signable(time),
{
    time.secs <= LAST_SIGNABLE_SECOND && time.nanos < 1_000_000_000
}

/// The bytes of an optional buffer.
pub open spec fn option_bytes(bytes: Option<Vec<u8>>) -> Option<Seq<u8>> {
    match bytes {
        Some(bytes) => Some(bytes@),
        None => None,
    }
}

/// The signature that `aws_sigv4` gives to a frame with the given content, as lowercase
/// hexadecimal digits. `prior` is the signature before it.
pub uninterp spec fn event_signature(
    content: Seq<u8>,
    prior: Seq<char>,
    secret_key: Seq<char>,
    region: Seq<char>,
    service: Seq<char>,
    secs: u64,
) -> Seq<char>;

/// Whether a character is a lowercase hexadecimal digit.
pub open spec fn is_hex_digit(c: char) -> bool {
    '0' <= c <= '9' || 'a' <= c <= 'f'
}

/// The value of a lowercase hexadecimal digit.
pub open spec fn hex_value(c: char) -> int {
    if '0' <= c <= '9' {
        c as int - '0' as int
    } else {
        c as int - 'a' as int + 10
    }
}

/// The bytes that a string of hexadecimal digits stands for.
pub open spec fn hex_bytes(digits: Seq<char>) -> Seq<u8> {
    Seq::new(
        digits.len() / 2,
        |i: int| (16 * hex_value(digits[2 * i]) + hex_value(digits[2 * i + 1])) as u8,
    )
}

/// Whether the characters are the sixty-four digits of a signature.
pub open spec fn is_signature(digits: Seq<char>) -> bool {
    digits.len() == 64 && forall|i: int| 0 <= i < 64 ==> is_hex_digit(#[trigger] digits[i])
}

/// The headers of a signed frame: its signature, and the whole second of its date.
pub open spec fn signed_headers(signature: Seq<char>, secs: u64) -> Seq<
    (Seq<char>, HeaderContent),
> {
    seq![
        (":chunk-signature"@, HeaderContent::Bytes(hex_bytes(signature))),
        (":date"@, HeaderContent::Instant { secs: secs as int, subsec_nanos: 0 }),
    ]
}

/// The headers of a message that carries audio.
pub open spec fn audio_headers() -> Seq<(Seq<char>, HeaderContent)> {
    seq![
        (":content-type"@, HeaderContent::Text("application/octet-stream"@)),
        (":message-type"@, HeaderContent::Text("event"@)),
        (":event-type"@, HeaderContent::Text("AudioEvent"@)),
    ]
}

/// What a frame wraps: the message that carries the audio, or nothing at all at the end
/// of the stream.
pub open spec fn frame_content(audio: Option<Seq<u8>>) -> Seq<u8> {
    match audio {
        Some(audio) => eventstream::wire_form(audio_headers(), audio),
        None => Seq::empty(),
    }
}

/// Signs a message, by `aws_sigv4::event_stream::sign_message`.
///
/// The signed message wraps the frame of the message that was given, so that
/// `Message::read_from` finds that message in it. Its headers are the signature and the
/// date. The access key and what the instant has below a whole second do not enter into
/// the result.
#[verifier::external_body]
fn sign_message(
    message: &Message,
    prior: &str,
    keys: &Credentials,
    region: &str,
    service: &str,
    time: Timestamp,
) -> (signed: (Message, String))
    requires
        eventstream::encodable(
            eventstream::message_headers(*message),
            eventstream::message_payload(*message),
        ),
        is_signable(time),
    ensures
        eventstream::message_payload(signed.0) == eventstream::wire_form(
            eventstream::message_headers(*message),
            eventstream::message_payload(*message),
        ),
        eventstream::message_payload(signed.0).len() == eventstream::frame_size(
            eventstream::message_headers(*message),
            eventstream::message_payload(*message),
        ),
        eventstream::headers_exact(eventstream::message_headers(*message))
            ==> eventstream::reads_as(
            eventstream::message_payload(signed.0),
            eventstream::message_headers(*message),
            eventstream::message_payload(*message),
        ),
        signed.1@ == event_signature(
            eventstream::message_payload(signed.0),
            prior@,
            keys.secret_key@,
            region@,
            service@,
            time.secs,
        ),
        is_signature(signed.1@),
        eventstream::message_headers(signed.0) == signed_headers(signed.1@, time.secs),
{
    let params = SigningParams::builder()
        .access_key(&keys.access_key)
        .secret_key(&keys.secret_key)
        .region(region)
        .service_name(service)
        .time(SystemTime::UNIX_EPOCH + Duration::new(time.secs, time.nanos))
        .settings(())
        .build()
        .expect("every parameter is set");
    aws_sigv4::event_stream::sign_message(message, prior, &params).into_parts()
}

/// Signs the frame that closes a stream, by
/// `aws_sigv4::event_stream::sign_empty_message`. It is signed as a frame without content,
/// and carries none.
#[verifier::external_body]
fn sign_empty_message(
    prior: &str,
    keys: &Credentials,
    region: &str,
    service: &str,
    time: Timestamp,
) -> (signed: (Message, String))
    requires
        is_signable(time),
    ensures
        eventstream::message_payload(signed.0) == Seq::<u8>::empty(),
        signed.1@ == event_signature(
            Seq::empty(),
            prior@,
            keys.secret_key@,
            region@,
            service@,
            time.secs,
        ),
        is_signature(signed.1@),
        eventstream::message_headers(signed.0) == signed_headers(signed.1@, time.secs),
{
    let params = SigningParams::builder()
        .access_key(&keys.access_key)
        .secret_key(&keys.secret_key)
        .region(region)
        .service_name(service)
        .time(SystemTime::UNIX_EPOCH + Duration::new(time.secs, time.nanos))
        .settings(())
        .build()
        .expect("every parameter is set");
    aws_sigv4::event_stream::sign_empty_message(prior, &params).into_parts()
}

/// The message that carries a chunk of audio.
pub fn audio_message(audio: Vec<u8>) -> (message: Message)
    ensures
        eventstream::message_headers(message) == audio_headers(),
        eventstream::message_payload(message) == audio@,
{
    let message = new_message(audio);
    let message = add_text_header(message, ":content-type", "application/octet-stream");
    let message = add_text_header(message, ":message-type", "event");
    let message = add_text_header(message, ":event-type", "AudioEvent");
    assert(eventstream::message_headers(message) =~= audio_headers());
    message
}

/// The headers of an audio message fit the format, take up eighty-eight bytes and are
/// written without loss.
proof fn lemma_audio_headers()
    ensures
        eventstream::headers_fit(audio_headers()),
        eventstream::headers_exact(audio_headers()),
        eventstream::headers_size(audio_headers()) == 88,
{
    reveal_strlit(":content-type");
    reveal_strlit("application/octet-stream");
    reveal_strlit(":message-type");
    reveal_strlit("event");
    reveal_strlit(":event-type");
    reveal_strlit("AudioEvent");
    broadcast use vstd::utf8::is_ascii_chars_encode_utf8;

    assert(vstd::utf8::is_ascii_chars(":content-type"@));
    assert(vstd::utf8::is_ascii_chars("application/octet-stream"@));
    assert(vstd::utf8::is_ascii_chars(":message-type"@));
    assert(vstd::utf8::is_ascii_chars("event"@));
    assert(vstd::utf8::is_ascii_chars(":event-type"@));
    assert(vstd::utf8::is_ascii_chars("AudioEvent"@));
    let headers = audio_headers();
    reveal_with_fuel(eventstream::headers_size, 4);
    assert(headers.drop_last().last() == headers[1]);
    assert(headers.drop_last().drop_last().last() == headers[0]);
    assert(headers.drop_last().drop_last().drop_last().len() == 0);
}

/// The headers of a signed frame fit the format, take up sixty-seven bytes and are
/// written without loss.
proof fn lemma_signed_headers(signature: Seq<char>, secs: u64)
    requires
        is_signature(signature),
        secs <= LAST_SIGNABLE_SECOND,
    ensures
        eventstream::headers_fit(signed_headers(signature, secs)),
        eventstream::headers_exact(signed_headers(signature, secs)),
        eventstream::headers_size(signed_headers(signature, secs)) == 67,
{
    reveal_strlit(":chunk-signature");
    reveal_strlit(":date");
    broadcast use vstd::utf8::is_ascii_chars_encode_utf8;

    assert(vstd::utf8::is_ascii_chars(":chunk-signature"@));
    assert(vstd::utf8::is_ascii_chars(":date"@));
    let headers = signed_headers(signature, secs);
    reveal_with_fuel(eventstream::headers_size, 3);
    assert(headers.drop_last().last() == headers[0]);
    assert(headers.drop_last().drop_last().len() == 0);
}

/// Signs the frames of one stream, one after the other.
pub struct FrameSigner {
    pub credentials: Credentials,
    pub region: String,
    /// The signature that the next frame is signed together with.
    pub last_signature: String,
}

impl FrameSigner {
    /// A signer at the start of a stream. `seed` is the signature of the request that
    /// opens the stream.
    pub fn new(credentials: Credentials, region: String, seed: String) -> (signer: FrameSigner)
        ensures
            signer.credentials == credentials,
            signer.region == region,
            signer.last_signature == seed,
    {
        FrameSigner { credentials, region, last_signature: seed }
    }

    /// The signature of the next frame, if it is signed within the given second.
    pub open spec fn signature_of(&self, audio: Option<Seq<u8>>, secs: u64) -> Seq<char> {
        event_signature(
            frame_content(audio),
            self.last_signature@,
            self.credentials.secret_key@,
            self.region@,
            SERVICE_NAME@,
            secs,
        )
    }

    /// What signing the next frame at the given instant comes to: `after` is the signer
    /// then, and `frame` the outcome.
    pub open spec fn signs(
        &self,
        after: FrameSigner,
        audio: Option<Seq<u8>>,
        time: Timestamp,
        frame: Result<Vec<u8>, FrameError>,
    ) -> bool {
        let signature = self.signature_of(audio, time.secs);
        let headers = signed_headers(signature, time.secs);
        &&& after.credentials == self.credentials
        &&& after.region == self.region
        &&& match frame {
            Ok(bytes) => {
                &&& is_signable(time)
                &&& audio matches Some(audio) ==> audio.len() <= MAX_FRAME_AUDIO
                &&& after.last_signature@ == signature
                &&& is_signature(signature)
                &&& bytes@ == eventstream::wire_form(headers, frame_content(audio))
                &&& eventstream::reads_as(bytes@, headers, frame_content(audio))
                &&& audio matches Some(audio) ==> eventstream::reads_as(
                    frame_content(Some(audio)),
                    audio_headers(),
                    audio,
                )
            },
            Err(FrameError::Clock) => {
                &&& !is_signable(time)
                &&& after.last_signature@ == self.last_signature@
            },
            Err(FrameError::TooLong) => {
                &&& is_signable(time)
                &&& audio matches Some(audio) && audio.len() > MAX_FRAME_AUDIO
                &&& after.last_signature@ == if audio->0.len() > MAX_MESSAGE_AUDIO {
                    self.last_signature@
                } else {
                    signature
                }
            },
        }
    }

    /// Signs the next frame of the stream: one that carries audio, or the one without
    /// audio that closes the stream.
    ///
    /// The frame's signature becomes the last one, which the frame after it is signed
    /// together with.
    pub fn sign(&mut self, audio: Option<Vec<u8>>, time: Timestamp) -> (frame: Result<
        Vec<u8>,
        FrameError,
    >)
        ensures
            old(self).signs(*final(self), option_bytes(audio), time, frame),
            is_signable(time) && (audio matches Some(audio) ==> audio@.len() + 187 <= u32::MAX)
                ==> frame is Ok,
    {
        if !check_signable(time) {
            return Err(FrameError::Clock);
        }
        proof {
            lemma_audio_headers();
        }
        let (message, signature) = match audio {
            Some(audio) => {
                if audio.len() as u64 > MAX_MESSAGE_AUDIO {
                    return Err(FrameError::TooLong);
                }
                let payload = audio_message(audio);
                sign_message(
                    &payload,
                    self.last_signature.as_str(),
                    &self.credentials,
                    self.region.as_str(),
                    SERVICE_NAME,
                    time,
                )
            },
            None => sign_empty_message(
                self.last_signature.as_str(),
                &self.credentials,
                self.region.as_str(),
                SERVICE_NAME,
                time,
            ),
        };
        proof {
            lemma_signed_headers(signature@, time.secs);
        }
        self.last_signature = signature;
        match write_message(&message) {
            Ok(bytes) => Ok(bytes),
            Err(_) => Err(FrameError::TooLong),
        }
    }

    /// Signs the next frame of the stream as `sign` does, dated with the current time.
    pub fn sign_now(&mut self, audio: Option<Vec<u8>>) -> (frame: Result<Vec<u8>, FrameError>)
        ensures
            exists|time: Timestamp|
                time.is_clock_reading() && time.nanos < 1_000_000_000 && #[trigger] old(self).signs(
                    *final(self),
                    option_bytes(audio),
                    time,
                    frame,
                ),
    {
        broadcast use crate::timestamp::law_clock_readings_are_read;

        let time = Timestamp::now();
        self.sign(audio, time)
    }
}

/// The signature that a stream has come to after the given frames, each with the second
/// in which it was signed. `seed` is the signature of the request that opened the stream.
pub open spec fn stream_signature(
    secret_key: Seq<char>,
    region: Seq<char>,
    seed: Seq<char>,
    frames: Seq<(Option<Seq<u8>>, u64)>,
) -> Seq<char>
    decreases frames.len(),
{
    if frames.len() == 0 {
        seed
    } else {
        event_signature(
            frame_content(frames.last().0),
            stream_signature(secret_key, region, seed, frames.drop_last()),
            secret_key,
            region,
            SERVICE_NAME@,
            frames.last().1,
        )
    }
}

/// A signer that stands where a stream has come to after some frames stands, after one
/// more frame, where the stream has come to with that frame.
pub proof fn law_signing_extends_the_stream(
    before: FrameSigner,
    after: FrameSigner,
    seed: Seq<char>,
    frames: Seq<(Option<Seq<u8>>, u64)>,
    audio: Option<Seq<u8>>,
    time: Timestamp,
    frame: Result<Vec<u8>, FrameError>,
)
    requires
        before.last_signature@ == stream_signature(
            before.credentials.secret_key@,
            before.region@,
            seed,
            frames,
        ),
        before.signs(after, audio, time, frame),
        frame is Ok,
    ensures
        after.last_signature@ == stream_signature(
            after.credentials.secret_key@,
            after.region@,
            seed,
            frames.push((audio, time.secs)),
        ),
{
    assert(frames.push((audio, time.secs)).drop_last() =~= frames);
}

/// A stream that is cut in two is signed as if it had not been cut, where the second part
/// starts from the signature that the first one has come to.
pub proof fn law_stream_signature_splits(
    secret_key: Seq<char>,
    region: Seq<char>,
    seed: Seq<char>,
    first: Seq<(Option<Seq<u8>>, u64)>,
    second: Seq<(Option<Seq<u8>>, u64)>,
)
    ensures
        stream_signature(secret_key, region, seed, first + second) == stream_signature(
            secret_key,
            region,
            stream_signature(secret_key, region, seed, first),
            second,
        ),
    decreases second.len(),
{
    if second.len() == 0 {
        assert(first + second =~= first);
    } else {
        assert((first + second).drop_last() =~= first + second.drop_last());
        law_stream_signature_splits(secret_key, region, seed, first, second.drop_last());
    }
}

/// Audio arrives as it was handed over: two frames that are the same on the wire carry
/// the same audio.
pub proof fn law_frames_carry_their_audio(
    before: FrameSigner,
    after: FrameSigner,
    audio: Seq<u8>,
    time: Timestamp,
    frame: Vec<u8>,
    other_before: FrameSigner,
    other_after: FrameSigner,
    other_audio: Seq<u8>,
    other_time: Timestamp,
    other_frame: Vec<u8>,
)
    requires
        before.signs(after, Some(audio), time, Ok(frame)),
        other_before.signs(other_after, Some(other_audio), other_time, Ok(other_frame)),
        frame@ == other_frame@,
    ensures
        audio == other_audio,
{
}

/// Signatures are dated from the epoch to the end of the year 9999, which is 2932897 days
/// later; a date has whole seconds, and nanoseconds below one second.
pub proof fn law_every_date_is_signable(time: Timestamp)
    ensures
        is_signable(time) <==> time.secs < 2_932_897 * 86_400 && time.nanos < 1_000_000_000,
{
}

/// The bytes of an optional buffer are those of the buffer.
pub proof fn law_option_bytes(bytes: Option<Vec<u8>>)
    ensures
        option_bytes(bytes) is Some <==> bytes is Some,
        bytes matches Some(buffer) ==> option_bytes(bytes).unwrap() == buffer@,
{
}

/// Signing succeeds at every instant that can be dated, for every audio whose frame has a length
/// that four bytes can hold, and for the end of the stream. The frame of some audio is one
/// message inside another, and these take up 104 and 83 bytes beside what they carry.
pub proof fn law_signing_succeeds(
    before: FrameSigner,
    after: FrameSigner,
    audio: Option<Seq<u8>>,
    time: Timestamp,
    frame: Result<Vec<u8>, FrameError>,
)
    requires
        before.signs(after, audio, time, frame),
        time.secs < 2_932_897 * 86_400,
        time.nanos < 1_000_000_000,
    ensures
        audio is None ==> frame is Ok,
        audio matches Some(audio) ==> (frame is Ok <==> audio.len() + 104 + 83 < 0x1_0000_0000),
        frame is Err ==> frame == Err::<Vec<u8>, FrameError>(FrameError::TooLong),
{
}

/// The most audio that is accepted is the most whose frame fits its length, and a frame of it
/// is that much longer than the audio.
pub proof fn law_limits_are_those_of_the_format(audio: Seq<u8>, signature: Seq<char>, secs: u64)
    requires
        is_signature(signature),
        secs <= LAST_SIGNABLE_SECOND,
    ensures
        eventstream::encodable(audio_headers(), audio) <==> audio.len() <= MAX_MESSAGE_AUDIO,
        forall|content: Seq<u8>|
            content.len() == eventstream::frame_size(audio_headers(), audio) ==> (
            #[trigger] eventstream::encodable(signed_headers(signature, secs), content)
                <==> audio.len() <= MAX_FRAME_AUDIO),
{
    lemma_audio_headers();
    lemma_signed_headers(signature, secs);
}

/// A frame can be read, and says when it was signed, to the second, and with what signature; and
/// what it wraps is what was to be sent: a message that carries exactly the audio, marked as an
/// audio event, or nothing at all at the end of the stream.
pub proof fn law_frames_read_back(
    before: FrameSigner,
    after: FrameSigner,
    audio: Option<Seq<u8>>,
    time: Timestamp,
    frame: Vec<u8>,
)
    requires
        before.signs(after, audio, time, Ok(frame)),
    ensures
        eventstream::read_message(frame@) is Ok,
        ({
            let (headers, content) = eventstream::read_message(frame@)->Ok_0;
            &&& headers.len() == 2
            &&& headers[0].0 == ":chunk-signature"@
            &&& headers[0].1 == HeaderContent::Bytes(hex_bytes(after.last_signature@))
            &&& headers[1].0 == ":date"@
            &&& headers[1].1 == (HeaderContent::Instant {
                secs: time.secs as int,
                subsec_nanos: 0,
            })
            &&& audio is None ==> content.len() == 0
            &&& audio matches Some(audio) ==> {
                let (inner_headers, inner) = eventstream::read_message(content)->Ok_0;
                &&& eventstream::read_message(content) is Ok
                &&& inner == audio
                &&& inner_headers.len() == 3
                &&& inner_headers[0].0 == ":content-type"@
                &&& inner_headers[0].1.text() == Some("application/octet-stream"@)
                &&& inner_headers[1].0 == ":message-type"@
                &&& inner_headers[1].1.text() == Some("event"@)
                &&& inner_headers[2].0 == ":event-type"@
                &&& inner_headers[2].1.text() == Some("AudioEvent"@)
            }
        }),
{
}

/// The signature that a signer has come to is the one over what the frame wraps and the
/// signature before it, with the secret key, for the region and the service, dated with the
/// second of signing.
pub proof fn law_signatures_cover_the_frame(
    before: FrameSigner,
    after: FrameSigner,
    audio: Option<Seq<u8>>,
    time: Timestamp,
    frame: Vec<u8>,
)
    requires
        before.signs(after, audio, time, Ok(frame)),
    ensures
        after.last_signature@ == event_signature(
            eventstream::read_message(frame@)->Ok_0.1,
            before.last_signature@,
            before.credentials.secret_key@,
            before.region@,
            "transcribe"@,
            time.secs,
        ),
        audio matches Some(audio) ==> eventstream::read_message(frame@)->Ok_0.1
            == eventstream::wire_form(audio_headers(), audio),
        frame@ == eventstream::wire_form(
            eventstream::read_message(frame@)->Ok_0.0,
            eventstream::read_message(frame@)->Ok_0.1,
        ),
{
}

/// A signer keeps its key pair and its region, whatever comes of signing; and its signature too
/// where the clock is at fault.
pub proof fn law_signers_keep_their_keys(
    before: FrameSigner,
    after: FrameSigner,
    audio: Option<Seq<u8>>,
    time: Timestamp,
    frame: Result<Vec<u8>, FrameError>,
)
    requires
        before.signs(after, audio, time, frame),
    ensures
        after.credentials == before.credentials,
        after.region == before.region,
        time.secs >= 2_932_897 * 86_400 || time.nanos >= 1_000_000_000 ==> frame == Err::<
            Vec<u8>,
            FrameError,
        >(FrameError::Clock) && after.last_signature@ == before.last_signature@,
{
}

/// The same frame, signed at the same second by signers that stand at the same place, is the
/// same on the wire and leaves both at the same place.
pub proof fn law_signing_is_repeatable(
    before: FrameSigner,
    after: FrameSigner,
    audio: Option<Seq<u8>>,
    time: Timestamp,
    frame: Vec<u8>,
    other_before: FrameSigner,
    other_after: FrameSigner,
    other_time: Timestamp,
    other_frame: Vec<u8>,
)
    requires
        before.signs(after, audio, time, Ok(frame)),
        other_before.signs(other_after, audio, other_time, Ok(other_frame)),
        before.credentials.secret_key@ == other_before.credentials.secret_key@,
        before.region@ == other_before.region@,
        before.last_signature@ == other_before.last_signature@,
        time.secs == other_time.secs,
    ensures
        frame@ == other_frame@,
        after.last_signature@ == other_after.last_signature@,
{
}

/// The bytes of a signature are those whose digits are written in it, two for each.
pub proof fn law_hex_bytes_are_written_in_their_digits(digits: Seq<char>)
    requires
        is_signature(digits),
    ensures
        hex_bytes(digits).len() == 32,
        forall|i: int|
            0 <= i < 32 ==> {
                let table = "0123456789abcdef"@;
                &&& table[(#[trigger] hex_bytes(digits)[i]) as int / 16] == digits[2 * i]
                &&& table[hex_bytes(digits)[i] as int % 16] == digits[2 * i + 1]
            },
{
    reveal_strlit("0123456789abcdef");
    assert forall|i: int| 0 <= i < 32 implies {
        let table = "0123456789abcdef"@;
        &&& table[(#[trigger] hex_bytes(digits)[i]) as int / 16] == digits[2 * i]
        &&& table[hex_bytes(digits)[i] as int % 16] == digits[2 * i + 1]
    } by {
        let high = hex_value(digits[2 * i]);
        let low = hex_value(digits[2 * i + 1]);
        assert(is_hex_digit(digits[2 * i]));
        assert(is_hex_digit(digits[2 * i + 1]));
        assert(hex_bytes(digits)[i] as int == 16 * high + low);
        assert((16 * high + low) / 16 == high);
        assert((16 * high + low) % 16 == low);
        assert("0123456789abcdef"@[high] == digits[2 * i]);
        assert("0123456789abcdef"@[low] == digits[2 * i + 1]);
    }
}

/// A signer whose frame turns out too long has gone on to the frame's signature if the message
/// inside could be made, and stands where it stood if not.
pub proof fn law_frames_that_do_not_fit(
    before: FrameSigner,
    after: FrameSigner,
    audio: Seq<u8>,
    time: Timestamp,
)
    requires
        before.signs(after, Some(audio), time, Err(FrameError::TooLong)),
    ensures
        audio.len() + 187 > u32::MAX,
        audio.len() + 104 > u32::MAX ==> after.last_signature@ == before.last_signature@,
        audio.len() + 104 <= u32::MAX ==> after.last_signature@ == event_signature(
            eventstream::wire_form(audio_headers(), audio),
            before.last_signature@,
            before.credentials.secret_key@,
            before.region@,
            "transcribe"@,
            time.secs,
        ),
{
}

/// The message that carries some audio holds it as it is, and has the three headers of an audio
/// event.
pub proof fn law_audio_messages_hold_the_audio(audio: Vec<u8>, message: Message)
    requires
        call_ensures(audio_message, (audio,), message),
    ensures
        eventstream::message_payload(message) == audio@,
        eventstream::message_headers(message) == seq![
            (":content-type"@, HeaderContent::Text("application/octet-stream"@)),
            (":message-type"@, HeaderContent::Text("event"@)),
            (":event-type"@, HeaderContent::Text("AudioEvent"@)),
        ],
{
}

/// Whether an instant can be dated is told for every instant up to the end of the year 9999.
pub proof fn law_dates_are_checked(time: Timestamp, signable: bool)
    requires
        call_ensures(check_signable, (time,), signable),
    ensures
        signable <==> time.secs < 2_932_897 * 86_400 && time.nanos < 1_000_000_000,
{
}

} // verus!
