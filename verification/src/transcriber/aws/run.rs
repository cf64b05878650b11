//! A whole stream, from the answer of the service to its end: what is told of the speech in
//! it, and what an error does to that.
//!
//! The bodies of responses arrive in chunks, of which each either can be received or not.
//! The text of a transcript event is parsed outside of this library, so that `parse` stands
//! for what comes of it: the stretches of speech that the event has, or nothing where the
//! text is no such event. `room` is how many events can be sent before sending fails, if it
//! ever does.
//!
//! Receiving, parsing and sending are done by whoever runs the stream. What to do next is up
//! to `next_action`.

use crate::model::{ParticipantView, TranscriptionEvent};
use crate::timestamp::Timestamp;
use crate::transcriber::aws::eventstream;
use crate::transcriber::aws::eventstream::HeaderContent;
use crate::transcriber::aws::model::AwsTranscriptResult;
use crate::transcriber::aws::response;
use crate::transcriber::aws::response::{Incoming, ReadError};
use crate::transcriber::aws::speech;
use crate::transcriber::aws::speech::SpeechEvents;
use vstd::prelude::*;

verus! {

/// What a message comes to.
pub enum Content {
    /// It cannot be made out.
    Broken,
    /// It is one to take note of, and nothing more.
    Note,
    /// It is a transcript event with the given text.
    Transcript(Seq<char>),
}

/// What a message with the given headers and payload comes to.
pub open spec fn content(headers: Seq<(Seq<char>, HeaderContent)>, payload: Seq<u8>) -> Content {
    let shown = response::shown_headers(headers);
    match response::first_header(shown, ":message-type"@) {
        Some(Some(message_type)) if vstd::utf8::valid_utf8(payload) => if message_type
            == "event"@ {
            match response::first_header(shown, ":event-type"@) {
                Some(Some(event_type)) => if event_type == "TranscriptEvent"@ {
                    Content::Transcript(vstd::utf8::decode_utf8(payload))
                } else {
                    Content::Note
                },
                _ => Content::Broken,
            }
        } else {
            Content::Note
        },
        _ => Content::Broken,
    }
}

/// The message in a frame, or nothing where the frame is damaged.
pub open spec fn message_in(frame: Seq<u8>) -> Option<
    (Seq<(Seq<char>, HeaderContent)>, Seq<u8>),
> {
    match eventstream::read_message(frame) {
        Ok(message) => Some(message),
        Err(_) => None,
    }
}

/// The messages that come out of a body that arrives in the given chunks, and the bytes that
/// are left. `None` among the chunks is one that could not be received. `None` among the
/// messages is such a chunk or a damaged frame, and nothing comes after it.
pub open spec fn body_messages(chunks: Seq<Option<Seq<u8>>>) -> (
    Seq<Option<(Seq<(Seq<char>, HeaderContent)>, Seq<u8>)>>,
    Seq<u8>,
)
    decreases chunks.len(),
{
    if chunks.len() == 0 {
        (Seq::empty(), Seq::empty())
    } else {
        let (messages, left) = body_messages(chunks.drop_last());
        if messages.len() > 0 && messages.last() is None {
            (messages, left)
        } else {
            match chunks.last() {
                None => (messages.push(None), left),
                Some(chunk) => {
                    let arrived = left + chunk;
                    let size = eventstream::announced_size(arrived);
                    if eventstream::is_partial_frame(arrived) {
                        (messages, arrived)
                    } else if !eventstream::begins_with_frame(arrived) {
                        (messages.push(None), left)
                    } else {
                        (
                            messages.push(message_in(arrived.take(size))),
                            arrived.skip(size),
                        )
                    }
                },
            }
        }
    }
}

/// How far a stream has come.
pub struct Run {
    /// The stretches of speech that were told of, in order.
    pub told: Seq<AwsTranscriptResult>,
    /// Whether an error has ended the stream.
    pub failed: bool,
}

/// Where telling of more speech gets to: to the end, unless sending fails before.
pub open spec fn tell(
    told: Seq<AwsTranscriptResult>,
    more: Seq<AwsTranscriptResult>,
    room: Option<nat>,
) -> Run {
    match room {
        Some(room) if told.len() + more.len() > room => Run {
            told: (told + more).take(room as int),
            failed: true,
        },
        _ => Run { told: told + more, failed: false },
    }
}

/// How far a stream has come with the given messages.
pub open spec fn run(
    messages: Seq<Option<(Seq<(Seq<char>, HeaderContent)>, Seq<u8>)>>,
    parse: spec_fn(Seq<char>) -> Option<Seq<AwsTranscriptResult>>,
    room: Option<nat>,
) -> Run
    decreases messages.len(),
{
    if messages.len() == 0 {
        Run { told: Seq::empty(), failed: false }
    } else {
        let before = run(messages.drop_last(), parse, room);
        if before.failed {
            before
        } else {
            handle(before, messages.last(), parse, room)
        }
    }
}

/// How far a stream comes with one message more.
pub open spec fn handle(
    before: Run,
    message: Option<(Seq<(Seq<char>, HeaderContent)>, Seq<u8>)>,
    parse: spec_fn(Seq<char>) -> Option<Seq<AwsTranscriptResult>>,
    room: Option<nat>,
) -> Run {
    if is_error(message) {
        Run { failed: true, ..before }
    } else {
        match content(message.unwrap().0, message.unwrap().1) {
            Content::Transcript(text) => match parse(text) {
                Some(results) => tell(before.told, speech::spoken(results), room),
                None => before,
            },
            _ => before,
        }
    }
}

/// Whether a message ends the stream as it cannot be read or made out.
pub open spec fn is_error(
    message: Option<(Seq<(Seq<char>, HeaderContent)>, Seq<u8>)>,
) -> bool {
    match message {
        Some((headers, payload)) => content(headers, payload) is Broken,
        None => true,
    }
}

/// How far a stream has come that was answered with the given status and whose body has
/// arrived in the given chunks.
pub open spec fn stream_run(
    status: u16,
    chunks: Seq<Option<Seq<u8>>>,
    parse: spec_fn(Seq<char>) -> Option<Seq<AwsTranscriptResult>>,
    room: Option<nat>,
) -> Run {
    if 200 <= status < 300 {
        run(body_messages(chunks).0, parse, room)
    } else {
        Run { told: Seq::empty(), failed: true }
    }
}

/// What to do with what a reader has handed out. Unless the stream fails, the next chunk is
/// received after that.
#[derive(Debug)]
pub enum StreamAction {
    /// Nothing.
    Receive,
    /// Take note of a message.
    Note(Incoming),
    /// Parse a text as a transcript event, and send what it tells.
    Parse(String),
    /// End the stream with an error.
    Fail(ReadError),
}

/// What to do with what a reader has handed out.
pub open spec fn action_for(received: Result<Option<Incoming>, ReadError>) -> StreamAction {
    match received {
        Ok(None) => StreamAction::Receive,
        Ok(Some(Incoming::Transcript(text))) => StreamAction::Parse(text),
        Ok(Some(incoming)) => StreamAction::Note(incoming),
        Err(error) => StreamAction::Fail(error),
    }
}

/// How far a stream comes by an action.
pub open spec fn act(
    before: Run,
    action: StreamAction,
    parse: spec_fn(Seq<char>) -> Option<Seq<AwsTranscriptResult>>,
    room: Option<nat>,
) -> Run {
    match action {
        StreamAction::Receive | StreamAction::Note(_) => before,
        StreamAction::Parse(text) => match parse(text@) {
            Some(results) => tell(before.told, speech::spoken(results), room),
            None => before,
        },
        StreamAction::Fail(_) => Run { failed: true, ..before },
    }
}

/// Whether a reader hands this out for a message with the given headers and payload.
pub open spec fn is_handed_out(
    headers: Seq<(Seq<char>, HeaderContent)>,
    payload: Seq<u8>,
    received: Result<Option<Incoming>, ReadError>,
) -> bool {
    match received {
        Ok(Some(incoming)) => response::classifies(
            response::shown_headers(headers),
            payload,
            Ok(incoming),
        ),
        Ok(None) => false,
        Err(error) => response::classifies(response::shown_headers(headers), payload, Err(error)),
    }
}

/// Tells what to do with what a reader has handed out. The stream comes as far by that as it
/// is to come by the message.
pub fn next_action(received: Result<Option<Incoming>, ReadError>) -> (action: StreamAction)
    ensures
        action == action_for(received),
        forall|
            headers: Seq<(Seq<char>, HeaderContent)>,
            payload: Seq<u8>,
            before: Run,
            parse: spec_fn(Seq<char>) -> Option<Seq<AwsTranscriptResult>>,
            room: Option<nat>,
        |
            is_handed_out(headers, payload, received) ==> #[trigger] handle(
                before,
                Some((headers, payload)),
                parse,
                room,
            ) == act(before, action, parse, room),
{
    let ghost handed_out = received;
    let action = match received {
        Ok(None) => StreamAction::Receive,
        Ok(Some(Incoming::Transcript(text))) => StreamAction::Parse(text),
        Ok(Some(incoming)) => StreamAction::Note(incoming),
        Err(error) => StreamAction::Fail(error),
    };
    proof {
        assert forall|
            headers: Seq<(Seq<char>, HeaderContent)>,
            payload: Seq<u8>,
            before: Run,
            parse: spec_fn(Seq<char>) -> Option<Seq<AwsTranscriptResult>>,
            room: Option<nat>,
        |
            is_handed_out(headers, payload, handed_out) implies #[trigger] handle(
            before,
            Some((headers, payload)),
            parse,
            room,
        ) == act(before, action, parse, room) by {
            match handed_out {
                Ok(Some(incoming)) => lemma_content_of_classified(headers, payload, Ok(incoming)),
                Ok(None) => {},
                Err(error) => lemma_content_of_classified(headers, payload, Err(error)),
            }
        }
    }
    action
}

/// What the classification of a message says of its content.
proof fn lemma_content_of_classified(
    headers: Seq<(Seq<char>, HeaderContent)>,
    payload: Seq<u8>,
    incoming: Result<Incoming, ReadError>,
)
    requires
        response::classifies(response::shown_headers(headers), payload, incoming),
    ensures
        match incoming {
            Ok(Incoming::Transcript(text)) => content(headers, payload) == Content::Transcript(
                text@,
            ),
            Ok(_) => content(headers, payload) is Note,
            Err(_) => content(headers, payload) is Broken,
        },
{
}

/// A reader that takes in one chunk more of a stream that no error has ended keeps what the
/// run over all chunks leaves. An error ends the stream without telling anything more. Of a
/// transcript event that can be parsed, the stretches of speech with a reading are told. Every
/// other message, also a transcript event that cannot be parsed, changes nothing.
pub proof fn law_run_follows_the_reader(
    status: u16,
    chunks: Seq<Option<Seq<u8>>>,
    chunk: Seq<u8>,
    received: Result<Option<Incoming>, ReadError>,
    after: Seq<u8>,
    parse: spec_fn(Seq<char>) -> Option<Seq<AwsTranscriptResult>>,
    room: Option<nat>,
)
    requires
        !stream_run(status, chunks, parse, room).failed,
        response::receives(body_messages(chunks).1 + chunk, received, after),
    ensures
        ({
            let before = stream_run(status, chunks, parse, room);
            let now = stream_run(status, chunks.push(Some(chunk)), parse, room);
            match received {
                Err(_) => now.failed && now.told == before.told,
                Ok(Some(Incoming::Transcript(text))) => now == match parse(text@) {
                    Some(results) => tell(before.told, speech::spoken(results), room),
                    None => before,
                },
                Ok(_) => now == before,
            }
        }),
        received is Ok ==> body_messages(chunks.push(Some(chunk))).1 == after,
{
    let messages = body_messages(chunks).0;
    let all = chunks.push(Some(chunk));
    assert(all.drop_last() =~= chunks);
    assert(messages.len() > 0 ==> messages.last() is Some);
    let arrived = body_messages(chunks).1 + chunk;
    let frame = arrived.take(eventstream::announced_size(arrived));
    if !eventstream::is_partial_frame(arrived) {
        let message = body_messages(all).0.last();
        assert(body_messages(all).0 =~= messages.push(message));
        assert(messages.push(message).drop_last() =~= messages);
        if eventstream::begins_with_frame(arrived) && eventstream::read_message(frame) is Ok {
            let (headers, payload) = eventstream::read_message(frame)->Ok_0;
            match received {
                Ok(Some(incoming)) => {
                    lemma_content_of_classified(headers, payload, Ok(incoming));
                },
                Ok(None) => {},
                Err(error) => {
                    lemma_content_of_classified(headers, payload, Err(error));
                },
            }
        }
    }
}

/// A stream that no error has ended comes, with one chunk more, as far as the action takes it
/// that is told for what a reader hands out.
pub proof fn law_actions_follow_the_run(
    status: u16,
    chunks: Seq<Option<Seq<u8>>>,
    chunk: Seq<u8>,
    received: Result<Option<Incoming>, ReadError>,
    after: Seq<u8>,
    action: StreamAction,
    parse: spec_fn(Seq<char>) -> Option<Seq<AwsTranscriptResult>>,
    room: Option<nat>,
)
    requires
        !stream_run(status, chunks, parse, room).failed,
        response::receives(body_messages(chunks).1 + chunk, received, after),
        action == action_for(received),
    ensures
        stream_run(status, chunks.push(Some(chunk)), parse, room) == act(
            stream_run(status, chunks, parse, room),
            action,
            parse,
            room,
        ),
{
    law_run_follows_the_reader(status, chunks, chunk, received, after, parse, room);
}

/// A stream that hands out the events of a transcript event and sends them comes as far as
/// they are sent. It fails if and only if sending fails before the last one. `states` are what
/// the events were handed out of, `events` those that were sent.
pub proof fn law_sending_follows_the_run(
    told: Seq<AwsTranscriptResult>,
    states: Seq<SpeechEvents>,
    timestamps: Seq<Timestamp>,
    events: Seq<TranscriptionEvent>,
)
    requires
        states.len() == events.len() + 1,
        timestamps.len() == events.len(),
        forall|i: int|
            0 <= i < events.len() ==> (#[trigger] states[i]).hands_out(
                states[i + 1],
                timestamps[i],
                Some(events[i]),
            ),
    ensures
        ({
            let sent = told.len() + events.len();
            let now = tell(told, states[0].remaining(), Some(sent));
            &&& now.told.len() == sent
            &&& told.is_prefix_of(now.told)
            &&& forall|i: int|
                0 <= i < events.len() ==> (#[trigger] events[i])@ == speech::speech(
                    now.told[told.len() + i],
                    states[0].speaker(),
                    timestamps[i],
                )
            &&& now.failed <==> states.last().remaining().len() > 0
        }),
{
    speech::law_speech_is_told_in_order(states, timestamps, events);
}

/// A stream of which a chunk cannot be received ends there, and nothing more is told.
pub proof fn law_run_ends_with_the_body(
    status: u16,
    chunks: Seq<Option<Seq<u8>>>,
    parse: spec_fn(Seq<char>) -> Option<Seq<AwsTranscriptResult>>,
    room: Option<nat>,
)
    ensures
        stream_run(status, chunks.push(None), parse, room) == (Run {
            failed: true,
            ..stream_run(status, chunks, parse, room)
        }),
{
    let messages = body_messages(chunks).0;
    let all = chunks.push(None);
    assert(all.drop_last() =~= chunks);
    if messages.len() > 0 && messages.last() is None {
        assert(run(messages, parse, room).failed);
    } else {
        assert(messages.push(None).drop_last() =~= messages);
    }
}

/// Of a stream that the service refused, nothing is told, whatever comes with the refusal.
pub proof fn law_refused_streams_tell_nothing(
    status: u16,
    chunks: Seq<Option<Seq<u8>>>,
    parse: spec_fn(Seq<char>) -> Option<Seq<AwsTranscriptResult>>,
    room: Option<nat>,
)
    requires
        !(200 <= status < 300),
    ensures
        stream_run(status, chunks, parse, room).failed,
        stream_run(status, chunks, parse, room).told.len() == 0,
{
}

/// With more messages a stream tells what it has told before, and more behind it. Once an
/// error has ended it, more messages change nothing.
pub proof fn law_errors_are_final(
    messages: Seq<Option<(Seq<(Seq<char>, HeaderContent)>, Seq<u8>)>>,
    more: Seq<Option<(Seq<(Seq<char>, HeaderContent)>, Seq<u8>)>>,
    parse: spec_fn(Seq<char>) -> Option<Seq<AwsTranscriptResult>>,
    room: Option<nat>,
)
    ensures
        run(messages, parse, room).failed ==> run(messages + more, parse, room) == run(
            messages,
            parse,
            room,
        ),
        run(messages, parse, room).told.is_prefix_of(run(messages + more, parse, room).told),
    decreases more.len(),
{
    if more.len() == 0 {
        assert(messages + more =~= messages);
    } else {
        let all = messages + more;
        assert(all.drop_last() =~= messages + more.drop_last());
        law_errors_are_final(messages, more.drop_last(), parse, room);
        lemma_room(all.drop_last(), parse, room);
        assert(run(all.drop_last(), parse, room).told.is_prefix_of(run(all, parse, room).told));
    }
}

/// Without an error, as much room as there is makes no difference, and what was told fits it.
proof fn lemma_room(
    messages: Seq<Option<(Seq<(Seq<char>, HeaderContent)>, Seq<u8>)>>,
    parse: spec_fn(Seq<char>) -> Option<Seq<AwsTranscriptResult>>,
    room: Option<nat>,
)
    ensures
        !run(messages, parse, room).failed ==> run(messages, parse, room) == run(
            messages,
            parse,
            None,
        ),
        room matches Some(room) ==> run(messages, parse, Some(room)).told.len() <= room,
    decreases messages.len(),
{
    if messages.len() > 0 {
        lemma_room(messages.drop_last(), parse, room);
    }
}

/// A stream that meets its first error at some message tells a part of what another one tells
/// that gets the same messages up to there and meets none. It tells the first part of it, and
/// all that the messages before the error say; and nothing after the error. The error is in
/// the message itself, or in sending what it says.
pub proof fn law_failed_streams_tell_a_first_part(
    messages: Seq<Option<(Seq<(Seq<char>, HeaderContent)>, Seq<u8>)>>,
    room: Option<nat>,
    others: Seq<Option<(Seq<(Seq<char>, HeaderContent)>, Seq<u8>)>>,
    other_room: Option<nat>,
    k: int,
    parse: spec_fn(Seq<char>) -> Option<Seq<AwsTranscriptResult>>,
)
    requires
        0 <= k < messages.len(),
        k <= others.len(),
        messages.take(k) == others.take(k),
        is_error(messages[k]) || k < others.len() && messages[k] == others[k],
        !run(messages.take(k), parse, room).failed,
        run(messages.take(k + 1), parse, room).failed,
        !run(others, parse, other_room).failed,
    ensures
        run(messages, parse, room).failed,
        run(messages, parse, room) == run(messages.take(k + 1), parse, room),
        run(messages, parse, room).told.is_prefix_of(run(others, parse, other_room).told),
        run(others.take(k), parse, other_room).told.is_prefix_of(run(messages, parse, room).told),
{
    assert(messages.take(k + 1) + messages.skip(k + 1) =~= messages);
    law_errors_are_final(messages.take(k + 1), messages.skip(k + 1), parse, room);
    assert(messages.take(k + 1).drop_last() =~= messages.take(k));
    assert(others.take(k) + others.skip(k) =~= others);
    law_errors_are_final(others.take(k), others.skip(k), parse, other_room);
    lemma_room(messages.take(k), parse, room);
    lemma_room(others.take(k), parse, other_room);
    assert(!run(others.take(k), parse, other_room).failed);
    let common = run(messages.take(k), parse, room);
    assert(common == run(others.take(k), parse, other_room));
    if !is_error(messages[k]) {
        assert(others.take(k + 1) + others.skip(k + 1) =~= others);
        law_errors_are_final(others.take(k + 1), others.skip(k + 1), parse, other_room);
        assert(others.take(k + 1).drop_last() =~= others.take(k));
        assert(!run(others.take(k + 1), parse, other_room).failed);
    }
}

/// The messages that come out of a body stay when more of it arrives.
proof fn lemma_messages_stay(chunks: Seq<Option<Seq<u8>>>, more: Seq<Option<Seq<u8>>>)
    ensures
        body_messages(chunks).0.is_prefix_of(body_messages(chunks + more).0),
    decreases more.len(),
{
    if more.len() == 0 {
        assert(chunks + more =~= chunks);
    } else {
        assert((chunks + more).drop_last() =~= chunks + more.drop_last());
        lemma_messages_stay(chunks, more.drop_last());
    }
}

/// Whatever arrives after an error has ended a stream, nothing is told of it.
pub proof fn law_nothing_is_told_after_an_error(
    status: u16,
    chunks: Seq<Option<Seq<u8>>>,
    more: Seq<Option<Seq<u8>>>,
    parse: spec_fn(Seq<char>) -> Option<Seq<AwsTranscriptResult>>,
    room: Option<nat>,
)
    requires
        stream_run(status, chunks, parse, room).failed,
    ensures
        stream_run(status, chunks + more, parse, room) == stream_run(status, chunks, parse, room),
{
    lemma_messages_stay(chunks, more);
    let messages = body_messages(chunks).0;
    let all = body_messages(chunks + more).0;
    assert(all =~= messages + all.skip(messages.len() as int));
    law_errors_are_final(messages, all.skip(messages.len() as int), parse, room);
}

/// Chunks that could all be received.
pub open spec fn all_received(chunks: Seq<Seq<u8>>) -> Seq<Option<Seq<u8>>> {
    chunks.map_values(|chunk: Seq<u8>| Some(chunk))
}

/// What is read in some frames.
pub open spec fn read_messages(frames: Seq<Seq<u8>>) -> Seq<
    Option<(Seq<(Seq<char>, HeaderContent)>, Seq<u8>)>,
> {
    frames.map_values(|frame: Seq<u8>| message_in(frame))
}

/// Where nothing goes wrong, the messages that come out of a body are those of the frames
/// that are taken from it, one for each, in order.
pub proof fn law_messages_are_those_of_the_frames(chunks: Seq<Seq<u8>>)
    requires
        forall|i: int|
            0 <= i < body_messages(all_received(chunks)).0.len() ==> (#[trigger] body_messages(
                all_received(chunks),
            ).0[i]) is Some,
    ensures
        body_messages(all_received(chunks)).0 == read_messages(response::taken_frames(chunks).0),
        body_messages(all_received(chunks)).1 == response::taken_frames(chunks).1,
    decreases chunks.len(),
{
    if chunks.len() == 0 {
        assert(body_messages(all_received(chunks)).0 =~= read_messages(
            response::taken_frames(chunks).0,
        ));
    } else {
        let all = all_received(chunks);
        let earlier = all_received(chunks.drop_last());
        assert(all.drop_last() =~= earlier);
        assert(all =~= earlier + seq![all.last()]);
        lemma_messages_stay(earlier, seq![all.last()]);
        assert forall|i: int| 0 <= i < body_messages(earlier).0.len() implies (
        #[trigger] body_messages(earlier).0[i]) is Some by {
            assert(body_messages(all).0[i] == body_messages(earlier).0[i]);
        }
        law_messages_are_those_of_the_frames(chunks.drop_last());
        let (frames, left) = response::taken_frames(chunks.drop_last());
        let arrived = left + chunks.last();
        let messages = body_messages(earlier).0;
        if eventstream::begins_with_frame(arrived) {
            let frame = arrived.take(eventstream::announced_size(arrived));
            assert(read_messages(frames.push(frame)) =~= messages.push(message_in(frame)));
        } else if !eventstream::is_partial_frame(arrived) {
            assert(body_messages(all).0[messages.len() as int] is None);
        }
    }
}

/// Whether a body is made of frames that can be read, the last of which may still be under
/// way.
pub open spec fn is_sound(body: Seq<u8>) -> bool
    decreases body.len(),
{
    let size = eventstream::announced_size(body);
    ||| eventstream::is_partial_frame(body)
    ||| {
        &&& eventstream::begins_with_frame(body)
        &&& eventstream::read_message(body.take(size)) is Ok
        &&& is_sound(body.skip(size))
    }
}

/// The first part of a sound body is sound.
proof fn lemma_first_part_is_sound(body: Seq<u8>, more: Seq<u8>)
    requires
        is_sound(body + more),
    ensures
        is_sound(body),
    decreases body.len(),
{
    if !eventstream::is_partial_frame(body) {
        let size = eventstream::announced_size(body);
        assert((body + more).take(size) =~= body.take(size));
        assert((body + more).skip(size) =~= body.skip(size) + more);
        lemma_first_part_is_sound(body.skip(size), more);
    }
}

/// What follows some whole frames in a sound body is sound.
proof fn lemma_rest_is_sound(frames: Seq<Seq<u8>>, rest: Seq<u8>)
    requires
        is_sound(response::joined(frames) + rest),
        forall|i: int|
            0 <= i < frames.len() ==> {
                &&& eventstream::begins_with_frame(#[trigger] frames[i])
                &&& eventstream::announced_size(frames[i]) == frames[i].len()
            },
    ensures
        is_sound(rest),
    decreases frames.len(),
{
    if frames.len() == 0 {
        assert(response::joined(frames) + rest =~= rest);
    } else {
        let last = frames.last();
        assert(response::joined(frames) + rest =~= response::joined(frames.drop_last()) + (last
            + rest));
        assert forall|i: int| 0 <= i < frames.drop_last().len() implies {
            &&& eventstream::begins_with_frame(#[trigger] frames.drop_last()[i])
            &&& eventstream::announced_size(frames.drop_last()[i]) == frames.drop_last()[i].len()
        } by {
            assert(frames.drop_last()[i] == frames[i]);
        }
        lemma_rest_is_sound(frames.drop_last(), last + rest);
        assert(eventstream::begins_with_frame(last));
        assert((last + rest).skip(last.len() as int) =~= rest);
    }
}

/// Nothing goes wrong in reading a sound body.
proof fn lemma_sound_bodies_are_read(chunks: Seq<Seq<u8>>)
    requires
        is_sound(response::joined(chunks)),
    ensures
        forall|i: int|
            0 <= i < body_messages(all_received(chunks)).0.len() ==> (#[trigger] body_messages(
                all_received(chunks),
            ).0[i]) is Some,
    decreases chunks.len(),
{
    if chunks.len() > 0 {
        let all = all_received(chunks);
        let earlier = chunks.drop_last();
        assert(all.drop_last() =~= all_received(earlier));
        lemma_first_part_is_sound(response::joined(earlier), chunks.last());
        lemma_sound_bodies_are_read(earlier);
        law_messages_are_those_of_the_frames(earlier);
        response::law_bytes_are_kept(earlier);
        let (frames, left) = response::taken_frames(earlier);
        let arrived = left + chunks.last();
        assert(response::joined(chunks) =~= response::joined(frames) + arrived);
        lemma_rest_is_sound(frames, arrived);
    }
}

/// A body in which every frame can be read is read without an error, however it is cut into
/// chunks and even if its last frame is not whole. The messages that come out of it are those
/// of its first frames, each once and in order, and at most one for each chunk; and they are
/// those of all its frames where every chunk ends exactly one frame.
pub proof fn law_messages_are_handled_in_order(chunks: Seq<Seq<u8>>)
    requires
        is_sound(response::joined(chunks)),
    ensures
        ({
            let handled = body_messages(all_received(chunks)).0;
            let sent = read_messages(response::whole_frames(response::joined(chunks)));
            &&& forall|i: int| 0 <= i < handled.len() ==> (#[trigger] handled[i]) is Some
            &&& handled.len() <= chunks.len()
            &&& handled.is_prefix_of(sent)
            &&& (forall|i: int|
                0 <= i <= chunks.len() ==> response::whole_frames(
                    response::joined(#[trigger] chunks.take(i)),
                ).len() == i) ==> handled == sent
        }),
{
    lemma_sound_bodies_are_read(chunks);
    law_messages_are_those_of_the_frames(chunks);
    response::law_bytes_are_kept(chunks);
    response::law_frames_are_taken_in_order(chunks);
    let handled = body_messages(all_received(chunks)).0;
    let sent = read_messages(response::whole_frames(response::joined(chunks)));
    assert(handled =~= sent.take(handled.len() as int));
    if forall|i: int|
        0 <= i <= chunks.len() ==> response::whole_frames(
            response::joined(#[trigger] chunks.take(i)),
        ).len() == i {
        response::law_all_frames_are_taken(chunks);
    }
}

/// Whether the same is told of two messages: they are the same, or both are transcript events
/// that can be parsed and of which the same is told.
pub open spec fn messages_tell_the_same(
    message: Option<(Seq<(Seq<char>, HeaderContent)>, Seq<u8>)>,
    other: Option<(Seq<(Seq<char>, HeaderContent)>, Seq<u8>)>,
    parse: spec_fn(Seq<char>) -> Option<Seq<AwsTranscriptResult>>,
) -> bool {
    ||| message == other
    ||| match (message, other) {
        (Some((headers, payload)), Some((other_headers, other_payload))) => match (
            content(headers, payload),
            content(other_headers, other_payload),
        ) {
            (Content::Transcript(text), Content::Transcript(other_text)) => match (
                parse(text),
                parse(other_text),
            ) {
                (Some(results), Some(others)) => speech::tell_the_same(results, others),
                _ => false,
            },
            _ => false,
        },
        _ => false,
    }
}

/// Readings behind the first one, and whatever else of a transcript event is not used, do not
/// change what a stream tells, nor how it ends.
pub proof fn law_streams_tell_first_readings(
    messages: Seq<Option<(Seq<(Seq<char>, HeaderContent)>, Seq<u8>)>>,
    others: Seq<Option<(Seq<(Seq<char>, HeaderContent)>, Seq<u8>)>>,
    parse: spec_fn(Seq<char>) -> Option<Seq<AwsTranscriptResult>>,
    room: Option<nat>,
)
    requires
        messages.len() == others.len(),
        forall|i: int|
            0 <= i < messages.len() ==> messages_tell_the_same(
                #[trigger] messages[i],
                others[i],
                parse,
            ),
    ensures
        run(messages, parse, room).failed == run(others, parse, room).failed,
        run(messages, parse, room).told.len() == run(others, parse, room).told.len(),
        forall|i: int, participant: ParticipantView, timestamp: Timestamp|
            0 <= i < run(messages, parse, room).told.len() ==> #[trigger] speech::speech(
                run(messages, parse, room).told[i],
                participant,
                timestamp,
            ) == speech::speech(run(others, parse, room).told[i], participant, timestamp),
{
    lemma_runs_tell_the_same(messages, others, parse, room);
    lemma_told_have_readings(messages, parse, room);
    assert forall|i: int, participant: ParticipantView, timestamp: Timestamp|
        0 <= i < run(messages, parse, room).told.len() implies #[trigger] speech::speech(
        run(messages, parse, room).told[i],
        participant,
        timestamp,
    ) == speech::speech(run(others, parse, room).told[i], participant, timestamp) by {
        speech::lemma_same_speech(
            run(messages, parse, room).told[i],
            run(others, parse, room).told[i],
            participant,
            timestamp,
        );
    }
}

/// Streams of messages of which the same is told come equally far.
proof fn lemma_runs_tell_the_same(
    messages: Seq<Option<(Seq<(Seq<char>, HeaderContent)>, Seq<u8>)>>,
    others: Seq<Option<(Seq<(Seq<char>, HeaderContent)>, Seq<u8>)>>,
    parse: spec_fn(Seq<char>) -> Option<Seq<AwsTranscriptResult>>,
    room: Option<nat>,
)
    requires
        messages.len() == others.len(),
        forall|i: int|
            0 <= i < messages.len() ==> messages_tell_the_same(
                #[trigger] messages[i],
                others[i],
                parse,
            ),
    ensures
        run(messages, parse, room).failed == run(others, parse, room).failed,
        speech::tell_the_same(
            run(messages, parse, room).told,
            run(others, parse, room).told,
        ),
    decreases messages.len(),
{
    if messages.len() > 0 {
        assert forall|i: int| 0 <= i < messages.drop_last().len() implies messages_tell_the_same(
            #[trigger] messages.drop_last()[i],
            others.drop_last()[i],
            parse,
        ) by {
            assert(messages_tell_the_same(messages[i], others[i], parse));
        }
        lemma_runs_tell_the_same(messages.drop_last(), others.drop_last(), parse, room);
        lemma_room(messages.drop_last(), parse, room);
        assert(messages_tell_the_same(messages.last(), others.last(), parse));
        if messages.last() != others.last() {
            let message = messages.last()->0;
            let other = others.last()->0;
            let results = parse(content(message.0, message.1)->Transcript_0)->0;
            let other_results = parse(content(other.0, other.1)->Transcript_0)->0;
            speech::law_other_readings_are_not_told(results, other_results);
        }
    }
}

/// Only stretches of speech with a reading are told of.
proof fn lemma_told_have_readings(
    messages: Seq<Option<(Seq<(Seq<char>, HeaderContent)>, Seq<u8>)>>,
    parse: spec_fn(Seq<char>) -> Option<Seq<AwsTranscriptResult>>,
    room: Option<nat>,
)
    ensures
        forall|i: int|
            0 <= i < run(messages, parse, room).told.len() ==> (#[trigger] run(
                messages,
                parse,
                room,
            ).told[i]).alternatives@.len() > 0,
    decreases messages.len(),
{
    if messages.len() > 0 {
        let before = run(messages.drop_last(), parse, room);
        lemma_told_have_readings(messages.drop_last(), parse, room);
        if !before.failed && !is_error(messages.last()) {
            let (headers, payload) = messages.last()->0;
            if content(headers, payload) is Transcript {
                if let Some(results) = parse(content(headers, payload)->Transcript_0) {
                    assert forall|i: int| 0 <= i < speech::spoken(results).len() implies (
                    #[trigger] speech::spoken(results)[i]).alternatives@.len() > 0 by {
                        speech::lemma_spoken_have_readings(results, i);
                    }
                }
            }
        }
    }
}

/// What is handed out says what to do: an error ends the stream, and nothing else does; a
/// transcript event is parsed, with the text that it came with; every other message is noted as
/// it is; and where there is none, there is nothing to do.
pub proof fn law_only_errors_end_a_stream(received: Result<Option<Incoming>, ReadError>)
    ensures
        action_for(received) is Fail <==> received is Err,
        action_for(received) matches StreamAction::Fail(error) ==> received matches Err(given)
            && error == given,
        action_for(received) is Parse <==> (received matches Ok(Some(Incoming::Transcript(_)))),
        action_for(received) matches StreamAction::Parse(text) ==> received
            == Ok::<Option<Incoming>, ReadError>(Some(Incoming::Transcript(text))),
        action_for(received) is Receive <==> (received matches Ok(None)),
        action_for(received) matches StreamAction::Note(incoming) ==> received
            == Ok::<Option<Incoming>, ReadError>(Some(incoming)),
{
}

/// What to do with what is handed out is told by what it is.
pub proof fn law_actions_are_told(
    received: Result<Option<Incoming>, ReadError>,
    action: StreamAction,
)
    requires
        call_ensures(next_action, (received,), action),
    ensures
        action is Fail <==> received is Err,
        action is Parse <==> (received matches Ok(Some(Incoming::Transcript(_)))),
        action is Receive <==> (received matches Ok(None)),
        action matches StreamAction::Parse(text) ==> received == Ok::<
            Option<Incoming>,
            ReadError,
        >(Some(Incoming::Transcript(text))),
        action matches StreamAction::Note(incoming) ==> received == Ok::<
            Option<Incoming>,
            ReadError,
        >(Some(incoming)),
        action matches StreamAction::Fail(error) ==> received == Err::<
            Option<Incoming>,
            ReadError,
        >(error),
{
    law_only_errors_end_a_stream(received);
}

} // verus!
