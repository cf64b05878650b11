//! What is reported of a conference: who joins and leaves, and what is said.

use crate::timestamp::Timestamp;
use vstd::prelude::*;

verus! {

/// A participant of a conference.
#[derive(Debug, PartialEq, Eq)]
pub struct Participant {
    pub id: String,
    pub name: String,
    pub avatar_url: String,
}

/// The texts that describe a participant.
pub struct ParticipantView {
    pub id: Seq<char>,
    pub name: Seq<char>,
    pub avatar_url: Seq<char>,
}

impl View for Participant {
    type V = ParticipantView;

    open spec fn view(&self) -> ParticipantView {
        ParticipantView { id: self.id@, name: self.name@, avatar_url: self.avatar_url@ }
    }
}

impl Clone for Participant {
    fn clone(&self) -> (copy: Participant)
        ensures
            copy == *self,
    {
        Participant {
            id: self.id.clone(),
            name: self.name.clone(),
            avatar_url: self.avatar_url.clone(),
        }
    }
}

impl Default for Participant {
    fn default() -> (participant: Participant)
        ensures
            participant.id@ == Seq::<char>::empty(),
            participant.name@ == Seq::<char>::empty(),
            participant.avatar_url@ == Seq::<char>::empty(),
    {
        Participant { id: String::new(), name: String::new(), avatar_url: String::new() }
    }
}

/// One reading of what was said.
#[derive(Debug, PartialEq, Eq)]
pub struct Transcript {
    pub text: String,
    /// The numbers whose product is the confidence in the text, in the order in which they
    /// are multiplied. Each is a double-precision number, given by its bits.
    pub confidence_factors: Vec<u64>,
}

/// A reading's text and the factors of its confidence.
pub struct TranscriptView {
    pub text: Seq<char>,
    pub confidence_factors: Seq<u64>,
}

impl View for Transcript {
    type V = TranscriptView;

    open spec fn view(&self) -> TranscriptView {
        TranscriptView { text: self.text@, confidence_factors: self.confidence_factors@ }
    }
}

impl Clone for Transcript {
    fn clone(&self) -> (copy: Transcript)
        ensures
            copy@ == self@,
    {
        let confidence_factors = self.confidence_factors.clone();
        assert(confidence_factors@ =~= self.confidence_factors@);
        Transcript { text: self.text.clone(), confidence_factors }
    }
}

/// Something that happens in a conference.
#[derive(Debug, PartialEq, Eq)]
pub enum TranscriptionEvent {
    Join { timestamp: Timestamp, participant: Participant },
    Leave { timestamp: Timestamp, participant: Participant },
    Speech {
        timestamp: Timestamp,
        participant: Participant,
        /// Whether a later event with the same message id replaces this one.
        is_interim: bool,
        /// How unlikely the text is to change, in hundredths.
        stability_percent: u8,
        language: String,
        message_id: String,
        transcript: Vec<Transcript>,
    },
}

/// What an event says.
pub enum EventView {
    Join { timestamp: Timestamp, participant: ParticipantView },
    Leave { timestamp: Timestamp, participant: ParticipantView },
    Speech {
        timestamp: Timestamp,
        participant: ParticipantView,
        is_interim: bool,
        stability_percent: u8,
        language: Seq<char>,
        message_id: Seq<char>,
        transcript: Seq<TranscriptView>,
    },
}

impl EventView {
    /// Only speech can be interim.
    pub open spec fn is_interim(self) -> bool {
        self matches EventView::Speech { is_interim, .. } && is_interim
    }
}

impl View for TranscriptionEvent {
    type V = EventView;

    open spec fn view(&self) -> EventView {
        match self {
            TranscriptionEvent::Join { timestamp, participant } => EventView::Join {
                timestamp: *timestamp,
                participant: participant@,
            },
            TranscriptionEvent::Leave { timestamp, participant } => EventView::Leave {
                timestamp: *timestamp,
                participant: participant@,
            },
            TranscriptionEvent::Speech {
                timestamp,
                participant,
                is_interim,
                stability_percent,
                language,
                message_id,
                transcript,
            } => EventView::Speech {
                timestamp: *timestamp,
                participant: participant@,
                is_interim: *is_interim,
                stability_percent: *stability_percent,
                language: language@,
                message_id: message_id@,
                transcript: transcript@.map_values(|reading: Transcript| reading@),
            },
        }
    }
}

/// Copies some readings.
fn copy_transcripts(transcripts: &Vec<Transcript>) -> (copy: Vec<Transcript>)
    ensures
        copy@.map_values(|reading: Transcript| reading@) == transcripts@.map_values(
            |reading: Transcript| reading@,
        ),
{
    let mut copy: Vec<Transcript> = Vec::new();
    for i in 0..transcripts.len()
        invariant
            copy@.len() == i,
            forall|j: int| 0 <= j < i ==> (#[trigger] copy@[j])@ == transcripts@[j]@,
    {
        copy.push(transcripts[i].clone());
    }
    assert(copy@.map_values(|reading: Transcript| reading@) =~= transcripts@.map_values(
        |reading: Transcript| reading@,
    ));
    copy
}

impl Clone for TranscriptionEvent {
    fn clone(&self) -> (copy: TranscriptionEvent)
        ensures
            copy@ == self@,
    {
        match self {
            TranscriptionEvent::Join { timestamp, participant } => TranscriptionEvent::Join {
                timestamp: *timestamp,
                participant: participant.clone(),
            },
            TranscriptionEvent::Leave { timestamp, participant } => TranscriptionEvent::Leave {
                timestamp: *timestamp,
                participant: participant.clone(),
            },
            TranscriptionEvent::Speech {
                timestamp,
                participant,
                is_interim,
                stability_percent,
                language,
                message_id,
                transcript,
            } => TranscriptionEvent::Speech {
                timestamp: *timestamp,
                participant: participant.clone(),
                is_interim: *is_interim,
                stability_percent: *stability_percent,
                language: language.clone(),
                message_id: message_id.clone(),
                transcript: copy_transcripts(transcript),
            },
        }
    }
}

impl TranscriptionEvent {
    /// Whether a later event replaces this one.
    pub fn is_interim(&self) -> (interim: bool)
        ensures
            interim == self@.is_interim(),
    {
        match self {
            TranscriptionEvent::Speech { is_interim, .. } => *is_interim,
            _ => false,
        }
    }
}

/// An event as it is sent to the conference.
#[derive(Debug)]
pub struct TranscriptionResult {
    /// What the receivers tell such messages by.
    pub kind: String,
    pub event: TranscriptionEvent,
}

impl TranscriptionResult {
    /// The message that tells a conference of an event.
    pub fn new(event: TranscriptionEvent) -> (result: TranscriptionResult)
        ensures
            result.kind@ == "transcription-result"@,
            result.event == event,
    {
        TranscriptionResult { kind: "transcription-result".to_owned(), event }
    }
}

/// The view of a participant shows every text of the participant.
pub proof fn law_participant_is_shown(participant: Participant)
    ensures
        participant@.id == participant.id@,
        participant@.name == participant.name@,
        participant@.avatar_url == participant.avatar_url@,
{
}

/// The view of a reading shows its text and all its factors, in order.
pub proof fn law_transcript_is_shown(transcript: Transcript)
    ensures
        transcript@.text == transcript.text@,
        transcript@.confidence_factors == transcript.confidence_factors@,
{
}

/// The view of an event shows of what kind it is and every field of it, and of speech every
/// reading, in order.
pub proof fn law_event_is_shown(event: TranscriptionEvent)
    ensures
        match event {
            TranscriptionEvent::Join { timestamp, participant } => {
                &&& event@ is Join
                &&& event@->Join_timestamp == timestamp
                &&& event@->Join_participant == participant@
            },
            TranscriptionEvent::Leave { timestamp, participant } => {
                &&& event@ is Leave
                &&& event@->Leave_timestamp == timestamp
                &&& event@->Leave_participant == participant@
            },
            TranscriptionEvent::Speech {
                timestamp,
                participant,
                is_interim,
                stability_percent,
                language,
                message_id,
                transcript,
            } => {
                &&& event@ is Speech
                &&& event@->Speech_timestamp == timestamp
                &&& event@->Speech_participant == participant@
                &&& event@->is_interim == is_interim
                &&& event@->stability_percent == stability_percent
                &&& event@->language == language@
                &&& event@->message_id == message_id@
                &&& event@->transcript.len() == transcript@.len()
                &&& forall|i: int|
                    0 <= i < transcript@.len() ==> #[trigger] event@->transcript[i]
                        == transcript@[i]@
            },
        },
{
}

/// Arrivals and departures are never interim, and speech is if it is marked so, whatever else
/// it says.
pub proof fn law_only_marked_speech_is_interim(event: EventView)
    ensures
        event !is Speech ==> !event.is_interim(),
        event matches EventView::Speech { is_interim, .. } ==> event.is_interim() == is_interim,
{
}

/// Whether an event is interim is what speech is marked with, and nothing else.
pub proof fn law_interim_is_what_is_marked(event: TranscriptionEvent, interim: bool)
    requires
        call_ensures(TranscriptionEvent::is_interim, (&event,), interim),
    ensures
        event matches TranscriptionEvent::Speech { is_interim, .. } ==> interim == is_interim,
        event !is Speech ==> !interim,
{
}

/// The message that tells a conference of an event holds the event as it is.
pub proof fn law_results_hold_their_event(event: TranscriptionEvent, result: TranscriptionResult)
    requires
        call_ensures(TranscriptionResult::new, (event,), result),
    ensures
        result.event == event,
        result.kind@ == "transcription-result"@,
{
}

} // verus!
