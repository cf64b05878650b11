//! The speech events that a transcript event of the service stands for.

use crate::model::{
    EventView, Participant, ParticipantView, Transcript, TranscriptView, TranscriptionEvent,
};
use crate::timestamp::Timestamp;
use crate::transcriber::aws::model::{
    AwsTranscriptEvent, AwsTranscriptItem, AwsTranscriptResult,
};
use vstd::prelude::*;

verus! {

/// The language that streams are opened for.
pub const LANGUAGE: &'static str = "en-US";

/// Whether no item of a reading will change any more.
pub open spec fn all_stable(items: Seq<AwsTranscriptItem>) -> bool {
    forall|i: int| 0 <= i < items.len() ==> (#[trigger] items[i]).stable
}

/// The confidences of those items that have one, in order.
pub open spec fn known_confidences(items: Seq<AwsTranscriptItem>) -> Seq<u64>
    decreases items.len(),
{
    if items.len() == 0 {
        Seq::empty()
    } else {
        match items.last().confidence {
            Some(confidence) => known_confidences(items.drop_last()).push(confidence),
            None => known_confidences(items.drop_last()),
        }
    }
}

/// The event that tells of a stretch of speech by its first reading. All its items being
/// stable makes for full stability, anything else for nine tenths.
pub open spec fn speech(
    result: AwsTranscriptResult,
    participant: ParticipantView,
    timestamp: Timestamp,
) -> EventView {
    let reading = result.alternatives@[0];
    EventView::Speech {
        timestamp,
        participant,
        is_interim: result.is_partial,
        stability_percent: if all_stable(reading.items@) {
            100
        } else {
            90
        },
        language: LANGUAGE@,
        message_id: result.result_id@,
        transcript: seq![
            TranscriptView {
                text: reading.transcript@,
                confidence_factors: known_confidences(reading.items@),
            },
        ],
    }
}

/// Whether no item of a reading will change any more.
fn check_all_stable(items: &Vec<AwsTranscriptItem>) -> (stable: bool)
    ensures
        stable == all_stable(items@),
{
    for i in 0..items.len()
        invariant
            forall|j: int| 0 <= j < i ==> (#[trigger] items@[j]).stable,
    {
        if !items[i].stable {
            return false;
        }
    }
    true
}

/// Collects the confidences of those items that have one.
fn collect_confidences(items: &Vec<AwsTranscriptItem>) -> (confidences: Vec<u64>)
    ensures
        confidences@ == known_confidences(items@),
{
    let mut confidences: Vec<u64> = Vec::new();
    for i in 0..items.len()
        invariant
            confidences@ == known_confidences(items@.take(i as int)),
    {
        assert(items@.take(i + 1).drop_last() =~= items@.take(i as int));
        if let Some(confidence) = items[i].confidence {
            confidences.push(confidence);
        }
    }
    assert(items@.take(items@.len() as int) =~= items@);
    confidences
}

/// The event that tells of a stretch of speech, unless there is no reading of it.
pub fn speech_event(
    result: &AwsTranscriptResult,
    participant: &Participant,
    timestamp: Timestamp,
) -> (event: Option<TranscriptionEvent>)
    ensures
        match event {
            Some(event) => {
                &&& result.alternatives@.len() > 0
                &&& event@ == speech(*result, participant@, timestamp)
            },
            None => result.alternatives@.len() == 0,
        },
{
    if result.alternatives.len() == 0 {
        return None;
    }
    let reading = &result.alternatives[0];
    let stability_percent: u8 = if check_all_stable(&reading.items) {
        100
    } else {
        90
    };
    let transcript = vec![
        Transcript {
            text: reading.transcript.clone(),
            confidence_factors: collect_confidences(&reading.items),
        },
    ];
    let event = TranscriptionEvent::Speech {
        timestamp,
        participant: participant.clone(),
        is_interim: result.is_partial,
        stability_percent,
        language: LANGUAGE.to_owned(),
        message_id: result.result_id.clone(),
        transcript,
    };
    assert(event@->transcript =~= speech(*result, participant@, timestamp)->transcript);
    Some(event)
}

/// The stretches of speech that have a reading, in order.
pub open spec fn spoken(results: Seq<AwsTranscriptResult>) -> Seq<AwsTranscriptResult>
    decreases results.len(),
{
    if results.len() == 0 {
        Seq::empty()
    } else if results[0].alternatives@.len() == 0 {
        spoken(results.drop_first())
    } else {
        seq![results[0]] + spoken(results.drop_first())
    }
}

/// Hands out the speech events of a transcript event one by one.
pub struct SpeechEvents {
    participant: Participant,
    results: Vec<AwsTranscriptResult>,
    position: usize,
}

impl SpeechEvents {
    /// The position is one in the list of results, or its end.
    #[verifier::type_invariant]
    spec fn wf(&self) -> bool {
        self.position <= self.results@.len()
    }

    /// Who speaks.
    pub closed spec fn speaker(&self) -> ParticipantView {
        self.participant@
    }

    /// The stretches of speech that are still to be told of.
    pub closed spec fn remaining(&self) -> Seq<AwsTranscriptResult> {
        spoken(self.results@.skip(self.position as int))
    }

    /// All speech events of a transcript event.
    pub fn new(event: AwsTranscriptEvent, participant: &Participant) -> (events: SpeechEvents)
        ensures
            events.speaker() == participant@,
            events.remaining() == spoken(event.transcript.results@),
    {
        let results = event.transcript.results;
        assert(results@.skip(0) =~= results@);
        SpeechEvents { participant: participant.clone(), results, position: 0 }
    }

    /// What handing out the next event at the given instant comes to.
    pub open spec fn hands_out(
        &self,
        after: SpeechEvents,
        timestamp: Timestamp,
        event: Option<TranscriptionEvent>,
    ) -> bool {
        &&& after.speaker() == self.speaker()
        &&& match event {
            Some(event) => {
                &&& self.remaining().len() > 0
                &&& event@ == speech(self.remaining()[0], self.speaker(), timestamp)
                &&& after.remaining() == self.remaining().drop_first()
            },
            None => {
                &&& self.remaining().len() == 0
                &&& after.remaining().len() == 0
            },
        }
    }

    /// Hands out the next event. Stretches of speech without a reading are passed over.
    pub fn next(&mut self, timestamp: Timestamp) -> (event: Option<TranscriptionEvent>)
        ensures
            old(self).hands_out(*final(self), timestamp, event),
    {
        proof {
            use_type_invariant(&*self);
        }
        while self.position < self.results.len()
            invariant
                self.wf(),
                self.participant == old(self).participant,
                self.remaining() == old(self).remaining(),
            decreases self.results.len() - self.position,
        {
            let ghost rest = self.results@.skip(self.position as int);
            assert(rest.drop_first() =~= self.results@.skip(self.position + 1));
            let event = speech_event(&self.results[self.position], &self.participant, timestamp);
            self.position = self.position + 1;
            if event.is_some() {
                assert((seq![rest[0]] + spoken(rest.drop_first())).drop_first() =~= spoken(
                    rest.drop_first(),
                ));
                return event;
            }
        }
        None
    }

    /// Hands out the next event as `next` does, with the current time.
    pub fn next_now(&mut self) -> (event: Option<TranscriptionEvent>)
        ensures
            exists|timestamp: Timestamp|
                timestamp.is_clock_reading() && timestamp.nanos < 1_000_000_000
                    && #[trigger] old(self).hands_out(*final(self), timestamp, event),
    {
        broadcast use crate::timestamp::law_clock_readings_are_read;

        let timestamp = Timestamp::now();
        self.next(timestamp)
    }
}

/// Every stretch of speech that has a reading is told of once, in order, and no other.
pub proof fn law_spoken_keeps_what_has_a_reading(results: Seq<AwsTranscriptResult>)
    ensures
        spoken(results) == results.filter(
            |result: AwsTranscriptResult| result.alternatives@.len() > 0,
        ),
    decreases results.len(),
{
    let has_reading = |result: AwsTranscriptResult| result.alternatives@.len() > 0;
    reveal(Seq::filter);
    if results.len() > 0 {
        let first = seq![results[0]];
        law_spoken_keeps_what_has_a_reading(results.drop_first());
        assert(first + results.drop_first() =~= results);
        Seq::filter_distributes_over_add(first, results.drop_first(), has_reading);
        assert(first.drop_last() =~= Seq::empty());
        assert(first.drop_last().filter(has_reading) =~= Seq::empty());
        assert(spoken(results) =~= first.filter(has_reading) + results.drop_first().filter(
            has_reading,
        ));
    }
}

/// The events that are handed out tell of the stretches of speech that remained at the start,
/// from the first one on, in order and none left out, and each carries the instant at which
/// it was asked for. `states` are what the events were handed out of, one after the other.
pub proof fn law_speech_is_told_in_order(
    states: Seq<SpeechEvents>,
    timestamps: Seq<Timestamp>,
    events: Seq<TranscriptionEvent>,
)
    requires
        states.len() == events.len() + 1,
        timestamps.len() == events.len(),
        forall|i: int|
            0 <= i < events.len() ==> (#[trigger] states[i]).hands_out(
                states[i + 1],
                timestamps[i],
                Some(events[i]),
            ),
    ensures
        events.len() <= states[0].remaining().len(),
        states.last().remaining() == states[0].remaining().skip(events.len() as int),
        forall|i: int|
            0 <= i < events.len() ==> (#[trigger] events[i])@ == speech(
                states[0].remaining()[i],
                states[0].speaker(),
                timestamps[i],
            ),
    decreases events.len(),
{
    if events.len() == 0 {
        assert(states[0].remaining().skip(0) =~= states[0].remaining());
    } else {
        let rest = states.drop_first();
        assert(states[0].hands_out(states[1], timestamps[0], Some(events[0])));
        assert forall|i: int| 0 <= i < events.drop_first().len() implies (
        #[trigger] rest[i]).hands_out(
            rest[i + 1],
            timestamps.drop_first()[i],
            Some(events.drop_first()[i]),
        ) by {
            assert(states[i + 1].hands_out(states[i + 2], timestamps[i + 1], Some(events[i + 1])));
        }
        law_speech_is_told_in_order(rest, timestamps.drop_first(), events.drop_first());
        assert forall|i: int| 0 <= i < events.len() implies (#[trigger] events[i])@ == speech(
            states[0].remaining()[i],
            states[0].speaker(),
            timestamps[i],
        ) by {
            if i > 0 {
                assert(events[i] == events.drop_first()[i - 1]);
                assert(states[0].remaining()[i] == states[1].remaining()[i - 1]);
            }
        }
        assert(states.last().remaining() =~= states[0].remaining().skip(events.len() as int));
    }
}

/// Where events are handed out until there are none left, they tell of every stretch of
/// speech that remained at the start.
pub proof fn law_all_speech_is_told(
    states: Seq<SpeechEvents>,
    timestamps: Seq<Timestamp>,
    events: Seq<TranscriptionEvent>,
    end: SpeechEvents,
    asked: Timestamp,
)
    requires
        states.len() == events.len() + 1,
        timestamps.len() == events.len(),
        forall|i: int|
            0 <= i < events.len() ==> (#[trigger] states[i]).hands_out(
                states[i + 1],
                timestamps[i],
                Some(events[i]),
            ),
        states.last().hands_out(end, asked, None),
    ensures
        events.len() == states[0].remaining().len(),
        forall|i: int|
            0 <= i < events.len() ==> (#[trigger] events[i])@ == speech(
                states[0].remaining()[i],
                states[0].speaker(),
                timestamps[i],
            ),
{
    law_speech_is_told_in_order(states, timestamps, events);
}

/// Whether the same is told of two stretches of speech: neither has a reading, or they have
/// the same first one and agree on their id and on being finished.
pub open spec fn tells_the_same(result: AwsTranscriptResult, other: AwsTranscriptResult) -> bool {
    &&& result.alternatives@.len() > 0 <==> other.alternatives@.len() > 0
    &&& result.alternatives@.len() > 0 ==> {
        &&& result.alternatives@[0].transcript@ == other.alternatives@[0].transcript@
        &&& result.alternatives@[0].items@ == other.alternatives@[0].items@
        &&& result.is_partial == other.is_partial
        &&& result.result_id@ == other.result_id@
    }
}

/// Whether the same is told of two lists of stretches of speech.
pub open spec fn tell_the_same(
    results: Seq<AwsTranscriptResult>,
    others: Seq<AwsTranscriptResult>,
) -> bool {
    &&& results.len() == others.len()
    &&& forall|i: int| 0 <= i < results.len() ==> tells_the_same(#[trigger] results[i], others[i])
}

/// Readings behind the first one do not change what is told: lists of stretches of speech
/// that differ in nothing else, apart from those without any reading, give the same events.
pub proof fn law_other_readings_are_not_told(
    results: Seq<AwsTranscriptResult>,
    others: Seq<AwsTranscriptResult>,
)
    requires
        tell_the_same(results, others),
    ensures
        tell_the_same(spoken(results), spoken(others)),
        forall|i: int, participant: ParticipantView, timestamp: Timestamp|
            0 <= i < spoken(results).len() ==> #[trigger] speech(
                spoken(results)[i],
                participant,
                timestamp,
            ) == speech(spoken(others)[i], participant, timestamp),
    decreases results.len(),
{
    if results.len() > 0 {
        assert(tells_the_same(results[0], others[0]));
        assert forall|i: int| 0 <= i < results.drop_first().len() implies tells_the_same(
            #[trigger] results.drop_first()[i],
            others.drop_first()[i],
        ) by {
            assert(tells_the_same(results[i + 1], others[i + 1]));
        }
        law_other_readings_are_not_told(results.drop_first(), others.drop_first());
    }
    assert(tell_the_same(spoken(results), spoken(others)));
    assert forall|i: int, participant: ParticipantView, timestamp: Timestamp|
        0 <= i < spoken(results).len() implies #[trigger] speech(
        spoken(results)[i],
        participant,
        timestamp,
    ) == speech(spoken(others)[i], participant, timestamp) by {
        lemma_spoken_have_readings(results, i);
        lemma_same_speech(spoken(results)[i], spoken(others)[i], participant, timestamp);
    }
}

/// What is told of is a stretch of speech with a reading.
pub proof fn lemma_spoken_have_readings(results: Seq<AwsTranscriptResult>, i: int)
    requires
        0 <= i < spoken(results).len(),
    ensures
        spoken(results)[i].alternatives@.len() > 0,
    decreases results.len(),
{
    if results[0].alternatives@.len() == 0 {
        lemma_spoken_have_readings(results.drop_first(), i);
    } else if i > 0 {
        lemma_spoken_have_readings(results.drop_first(), i - 1);
    }
}

/// Two stretches of speech of which the same is told give the same event.
pub proof fn lemma_same_speech(
    result: AwsTranscriptResult,
    other: AwsTranscriptResult,
    participant: ParticipantView,
    timestamp: Timestamp,
)
    requires
        tells_the_same(result, other),
        result.alternatives@.len() > 0,
    ensures
        speech(result, participant, timestamp) == speech(other, participant, timestamp),
{
}

/// The confidence in a reading is made of the confidences of all items that have one, in order,
/// and of nothing else.
pub proof fn law_every_confidence_counts(items: Seq<AwsTranscriptItem>)
    ensures
        known_confidences(items) == items.filter(
            |item: AwsTranscriptItem| item.confidence is Some,
        ).map_values(|item: AwsTranscriptItem| item.confidence->0),
    decreases items.len(),
{
    let known = |item: AwsTranscriptItem| item.confidence is Some;
    let value = |item: AwsTranscriptItem| item.confidence->0;
    reveal(Seq::filter);
    if items.len() == 0 {
        assert(known_confidences(items) =~= items.filter(known).map_values(value));
    } else {
        law_every_confidence_counts(items.drop_last());
        let earlier = items.drop_last().filter(known);
        if items.last().confidence is Some {
            assert(earlier.push(items.last()).map_values(value) =~= earlier.map_values(value).push(
                value(items.last()),
            ));
        }
    }
}

/// What is stable or not makes no difference to the confidence: two readings whose items have
/// the same confidences have the same factors.
pub proof fn law_confidence_ignores_stability(
    items: Seq<AwsTranscriptItem>,
    others: Seq<AwsTranscriptItem>,
)
    requires
        items.len() == others.len(),
        forall|i: int|
            0 <= i < items.len() ==> (#[trigger] items[i]).confidence == others[i].confidence,
    ensures
        known_confidences(items) == known_confidences(others),
    decreases items.len(),
{
    if items.len() > 0 {
        assert forall|i: int| 0 <= i < items.drop_last().len() implies (
        #[trigger] items.drop_last()[i]).confidence == others.drop_last()[i].confidence by {
            assert(items[i].confidence == others[i].confidence);
        }
        law_confidence_ignores_stability(items.drop_last(), others.drop_last());
    }
}

/// Where every item has a confidence, there is a factor for each, in its place; and items
/// without one add nothing.
pub proof fn law_confidences_keep_their_places(items: Seq<AwsTranscriptItem>)
    ensures
        known_confidences(items).len() <= items.len(),
        (forall|i: int| 0 <= i < items.len() ==> (#[trigger] items[i]).confidence is Some) ==> {
            &&& known_confidences(items).len() == items.len()
            &&& forall|i: int|
                0 <= i < items.len() ==> #[trigger] known_confidences(items)[i]
                    == items[i].confidence->0
        },
        (forall|i: int| 0 <= i < items.len() ==> (#[trigger] items[i]).confidence is None)
            ==> known_confidences(items).len() == 0,
    decreases items.len(),
{
    if items.len() > 0 {
        law_confidences_keep_their_places(items.drop_last());
        let all = forall|i: int| 0 <= i < items.len() ==> (#[trigger] items[i]).confidence is Some;
        let none = forall|i: int| 0 <= i < items.len() ==> (#[trigger] items[i]).confidence is None;
        assert forall|i: int| all && 0 <= i < items.drop_last().len() implies (
        #[trigger] items.drop_last()[i]).confidence is Some by {
            assert(items[i].confidence is Some);
        }
        assert forall|i: int| none && 0 <= i < items.drop_last().len() implies (
        #[trigger] items.drop_last()[i]).confidence is None by {
            assert(items[i].confidence is None);
        }
        assert(items.last() == items[items.len() - 1]);
    }
}

/// What is told of a stretch of speech: the text of its first reading and nothing of the
/// others, with that reading's confidences; whose it is and when; the service's id for it; and
/// that it is interim exactly as long as the service is at work on it.
pub proof fn law_speech_tells_the_first_reading(
    result: AwsTranscriptResult,
    participant: ParticipantView,
    timestamp: Timestamp,
)
    requires
        result.alternatives@.len() > 0,
    ensures
        ({
            let event = speech(result, participant, timestamp);
            let first = result.alternatives@[0];
            &&& event is Speech
            &&& event->Speech_timestamp == timestamp
            &&& event->Speech_participant == participant
            &&& event->is_interim == result.is_partial
            &&& event.is_interim() == result.is_partial
            &&& event->language == "en-US"@
            &&& event->message_id == result.result_id@
            &&& event->transcript.len() == 1
            &&& event->transcript[0].text == first.transcript@
            &&& event->transcript[0].confidence_factors == first.items@.filter(
                |item: AwsTranscriptItem| item.confidence is Some,
            ).map_values(|item: AwsTranscriptItem| item.confidence->0)
        }),
{
    law_every_confidence_counts(result.alternatives@[0].items@);
}

/// Speech is fully stable exactly if no item of its first reading can change any more, and
/// nine tenths stable otherwise. One unstable item is enough, wherever it stands.
pub proof fn law_one_unstable_item_lowers_the_stability(
    result: AwsTranscriptResult,
    participant: ParticipantView,
    timestamp: Timestamp,
)
    ensures
        ({
            let stability = speech(result, participant, timestamp)->stability_percent;
            let items = result.alternatives@[0].items@;
            &&& stability == 100 || stability == 90
            &&& stability == 90 <==> exists|i: int|
                0 <= i < items.len() && !(#[trigger] items[i]).stable
        }),
{
}

/// A stretch of speech is passed over exactly if it has no reading, whether or not it is
/// finished.
pub proof fn law_speech_without_a_reading_is_passed_over(result: AwsTranscriptResult)
    ensures
        result.alternatives@.len() == 0 ==> spoken(seq![result]).len() == 0,
        result.alternatives@.len() > 0 ==> spoken(seq![result]) == seq![result],
{
    reveal_with_fuel(spoken, 2);
    assert(seq![result].drop_first() =~= Seq::empty());
    assert(seq![result] + Seq::<AwsTranscriptResult>::empty() =~= seq![result]);
}

/// Transcript events add up: what is told of two lists of stretches of speech, one behind the
/// other, is what is told of each.
pub proof fn law_speech_adds_up(
    results: Seq<AwsTranscriptResult>,
    more: Seq<AwsTranscriptResult>,
)
    ensures
        spoken(results + more) == spoken(results) + spoken(more),
    decreases results.len(),
{
    if results.len() == 0 {
        assert(results + more =~= more);
        assert(spoken(results) + spoken(more) =~= spoken(more));
    } else {
        assert((results + more).drop_first() =~= results.drop_first() + more);
        law_speech_adds_up(results.drop_first(), more);
        assert(spoken(results + more) =~= spoken(results) + spoken(more));
    }
}

/// What handing out an event leaves and gives: the events come for as long as there is speech
/// to tell of, each for the first stretch that remains, and then stop for good.
pub proof fn law_events_come_while_speech_remains(
    before: SpeechEvents,
    after: SpeechEvents,
    timestamp: Timestamp,
    event: Option<TranscriptionEvent>,
)
    requires
        before.hands_out(after, timestamp, event),
    ensures
        event is Some <==> before.remaining().len() > 0,
        event matches Some(event) ==> event@ == speech(
            before.remaining().first(),
            before.speaker(),
            timestamp,
        ),
        event is Some ==> seq![before.remaining().first()] + after.remaining()
            == before.remaining(),
        event is None ==> after.remaining().len() == 0,
        after.speaker() == before.speaker(),
{
    if event is Some {
        assert(seq![before.remaining().first()] + after.remaining() =~= before.remaining());
    }
}

/// There is an event for a stretch of speech exactly if it has a reading, and the event says
/// what the first one says.
pub proof fn law_speech_events(
    result: AwsTranscriptResult,
    participant: Participant,
    timestamp: Timestamp,
    event: Option<TranscriptionEvent>,
)
    requires
        call_ensures(speech_event, (&result, &participant, timestamp), event),
    ensures
        event is Some <==> result.alternatives@.len() > 0,
        event matches Some(event) ==> event@ == speech(result, participant@, timestamp),
{
}

} // verus!
