//! What is done as participants come and go and as they speak.

use crate::model::{
    EventView, Participant, ParticipantView, TranscriptionEvent, TranscriptionResult,
};
use crate::timestamp::Timestamp;
use crate::transcriber::aws::model::AwsTranscriptResult;
use crate::transcriber::aws::speech;
use crate::transcriber::{InvalidTranscriber, TranscriberKind};
use vstd::hash_map::StringHashMap;
use vstd::prelude::*;
use vstd::string::StringExecFns;

verus! {

/// The name of the part of the pipeline that a participant's audio runs through.
pub open spec fn bin_name_of(id: Seq<char>) -> Seq<char> {
    "participant_"@ + id
}

/// The name of the part of the pipeline that a participant's audio runs through.
pub fn bin_name(id: &str) -> (name: String)
    ensures
        name@ == bin_name_of(id@),
{
    "participant_".to_owned().concat(id)
}

/// What a participant is called who gave no name.
pub const UNNAMED: &'static str = "Someone";

/// A participant who joins.
pub struct Arrival {
    pub participant: Participant,
    pub transcriber: TranscriberKind,
    pub bin_name: String,
    /// Whether the arrival is put on record.
    pub recorded: bool,
}

/// What is to be done for a participant who joins.
#[derive(Clone, Copy, Debug, PartialEq, Eq, Structural)]
pub enum ArrivalStep {
    /// Start the service that transcribes the participant.
    StartTranscriber,
    /// Put the arrival on record.
    SaveJoin,
    /// Add a part for the participant's audio to the pipeline.
    AddBin,
    /// Keep the service in the register.
    Register,
    Done,
}

impl Arrival {
    /// What is to be done, in order. A step that fails ends it.
    pub open spec fn steps(&self) -> Seq<ArrivalStep> {
        if self.recorded {
            seq![
                ArrivalStep::StartTranscriber,
                ArrivalStep::SaveJoin,
                ArrivalStep::AddBin,
                ArrivalStep::Register,
                ArrivalStep::Done,
            ]
        } else {
            seq![
                ArrivalStep::StartTranscriber,
                ArrivalStep::AddBin,
                ArrivalStep::Register,
                ArrivalStep::Done,
            ]
        }
    }

    /// Prepares for a participant who joins. `transcriber` is the name of the service
    /// that was asked for, and `save` whether a record is kept. Nothing is done for a
    /// participant whom no service can transcribe.
    pub fn new(transcriber: &String, id: &str, nick: Option<String>, save: bool) -> (arrival:
        Result<Arrival, InvalidTranscriber>)
        ensures
            match arrival {
                Ok(arrival) => {
                    &&& TranscriberKind::of_name(transcriber@) == Some(arrival.transcriber)
                    &&& arrival.participant@ == (ParticipantView {
                        id: id@,
                        name: match nick {
                            Some(nick) => nick@,
                            None => UNNAMED@,
                        },
                        avatar_url: Seq::empty(),
                    })
                    &&& arrival.bin_name@ == bin_name_of(id@)
                    &&& arrival.recorded == save
                },
                Err(error) => {
                    &&& TranscriberKind::of_name(transcriber@) is None
                    &&& error.name@ == transcriber@
                },
            },
    {
        let transcriber = match TranscriberKind::from_name(transcriber) {
            Ok(kind) => kind,
            Err(error) => {
                return Err(error);
            },
        };
        let name = match nick {
            Some(nick) => nick,
            None => UNNAMED.to_owned(),
        };
        let participant = Participant { id: id.to_owned(), name, avatar_url: String::new() };
        Ok(Arrival { participant, transcriber, bin_name: bin_name(id), recorded: save })
    }

    /// What to do first.
    pub fn first_step(&self) -> (step: ArrivalStep)
        ensures
            step == self.steps()[0],
    {
        ArrivalStep::StartTranscriber
    }

    /// What to do once a step has succeeded. There is nothing after the last one.
    pub fn step_after(&self, done: ArrivalStep) -> (step: ArrivalStep)
        ensures
            forall|i: int|
                0 <= i < self.steps().len() - 1 && #[trigger] self.steps()[i] == done ==> step
                    == self.steps()[i + 1],
            done == ArrivalStep::StartTranscriber && self.recorded ==> step
                == ArrivalStep::SaveJoin,
            done == ArrivalStep::StartTranscriber && !self.recorded ==> step
                == ArrivalStep::AddBin,
            done == ArrivalStep::AddBin ==> step == ArrivalStep::Register,
            done == ArrivalStep::Register ==> step == ArrivalStep::Done,
            done == ArrivalStep::Done ==> step == ArrivalStep::Done,
            done == ArrivalStep::SaveJoin && !self.recorded ==> step == ArrivalStep::AddBin,
    {
        match done {
            ArrivalStep::StartTranscriber => if self.recorded {
                ArrivalStep::SaveJoin
            } else {
                ArrivalStep::AddBin
            },
            ArrivalStep::SaveJoin => ArrivalStep::AddBin,
            ArrivalStep::AddBin => ArrivalStep::Register,
            ArrivalStep::Register => ArrivalStep::Done,
            ArrivalStep::Done => ArrivalStep::Done,
        }
    }

    /// The event that puts the arrival on record.
    pub fn join_event(&self, timestamp: Timestamp) -> (event: TranscriptionEvent)
        ensures
            event@ == joins(self.participant@, timestamp),
    {
        TranscriptionEvent::Join { timestamp, participant: self.participant.clone() }
    }

    /// The event that puts the arrival on record, with the current time.
    pub fn join_event_now(&self) -> (event: TranscriptionEvent)
        ensures
            exists|timestamp: Timestamp|
                timestamp.is_clock_reading() && timestamp.nanos < 1_000_000_000 && event@ == (
                #[trigger] joins(self.participant@, timestamp)),
    {
        broadcast use crate::timestamp::law_clock_readings_are_read;

        let timestamp = Timestamp::now();
        self.join_event(timestamp)
    }
}

/// The event that says that a participant joined.
pub open spec fn joins(participant: ParticipantView, timestamp: Timestamp) -> EventView {
    EventView::Join { timestamp, participant }
}

/// The event that says that a participant left.
pub open spec fn leaves(participant: ParticipantView, timestamp: Timestamp) -> EventView {
    EventView::Leave { timestamp, participant }
}

/// A participant who leaves.
pub struct Departure {
    /// The participant, of whom only the id is known.
    pub participant: Participant,
    pub bin_name: String,
    /// Whether the departure is put on record.
    pub recorded: bool,
}

/// What is to be done for a participant who leaves.
#[derive(Clone, Copy, Debug, PartialEq, Eq, Structural)]
pub enum DepartureStep {
    /// Remove the part for the participant's audio from the pipeline, if it is there.
    RemoveBin,
    /// Drop the service that transcribes the participant from the register.
    Unregister,
    /// Put the departure on record.
    SaveLeave,
    Done,
}

impl Departure {
    /// What is to be done, in order. A step that fails ends it.
    pub open spec fn steps(&self) -> Seq<DepartureStep> {
        if self.recorded {
            seq![
                DepartureStep::RemoveBin,
                DepartureStep::Unregister,
                DepartureStep::SaveLeave,
                DepartureStep::Done,
            ]
        } else {
            seq![DepartureStep::RemoveBin, DepartureStep::Unregister, DepartureStep::Done]
        }
    }

    /// Prepares for a participant who leaves. `save` is whether a record is kept.
    pub fn new(id: &str, save: bool) -> (departure: Departure)
        ensures
            departure.participant@ == (ParticipantView {
                id: id@,
                name: Seq::empty(),
                avatar_url: Seq::empty(),
            }),
            departure.bin_name@ == bin_name_of(id@),
            departure.recorded == save,
    {
        let participant = Participant {
            id: id.to_owned(),
            name: String::new(),
            avatar_url: String::new(),
        };
        Departure { participant, bin_name: bin_name(id), recorded: save }
    }

    /// What to do first.
    pub fn first_step(&self) -> (step: DepartureStep)
        ensures
            step == self.steps()[0],
    {
        DepartureStep::RemoveBin
    }

    /// What to do once a step has succeeded. There is nothing after the last one.
    pub fn step_after(&self, done: DepartureStep) -> (step: DepartureStep)
        ensures
            forall|i: int|
                0 <= i < self.steps().len() - 1 && #[trigger] self.steps()[i] == done ==> step
                    == self.steps()[i + 1],
            done == DepartureStep::RemoveBin ==> step == DepartureStep::Unregister,
            done == DepartureStep::Unregister && self.recorded ==> step == DepartureStep::SaveLeave,
            done == DepartureStep::Unregister && !self.recorded ==> step == DepartureStep::Done,
            done == DepartureStep::Done || done == DepartureStep::SaveLeave ==> step
                == DepartureStep::Done,
    {
        match done {
            DepartureStep::RemoveBin => DepartureStep::Unregister,
            DepartureStep::Unregister => if self.recorded {
                DepartureStep::SaveLeave
            } else {
                DepartureStep::Done
            },
            DepartureStep::SaveLeave => DepartureStep::Done,
            DepartureStep::Done => DepartureStep::Done,
        }
    }

    /// The event that puts the departure on record.
    pub fn leave_event(&self, timestamp: Timestamp) -> (event: TranscriptionEvent)
        ensures
            event@ == leaves(self.participant@, timestamp),
    {
        TranscriptionEvent::Leave { timestamp, participant: self.participant.clone() }
    }

    /// The event that puts the departure on record, with the current time.
    pub fn leave_event_now(&self) -> (event: TranscriptionEvent)
        ensures
            exists|timestamp: Timestamp|
                timestamp.is_clock_reading() && timestamp.nanos < 1_000_000_000 && event@ == (
                #[trigger] leaves(self.participant@, timestamp)),
    {
        broadcast use crate::timestamp::law_clock_readings_are_read;

        let timestamp = Timestamp::now();
        self.leave_event(timestamp)
    }
}

/// The services that are at work, by the ids of the participants they transcribe.
#[verifier::reject_recursive_types(T)]
pub struct Transcribers<T> {
    running: StringHashMap<T>,
}

impl<T> View for Transcribers<T> {
    type V = Map<Seq<char>, T>;

    closed spec fn view(&self) -> Map<Seq<char>, T> {
        self.running@
    }
}

impl<T> Transcribers<T> {
    /// A register with no service at work.
    pub fn new() -> (transcribers: Transcribers<T>)
        ensures
            transcribers@ == Map::<Seq<char>, T>::empty(),
    {
        Transcribers { running: StringHashMap::new() }
    }

    /// Keeps the service that transcribes a participant, in place of one that was kept
    /// before.
    pub fn register(&mut self, id: String, transcriber: T)
        ensures
            final(self)@ == old(self)@.insert(id@, transcriber),
    {
        self.running.insert(id, transcriber);
    }

    /// Drops the service that transcribes a participant.
    pub fn unregister(&mut self, id: &str)
        ensures
            final(self)@ == old(self)@.remove(id@),
    {
        self.running.remove(id);
    }
}

/// Where an event goes.
pub struct Routing {
    /// What is sent to the conference.
    pub live: Option<TranscriptionResult>,
    /// What is put on record.
    pub saved: Option<TranscriptionEvent>,
}

impl Routing {
    /// Whether this is where an event goes: to the conference if captions are live, and on
    /// record if one is kept and no later event replaces it.
    pub open spec fn routes(&self, event: EventView, live: bool, save: bool) -> bool {
        &&& match self.live {
            Some(result) => live && result.kind@ == "transcription-result"@ && result.event@
                == event,
            None => !live,
        }
        &&& match self.saved {
            Some(saved) => save && !event.is_interim() && saved@ == event,
            None => !save || event.is_interim(),
        }
    }
}

/// Tells where an event goes.
pub fn route(event: TranscriptionEvent, live: bool, save: bool) -> (routing: Routing)
    ensures
        routing.routes(event@, live, save),
        routing.live is Some <==> live,
        routing.live matches Some(result) ==> result.event@ == event@,
        routing.saved is Some <==> save && !event@.is_interim(),
        routing.saved matches Some(saved) ==> saved@ == event@,
{
    let result = if live {
        Some(TranscriptionResult::new(event.clone()))
    } else {
        None
    };
    let saved = if save && !event.is_interim() {
        Some(event)
    } else {
        None
    };
    Routing { live: result, saved }
}

/// A departure finds the part of the pipeline that the arrival of the same participant
/// added, and never that of another participant.
pub proof fn law_departure_finds_the_bin(arrival: Arrival, departure: Departure)
    requires
        arrival.bin_name@ == bin_name_of(arrival.participant@.id),
        departure.bin_name@ == bin_name_of(departure.participant@.id),
    ensures
        arrival.bin_name@ == departure.bin_name@ <==> arrival.participant@.id
            == departure.participant@.id,
{
    let prefix = "participant_"@.len() as int;
    assert(arrival.bin_name@.skip(prefix) =~= arrival.participant@.id);
    assert(departure.bin_name@.skip(prefix) =~= departure.participant@.id);
}

/// A service is registered only once it gets audio, whether or not the arrival is on record.
pub proof fn law_registered_services_get_audio(arrival: Arrival, j: int, k: int)
    requires
        0 <= j < arrival.steps().len(),
        0 <= k < arrival.steps().len(),
        arrival.steps()[j] == ArrivalStep::AddBin,
        arrival.steps()[k] == ArrivalStep::Register,
    ensures
        j < k,
{
}

/// An arrival that is on record is so before any of the participant's audio is taken in.
pub proof fn law_arrivals_are_recorded_before_audio(arrival: Arrival, i: int, j: int)
    requires
        0 <= i < arrival.steps().len(),
        0 <= j < arrival.steps().len(),
        arrival.steps()[i] == ArrivalStep::SaveJoin,
        arrival.steps()[j] == ArrivalStep::AddBin,
    ensures
        i < j,
{
}

/// Arrivals and departures are on record exactly where a record is kept.
pub proof fn law_comings_and_goings_are_recorded(arrival: Arrival, departure: Departure)
    ensures
        arrival.steps().contains(ArrivalStep::SaveJoin) <==> arrival.recorded,
        departure.steps().contains(DepartureStep::SaveLeave) <==> departure.recorded,
{
    if arrival.recorded {
        assert(arrival.steps()[1] == ArrivalStep::SaveJoin);
    }
    if departure.recorded {
        assert(departure.steps()[2] == DepartureStep::SaveLeave);
    }
}

/// A participant who comes and goes leaves the register as it was without that
/// participant.
pub proof fn law_register_forgets<T>(before: Map<Seq<char>, T>, id: Seq<char>, transcriber: T)
    ensures
        before.insert(id, transcriber).remove(id) == before.remove(id),
        !before.contains_key(id) ==> before.insert(id, transcriber).remove(id) == before,
{
    assert(before.insert(id, transcriber).remove(id) =~= before.remove(id));
    if !before.contains_key(id) {
        assert(before.insert(id, transcriber).remove(id) =~= before);
    }
}

/// What the given routings put on record, in order.
pub open spec fn record(routings: Seq<Routing>) -> Seq<EventView>
    decreases routings.len(),
{
    if routings.len() == 0 {
        Seq::empty()
    } else {
        match routings.last().saved {
            Some(event) => record(routings.drop_last()).push(event@),
            None => record(routings.drop_last()),
        }
    }
}

/// The record holds the events that no later event replaces, in their order and as they
/// were; and it is empty where none is kept.
pub proof fn law_record_is_final(
    events: Seq<EventView>,
    routings: Seq<Routing>,
    live: bool,
    save: bool,
)
    requires
        events.len() == routings.len(),
        forall|i: int|
            0 <= i < events.len() ==> (#[trigger] routings[i]).routes(events[i], live, save),
    ensures
        record(routings) == if save {
            events.filter(|event: EventView| !event.is_interim())
        } else {
            Seq::empty()
        },
    decreases events.len(),
{
    reveal(Seq::filter);
    if events.len() > 0 {
        assert forall|i: int| 0 <= i < events.drop_last().len() implies (
        #[trigger] routings.drop_last()[i]).routes(events.drop_last()[i], live, save) by {
            assert(routings.drop_last()[i] == routings[i]);
        }
        law_record_is_final(events.drop_last(), routings.drop_last(), live, save);
        assert(routings.last().routes(events.last(), live, save));
    }
}

/// Captions show every event, also those that a later one replaces, and whether or not a
/// record is kept.
pub proof fn law_captions_are_live(event: EventView, routing: Routing, save: bool)
    requires
        routing.routes(event, true, save),
    ensures
        routing.live matches Some(result) && result.event@ == event,
{
}

/// What the service has not finished with never gets on record.
pub proof fn law_partial_results_are_not_recorded(
    result: AwsTranscriptResult,
    participant: ParticipantView,
    timestamp: Timestamp,
    routing: Routing,
    live: bool,
    save: bool,
)
    requires
        result.is_partial,
        routing.routes(speech::speech(result, participant, timestamp), live, save),
    ensures
        routing.saved is None,
{
}

/// A part of the pipeline is named by a fixed mark and the id behind it, letter for letter.
pub proof fn law_bin_names_end_in_the_id(id: Seq<char>)
    ensures
        bin_name_of(id).len() == id.len() + 12,
        bin_name_of(id).take(12) == "participant_"@,
        bin_name_of(id).skip(12) == id,
{
    reveal_strlit("participant_");
    assert(bin_name_of(id).take(12) =~= "participant_"@);
    assert(bin_name_of(id).skip(12) =~= id);
}

/// Whoever joins gets a service, a part of the pipeline and a place in the register, once
/// each, whatever they are called: the service comes first, and nothing is left to do after
/// all that.
pub proof fn law_arrivals_are_complete(arrival: Arrival)
    ensures
        arrival.steps().no_duplicates(),
        arrival.steps()[0] == ArrivalStep::StartTranscriber,
        arrival.steps().contains(ArrivalStep::AddBin),
        arrival.steps().contains(ArrivalStep::Register),
        arrival.steps().last() == ArrivalStep::Done,
        arrival.steps().len() == if arrival.recorded {
            5int
        } else {
            4
        },
{
    let n = arrival.steps().len() as int;
    assert(arrival.steps()[n - 3] == ArrivalStep::AddBin);
    assert(arrival.steps()[n - 2] == ArrivalStep::Register);
}

/// Of whoever leaves, the part of the pipeline and the service are dropped, once each and in
/// this order, before the departure is put on record; and nothing is left to do after that.
pub proof fn law_departures_are_complete(departure: Departure)
    ensures
        departure.steps().no_duplicates(),
        departure.steps()[0] == DepartureStep::RemoveBin,
        departure.steps()[1] == DepartureStep::Unregister,
        departure.steps().last() == DepartureStep::Done,
        departure.steps().len() == if departure.recorded {
            4int
        } else {
            3
        },
{
}

/// What is put on record of comings and goings says who and when, and which of the two.
pub proof fn law_records_say_who_and_when(participant: ParticipantView, timestamp: Timestamp)
    ensures
        joins(participant, timestamp) matches EventView::Join { timestamp: when, participant: who }
            && when == timestamp && who == participant,
        leaves(participant, timestamp) matches EventView::Leave {
            timestamp: when,
            participant: who,
        } && when == timestamp && who == participant,
{
}

/// The conference hears of an event exactly if captions are live: with captions off nothing is
/// sent, whatever the event is and whether or not a record is kept.
pub proof fn law_captions_only_when_live(
    event: EventView,
    routing: Routing,
    live: bool,
    save: bool,
)
    requires
        routing.routes(event, live, save),
    ensures
        routing.live is Some <==> live,
        routing.live matches Some(result) ==> result.event@ == event && result.kind@
            == "transcription-result"@,
{
}

/// An event gets on record, as it is, exactly if a record is kept and the event is not speech
/// that is marked as interim. Whether captions are live makes no difference.
pub proof fn law_record_takes_what_is_final(
    event: EventView,
    routing: Routing,
    live: bool,
    save: bool,
)
    requires
        routing.routes(event, live, save),
    ensures
        routing.saved matches Some(saved) ==> save && saved@ == event,
        event matches EventView::Speech { is_interim, .. } ==> (routing.saved is Some <==> save
            && !is_interim),
        event !is Speech ==> (routing.saved is Some <==> save),
{
}

/// The same event is routed to the same places each time, and live captions and the record do
/// not get in each other's way.
pub proof fn law_routes_are_independent(
    event: EventView,
    routing: Routing,
    live: bool,
    save: bool,
    other: Routing,
    other_live: bool,
    other_save: bool,
)
    requires
        routing.routes(event, live, save),
        other.routes(event, other_live, other_save),
    ensures
        live == other_live ==> (routing.live is Some <==> other.live is Some),
        save == other_save ==> (routing.saved is Some <==> other.saved is Some),
        routing.live is Some && other.live is Some ==> routing.live.unwrap().event@
            == other.live.unwrap().event@,
        routing.saved is Some && other.saved is Some ==> routing.saved.unwrap()@
            == other.saved.unwrap()@,
{
}

/// Of whoever joins, the id is kept as it is, and so is the name they gave; without one they
/// are someone. It is prepared for them exactly if the service that was asked for is there.
pub proof fn law_arrivals_keep_id_and_name(
    transcriber: String,
    id: &str,
    nick: Option<String>,
    save: bool,
    arrival: Result<Arrival, InvalidTranscriber>,
)
    requires
        call_ensures(Arrival::new, (&transcriber, id, nick, save), arrival),
    ensures
        arrival is Ok <==> transcriber@ =~= seq!['a', 'w', 's'],
        arrival matches Ok(arrival) ==> {
            &&& arrival.participant@.id == id@
            &&& nick matches Some(nick) ==> arrival.participant@.name == nick@
            &&& nick is None ==> arrival.participant@.name == "Someone"@
            &&& arrival.participant@.avatar_url.len() == 0
            &&& arrival.recorded == save
            &&& arrival.bin_name@.skip(12) == id@
        },
        arrival matches Err(error) ==> error.name@ == transcriber@,
{
    crate::transcriber::law_services_have_one_name(transcriber@);
    law_bin_names_end_in_the_id(id@);
}

/// Whoever leaves is known by the id with which they joined, and the part of the pipeline that
/// is removed is the one that was added for them.
pub proof fn law_departures_match_arrivals(
    transcriber: String,
    id: &str,
    nick: Option<String>,
    save: bool,
    arrival: Arrival,
    gone: &str,
    departure: Departure,
)
    requires
        call_ensures(Arrival::new, (&transcriber, id, nick, save), Ok(arrival)),
        call_ensures(Departure::new, (gone, save), departure),
    ensures
        departure.participant@.id == gone@,
        departure.participant@.name.len() == 0,
        departure.participant@.avatar_url.len() == 0,
        departure.recorded == arrival.recorded,
        arrival.participant@.id == departure.participant@.id <==> id@ == gone@,
        arrival.bin_name@ == departure.bin_name@ <==> id@ == gone@,
{
    law_departure_finds_the_bin(arrival, departure);
}

/// The name of a part of the pipeline ends in the id that it is for.
pub proof fn law_bins_are_named_after_ids(id: &str, name: String)
    requires
        call_ensures(bin_name, (id,), name),
    ensures
        name@.take(12) == "participant_"@,
        name@.skip(12) == id@,
{
    law_bin_names_end_in_the_id(id@);
}

/// The events of comings and goings say who came or went, and carry the given instant.
pub proof fn law_comings_and_goings_are_dated(
    arrival: Arrival,
    departure: Departure,
    timestamp: Timestamp,
    joined: TranscriptionEvent,
    left: TranscriptionEvent,
)
    requires
        call_ensures(Arrival::join_event, (&arrival, timestamp), joined),
        call_ensures(Departure::leave_event, (&departure, timestamp), left),
    ensures
        joined@ is Join,
        joined@->Join_timestamp == timestamp,
        joined@->Join_participant == arrival.participant@,
        left@ is Leave,
        left@->Leave_timestamp == timestamp,
        left@->Leave_participant == departure.participant@,
        !joined@.is_interim(),
        !left@.is_interim(),
{
}

/// The events of comings and goings carry what the clock showed.
pub proof fn law_comings_and_goings_carry_the_current_time(
    arrival: Arrival,
    departure: Departure,
    joined: TranscriptionEvent,
    left: TranscriptionEvent,
)
    requires
        call_ensures(Arrival::join_event_now, (&arrival,), joined),
        call_ensures(Departure::leave_event_now, (&departure,), left),
    ensures
        joined@ is Join,
        joined@->Join_timestamp.is_clock_reading(),
        joined@->Join_participant == arrival.participant@,
        left@ is Leave,
        left@->Leave_timestamp.is_clock_reading(),
        left@->Leave_participant == departure.participant@,
{
}

/// What to do after a step of an arrival is what follows it in the list.
pub proof fn law_arrival_steps_follow_each_other(
    arrival: Arrival,
    i: int,
    done: ArrivalStep,
    next: ArrivalStep,
    first: ArrivalStep,
)
    requires
        0 <= i < arrival.steps().len() - 1,
        arrival.steps()[i] == done,
        call_ensures(Arrival::step_after, (&arrival, done), next),
        call_ensures(Arrival::first_step, (&arrival,), first),
    ensures
        next == arrival.steps()[i + 1],
        first == ArrivalStep::StartTranscriber,
{
}

/// What to do after a step of a departure is what follows it in the list.
pub proof fn law_departure_steps_follow_each_other(
    departure: Departure,
    i: int,
    done: DepartureStep,
    next: DepartureStep,
    first: DepartureStep,
)
    requires
        0 <= i < departure.steps().len() - 1,
        departure.steps()[i] == done,
        call_ensures(Departure::step_after, (&departure, done), next),
        call_ensures(Departure::first_step, (&departure,), first),
    ensures
        next == departure.steps()[i + 1],
        first == DepartureStep::RemoveBin,
{
}

/// An event that is routed goes to the conference exactly if captions are live, and on record
/// exactly if a record is kept and it is final; and it arrives there as it is.
pub proof fn law_events_are_routed(
    event: TranscriptionEvent,
    live: bool,
    save: bool,
    routing: Routing,
)
    requires
        call_ensures(route, (event, live, save), routing),
    ensures
        routing.live is Some <==> live,
        routing.live matches Some(result) ==> result.event@ == event@ && result.kind@
            == "transcription-result"@,
        routing.saved is Some <==> save && !(event matches TranscriptionEvent::Speech {
            is_interim,
            ..
        } && is_interim),
        routing.saved matches Some(saved) ==> saved@ == event@,
{
}

} // verus!
