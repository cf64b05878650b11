//! Comings, goings and captions.

use regasi::model::{Participant, TranscriptionEvent, TranscriptionResult};
use regasi::session::{
    bin_name, route, Arrival, ArrivalStep, Departure, DepartureStep, Transcribers,
};
use regasi::timestamp::Timestamp;
use regasi::transcriber::TranscriberKind;
use std::rc::Rc;

const NOON: Timestamp = Timestamp { secs: 43_200, nanos: 7 };

fn arrival(nick: Option<&str>, save: bool) -> Arrival {
    Arrival::new(&"aws".to_owned(), "p1", nick.map(|nick| nick.to_owned()), save).unwrap()
}

fn speech(is_interim: bool) -> TranscriptionEvent {
    TranscriptionEvent::Speech {
        timestamp: NOON,
        participant: Participant::default(),
        is_interim,
        stability_percent: 100,
        language: "en-US".to_owned(),
        message_id: "m1".to_owned(),
        transcript: Vec::new(),
    }
}

#[test]
fn a_participant_joins() {
    let arrival = arrival(Some("Ada"), true);
    assert_eq!(arrival.transcriber, TranscriberKind::Aws);
    assert_eq!(arrival.bin_name, "participant_p1");
    assert!(arrival.recorded);
    let participant =
        Participant { id: "p1".to_owned(), name: "Ada".to_owned(), avatar_url: String::new() };
    assert_eq!(
        arrival.join_event(NOON),
        TranscriptionEvent::Join { timestamp: NOON, participant }
    );
}

#[test]
fn a_participant_without_a_name_is_someone() {
    assert_eq!(arrival(None, false).participant.name, "Someone");
    assert_eq!(arrival(Some(""), false).participant.name, "");
}

#[test]
fn an_unknown_service_is_refused() {
    for name in ["", "AWS", "gcp"] {
        match Arrival::new(&name.to_owned(), "p1", None, true) {
            Err(error) => {
                assert_eq!(error.text(), format!("invalid transcriber name: {}", name));
                assert_eq!(error.name, name);
            }
            Ok(_) => panic!("accepted"),
        }
    }
}

#[test]
fn a_recorded_arrival_takes_four_steps() {
    let arrival = arrival(None, true);
    let mut steps = vec![arrival.first_step()];
    while *steps.last().unwrap() != ArrivalStep::Done {
        steps.push(arrival.step_after(*steps.last().unwrap()));
    }
    assert_eq!(
        steps,
        vec![
            ArrivalStep::StartTranscriber,
            ArrivalStep::SaveJoin,
            ArrivalStep::AddBin,
            ArrivalStep::Register,
            ArrivalStep::Done,
        ]
    );
    assert_eq!(arrival.step_after(ArrivalStep::Done), ArrivalStep::Done);
}

#[test]
fn an_unrecorded_arrival_takes_three_steps() {
    let arrival = arrival(None, false);
    assert_eq!(arrival.first_step(), ArrivalStep::StartTranscriber);
    assert_eq!(arrival.step_after(ArrivalStep::StartTranscriber), ArrivalStep::AddBin);
    assert_eq!(arrival.step_after(ArrivalStep::AddBin), ArrivalStep::Register);
    assert_eq!(arrival.step_after(ArrivalStep::Register), ArrivalStep::Done);
}

#[test]
fn a_participant_leaves() {
    let departure = Departure::new("p1", true);
    assert_eq!(departure.bin_name, arrival(None, true).bin_name);
    let participant =
        Participant { id: "p1".to_owned(), name: String::new(), avatar_url: String::new() };
    assert_eq!(
        departure.leave_event(NOON),
        TranscriptionEvent::Leave { timestamp: NOON, participant }
    );
    assert_eq!(departure.first_step(), DepartureStep::RemoveBin);
    assert_eq!(departure.step_after(DepartureStep::RemoveBin), DepartureStep::Unregister);
    assert_eq!(departure.step_after(DepartureStep::Unregister), DepartureStep::SaveLeave);
    assert_eq!(departure.step_after(DepartureStep::SaveLeave), DepartureStep::Done);
}

#[test]
fn an_unrecorded_departure_saves_nothing() {
    let departure = Departure::new("p1", false);
    assert_eq!(departure.step_after(DepartureStep::Unregister), DepartureStep::Done);
}

#[test]
fn comings_and_goings_bear_the_current_time() {
    match arrival(None, true).join_event_now() {
        TranscriptionEvent::Join { timestamp, .. } => assert!(timestamp.secs > 1_600_000_000),
        _ => panic!("not a join"),
    }
    match Departure::new("p1", true).leave_event_now() {
        TranscriptionEvent::Leave { timestamp, .. } => assert!(timestamp.secs > 1_600_000_000),
        _ => panic!("not a leave"),
    }
}

#[test]
fn bins_are_named_after_participants() {
    assert_eq!(bin_name("abc"), "participant_abc");
    assert_ne!(bin_name("a"), bin_name("b"));
}

#[test]
fn the_register_keeps_services_until_their_participants_leave() {
    let (first, second, third) = (Rc::new(1), Rc::new(2), Rc::new(3));
    let mut transcribers = Transcribers::new();
    transcribers.register("a".to_owned(), first.clone());
    transcribers.register("b".to_owned(), second.clone());
    assert_eq!(Rc::strong_count(&first), 2);
    transcribers.register("a".to_owned(), third.clone());
    assert_eq!(Rc::strong_count(&first), 1);
    transcribers.unregister("a");
    transcribers.unregister("c");
    assert_eq!(Rc::strong_count(&third), 1);
    assert_eq!(Rc::strong_count(&second), 2);
}

#[test]
fn only_interim_speech_is_interim() {
    assert!(speech(true).is_interim());
    assert!(!speech(false).is_interim());
    let participant = Participant::default();
    assert!(!TranscriptionEvent::Join { timestamp: NOON, participant }.is_interim());
}

#[test]
fn captions_show_every_event() {
    for interim in [false, true] {
        for save in [false, true] {
            let routing = route(speech(interim), true, save);
            let result = routing.live.unwrap();
            assert_eq!(result.kind, "transcription-result");
            assert_eq!(result.event, speech(interim));
            assert_eq!(routing.saved.is_some(), save && !interim);
        }
    }
}

#[test]
fn the_record_keeps_final_events() {
    let routing = route(speech(false), false, true);
    assert!(routing.live.is_none());
    assert_eq!(routing.saved, Some(speech(false)));
    assert!(route(speech(true), false, true).saved.is_none());
    assert!(route(speech(false), false, false).saved.is_none());
}

#[test]
fn a_result_wraps_its_event() {
    let result = TranscriptionResult::new(speech(true));
    assert_eq!(result.kind, "transcription-result");
    assert_eq!(result.event.clone(), speech(true));
}
