//! Speech events.

use regasi::model::{Participant, Transcript, TranscriptionEvent};
use regasi::timestamp::Timestamp;
use regasi::transcriber::aws::model::{
    AwsTranscript, AwsTranscriptAlternative, AwsTranscriptEvent, AwsTranscriptItem,
    AwsTranscriptResult,
};
use regasi::transcriber::aws::speech::{speech_event, SpeechEvents};

const NOON: Timestamp = Timestamp { secs: 43_200, nanos: 7 };

fn participant() -> Participant {
    Participant { id: "p1".to_owned(), name: "Ada".to_owned(), avatar_url: String::new() }
}

fn item(stable: bool, confidence: Option<f64>) -> AwsTranscriptItem {
    AwsTranscriptItem { stable, confidence: confidence.map(|number| number.to_bits()) }
}

fn reading(text: &str, items: Vec<AwsTranscriptItem>) -> AwsTranscriptAlternative {
    AwsTranscriptAlternative { transcript: text.to_owned(), items }
}

fn result(id: &str, alternatives: Vec<AwsTranscriptAlternative>) -> AwsTranscriptResult {
    AwsTranscriptResult { alternatives, is_partial: false, result_id: id.to_owned() }
}

fn event(results: Vec<AwsTranscriptResult>) -> AwsTranscriptEvent {
    AwsTranscriptEvent { transcript: AwsTranscript { results } }
}

fn message_id(event: Option<TranscriptionEvent>) -> Option<String> {
    match event {
        Some(TranscriptionEvent::Speech { message_id, .. }) => Some(message_id),
        Some(_) => panic!("not speech"),
        None => None,
    }
}

#[test]
fn the_first_reading_is_told() {
    let items = vec![item(true, Some(0.5)), item(true, None), item(true, Some(0.25))];
    let readings = vec![reading("hello", items), reading("yellow", Vec::new())];
    let event = speech_event(&result("r1", readings), &participant(), NOON).unwrap();
    assert_eq!(
        event,
        TranscriptionEvent::Speech {
            timestamp: NOON,
            participant: participant(),
            is_interim: false,
            stability_percent: 100,
            language: "en-US".to_owned(),
            message_id: "r1".to_owned(),
            transcript: vec![Transcript {
                text: "hello".to_owned(),
                confidence_factors: vec![0.5f64.to_bits(), 0.25f64.to_bits()],
            }],
        }
    );
    assert_eq!(90.0 / 100.0, 0.9);
}

#[test]
fn one_unstable_item_lowers_the_stability() {
    let items = vec![item(true, None), item(false, None)];
    let mut result = result("r1", vec![reading("hello", items)]);
    result.is_partial = true;
    match speech_event(&result, &participant(), NOON) {
        Some(TranscriptionEvent::Speech { stability_percent, is_interim, transcript, .. }) => {
            assert_eq!(stability_percent, 90);
            assert!(is_interim);
            assert!(transcript[0].confidence_factors.is_empty());
        }
        _ => panic!("not speech"),
    }
}

#[test]
fn no_items_are_stable() {
    let result = result("r1", vec![reading("", Vec::new())]);
    match speech_event(&result, &participant(), NOON) {
        Some(TranscriptionEvent::Speech { stability_percent, .. }) => {
            assert_eq!(stability_percent, 100)
        }
        _ => panic!("not speech"),
    }
}

#[test]
fn without_a_reading_there_is_nothing_to_tell() {
    assert!(speech_event(&result("r1", Vec::new()), &participant(), NOON).is_none());
}

#[test]
fn events_come_in_order_and_skip_what_has_no_reading() {
    let results = vec![
        result("r1", Vec::new()),
        result("r2", vec![reading("a", Vec::new())]),
        result("r3", Vec::new()),
        result("r4", vec![reading("b", Vec::new())]),
        result("r5", Vec::new()),
    ];
    let mut events = SpeechEvents::new(event(results), &participant());
    assert_eq!(message_id(events.next(NOON)), Some("r2".to_owned()));
    assert_eq!(message_id(events.next(NOON)), Some("r4".to_owned()));
    assert_eq!(message_id(events.next(NOON)), None);
    assert_eq!(message_id(events.next(NOON)), None);
}

#[test]
fn events_bear_the_current_time() {
    let results = vec![result("r1", vec![reading("a", Vec::new())])];
    let mut events = SpeechEvents::new(event(results), &participant());
    match events.next_now() {
        Some(TranscriptionEvent::Speech { timestamp, .. }) => {
            assert!(timestamp.secs > 1_600_000_000);
            assert!(timestamp.nanos < 1_000_000_000);
        }
        _ => panic!("not speech"),
    }
    assert!(events.next_now().is_none());
}

#[test]
fn other_readings_do_not_change_what_is_told() {
    let items = || vec![item(true, Some(0.5))];
    let alone = result("r1", vec![reading("a", items())]);
    let among = result("r1", vec![reading("a", items()), reading("b", vec![item(false, None)])]);
    let told = speech_event(&alone, &participant(), NOON);
    assert!(told.is_some());
    assert_eq!(told, speech_event(&among, &participant(), NOON));
}
