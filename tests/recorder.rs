use musicserver::event::NoteEvent;
use musicserver::melody::{Melody, MelodyEvent};
use musicserver::recorder::PhraseRecorder;

fn on(pitch: u8, velocity: u8) -> NoteEvent {
    NoteEvent::NoteOn { pitch, velocity }
}

fn off(pitch: u8, velocity: u8) -> NoteEvent {
    NoteEvent::NoteOff { pitch, velocity }
}

#[test]
fn single_note_then_silence() {
    let mut rec = PhraseRecorder::new();
    assert!(rec.poll(Some(on(60, 100)), 0, 1000).is_none());
    assert!(rec.poll(Some(off(60, 100)), 500, 1000).is_none());
    assert!(rec.poll(None, 1000, 1000).is_none());
    assert!(rec.poll(None, 1500, 1000).is_none());
    let phrase = rec.poll(None, 1501, 1000).expect("phrase should end");
    let events = phrase.events().clone();
    assert_eq!(events.len(), 2);
    assert_eq!(events[0], MelodyEvent::Note { pitch: 60, velocity: 100, duration: 500 });
    match events[1] {
        MelodyEvent::Rest { duration } => assert!(duration >= 1000),
        _ => panic!("expected a trailing rest"),
    }
    assert_eq!(phrase.duration(), 1501);
}

#[test]
fn phrase_duration_spans_from_first_event() {
    let mut rec = PhraseRecorder::new();
    let t0: u64 = 10_000;
    assert!(rec.poll(Some(on(60, 90)), t0, 300).is_none());
    assert!(rec.poll(Some(off(60, 0)), t0 + 200, 300).is_none());
    assert!(rec.poll(Some(on(62, 80)), t0 + 250, 300).is_none());
    assert!(rec.poll(Some(off(62, 0)), t0 + 600, 300).is_none());
    assert!(rec.poll(Some(on(64, 70)), t0 + 700, 300).is_none());
    assert!(rec.poll(Some(off(64, 0)), t0 + 900, 300).is_none());
    let phrase = rec.poll(None, t0 + 1250, 300).expect("phrase should end");
    assert_eq!(phrase.duration(), 1250);
    assert_eq!(phrase.len(), 6);
    assert_eq!(phrase.num_pitch_changes(), 3);
}

#[test]
fn sounding_note_never_ends_phrase() {
    let mut rec = PhraseRecorder::new();
    assert!(rec.poll(Some(on(60, 100)), 0, 100).is_none());
    assert!(rec.poll(None, 5000, 100).is_none());
    assert!(!rec.check_if_finished(10_000, 100));
}

#[test]
fn trailing_rest_needs_silence_over_threshold() {
    let mut rec = PhraseRecorder::new();
    rec.handle_incoming(on(60, 100), 0);
    rec.handle_incoming(off(60, 100), 100);
    assert!(!rec.check_if_finished(600, 500));
    assert!(rec.check_if_finished(601, 500));
    assert!(rec.pending_note().is_none());
}

#[test]
fn note_on_with_zero_velocity_is_a_release() {
    let mut rec = PhraseRecorder::new();
    rec.handle_incoming(on(60, 100), 0);
    rec.handle_incoming(on(60, 0), 100);
    assert!(rec.check_if_finished(300, 150));
    let phrase = rec.take_phrase();
    assert_eq!(phrase.events().clone(), vec![
        MelodyEvent::Note { pitch: 60, velocity: 100, duration: 100 },
        MelodyEvent::Rest { duration: 200 },
    ]);
}

#[test]
fn no_events_no_phrase() {
    let mut rec = PhraseRecorder::new();
    assert!(rec.poll(None, 100_000, 10).is_none());
    assert!(!rec.check_if_finished(200_000, 10));
}

#[test]
fn rests_are_folded() {
    let mut m = Melody::from_events(vec![
        MelodyEvent::Rest { duration: 100 },
        MelodyEvent::Rest { duration: 50 },
        MelodyEvent::Note { pitch: 60, velocity: 1, duration: 10 },
        MelodyEvent::Rest { duration: 5 },
        MelodyEvent::Rest { duration: 5 },
        MelodyEvent::Rest { duration: 5 },
    ]);
    m.synchronize_rests();
    assert_eq!(m.events().clone(), vec![
        MelodyEvent::Rest { duration: 150 },
        MelodyEvent::Note { pitch: 60, velocity: 1, duration: 10 },
        MelodyEvent::Rest { duration: 15 },
    ]);
    assert_eq!(m.duration(), 175);
}

#[test]
fn rests_too_long_to_fold_stay_apart() {
    let mut m = Melody::from_events(vec![
        MelodyEvent::Rest { duration: u64::MAX },
        MelodyEvent::Rest { duration: 1 },
    ]);
    m.synchronize_rests();
    assert_eq!(m.len(), 2);
    assert_eq!(m.duration(), u64::MAX);
}

#[test]
fn pitch_changes_skip_repeats_and_rests() {
    let m = Melody::from_events(vec![
        MelodyEvent::Note { pitch: 60, velocity: 1, duration: 10 },
        MelodyEvent::Note { pitch: 60, velocity: 1, duration: 10 },
        MelodyEvent::Rest { duration: 10 },
        MelodyEvent::Note { pitch: 60, velocity: 1, duration: 10 },
        MelodyEvent::Note { pitch: 62, velocity: 1, duration: 10 },
    ]);
    assert_eq!(m.num_pitch_changes(), 2);
    assert_eq!(Melody::new().num_pitch_changes(), 0);
    assert_eq!(Melody::new().duration(), 0);
}

#[test]
fn finished_phrase_holds_every_event() {
    let mut rec = PhraseRecorder::new();
    assert!(rec.poll(Some(on(60, 100)), 0, 100).is_none());
    assert!(rec.poll(Some(off(60, 100)), 300, 100).is_none());
    assert!(rec.poll(Some(on(67, 80)), 350, 100).is_none());
    assert!(rec.poll(Some(off(67, 80)), 500, 100).is_none());
    let phrase = rec.poll(None, 700, 100).expect("phrase should end");
    assert_eq!(phrase.events().clone(), vec![
        MelodyEvent::Note { pitch: 60, velocity: 100, duration: 300 },
        MelodyEvent::Rest { duration: 50 },
        MelodyEvent::Note { pitch: 67, velocity: 80, duration: 150 },
        MelodyEvent::Rest { duration: 200 },
    ]);
}
