use musicserver::event::NoteEvent;
use musicserver::playback::{playback_steps, PlaybackStep};
use musicserver::melody::{Melody, MelodyEvent};
use musicserver::performer::{make_ai_table, Performer};
use musicserver::random::{RandomSource, ROLL_SCALE};
use musicserver::transform::{accepts_variation, emphasis_anchored, figure_replaced, mirrored, ornament, transform, Transformation, GRACE_MS};

fn note(pitch: u8, duration: u64) -> MelodyEvent {
    MelodyEvent::Note { pitch, velocity: 90, duration }
}

fn sample() -> Melody {
    Melody::from_events(vec![note(60, 200), MelodyEvent::Rest { duration: 50 }, note(64, 300)])
}

#[test]
fn bypass_gives_empty_variation() {
    let table = make_ai_table();
    assert_eq!(table.current_choice(), Transformation::Bypass);
    let mut performer = Performer::new(7);
    let v = performer.create_variation(&sample(), table.current_choice(), 1000, 1000, 0);
    assert_eq!(v.len(), 0);
    let v = performer.create_variation(&Melody::new(), Transformation::Bypass, 0, 0, 0);
    assert_eq!(v.len(), 0);
}

#[test]
fn ai_table_lists_strategies() {
    let mut table = make_ai_table();
    assert_eq!(table.len(), 4);
    assert_eq!(table.name(0).as_str(), "Bypass");
    assert_eq!(table.name(1).as_str(), "Emphasis-Anchored Choice");
    assert_eq!(table.name(2).as_str(), "Consistent Figure Replacement");
    assert_eq!(table.name(3).as_str(), "Whimsical Variation");
    table.select(2);
    assert_eq!(table.current_choice(), Transformation::FigureReplacement);
    table.select(9);
    assert_eq!(table.choice_index(), 2);
    assert_eq!(table.current_choice(), Transformation::FigureReplacement);
    table.select(1);
    assert_eq!(table.current_choice(), Transformation::EmphasisAnchored);
}

fn vnote(pitch: u8, velocity: u8) -> MelodyEvent {
    MelodyEvent::Note { pitch, velocity, duration: 100 }
}

#[test]
fn emphasis_anchors_unaccented_notes() {
    let m = Melody::from_events(vec![
        vnote(60, 100),
        vnote(62, 50),
        MelodyEvent::Rest { duration: 10 },
        vnote(64, 50),
        vnote(67, 95),
        vnote(65, 40),
    ]);
    let rolls = vec![0u64, 0, 0, 900, 0, 0];
    let v = emphasis_anchored(&m, 500, &rolls);
    assert_eq!(v.events().clone(), vec![
        vnote(60, 100),
        vnote(60, 50),
        MelodyEvent::Rest { duration: 10 },
        vnote(64, 50),
        vnote(67, 95),
        vnote(67, 40),
    ]);
    let v = transform(Transformation::EmphasisAnchored, &m, 0, &rolls);
    assert_eq!(v.events().clone(), m.events().clone());
}

#[test]
fn emphasis_without_anchor_keeps_pitch() {
    let m = Melody::from_events(vec![vnote(62, 50), vnote(70, 30)]);
    let v = emphasis_anchored(&m, 1000, &vec![0u64, 0]);
    assert_eq!(v.events().clone(), m.events().clone());
}

#[test]
fn figures_are_mirrored_about_first_note() {
    let m = Melody::from_events(vec![MelodyEvent::Rest { duration: 10 }, note(60, 100), note(64, 100), note(55, 100), note(0, 100)]);
    let v = figure_replaced(&m);
    assert_eq!(v.events().clone(), vec![MelodyEvent::Rest { duration: 10 }, note(60, 100), note(56, 100), note(65, 100), note(120, 100)]);
    let rolls = vec![0u64; 5];
    let t = transform(Transformation::FigureReplacement, &m, 0, &rolls);
    assert_eq!(t.events().clone(), v.events().clone());
}

#[test]
fn mirror_outside_range_keeps_pitch() {
    assert_eq!(mirrored(60, 100), 60);
    assert_eq!(mirrored(110, 100), 90);
    assert_eq!(mirrored(127, 0), 127);
    let m = Melody::from_events(vec![MelodyEvent::Rest { duration: 5 }]);
    assert_eq!(figure_replaced(&m).events().clone(), m.events().clone());
    assert_eq!(figure_replaced(&Melody::new()).len(), 0);
}

#[test]
fn whimsical_moves_notes_under_probability() {
    let m = Melody::from_events(vec![note(60, 100), note(127, 100), MelodyEvent::Rest { duration: 10 }, note(70, 100)]);
    let rolls = vec![100u64, 100, 100, 900];
    let v = transform(Transformation::Whimsical, &m, 500, &rolls);
    assert_eq!(v.events().clone(), vec![note(62, 100), note(125, 100), MelodyEvent::Rest { duration: 10 }, note(70, 100)]);
    let v = transform(Transformation::Whimsical, &m, 0, &rolls);
    assert_eq!(v.events().clone(), m.events().clone());
}

#[test]
fn ornament_splits_long_notes() {
    let m = Melody::from_events(vec![note(60, 500), note(127, 500)]);
    let rolls = vec![0u64, 0];
    let v = ornament(&m, 1000, 0, &rolls);
    assert_eq!(v.events().clone(), vec![
        note(61, GRACE_MS),
        note(60, 500 - GRACE_MS),
        note(126, GRACE_MS),
        note(127, 500 - GRACE_MS),
    ]);
    assert_eq!(v.duration(), 1000);
}

#[test]
fn ornaments_respect_spacing() {
    let m = Melody::from_events(vec![note(60, 200), note(62, 200), note(64, 200), note(65, 200)]);
    let rolls = vec![0u64; 4];
    let v = ornament(&m, 1000, 400, &rolls);
    assert_eq!(v.events().clone(), vec![
        note(61, GRACE_MS),
        note(60, 200 - GRACE_MS),
        note(62, 200),
        note(65, GRACE_MS),
        note(64, 200 - GRACE_MS),
        note(65, 200),
    ]);
}

#[test]
fn ornament_never_with_zero_probability() {
    let m = sample();
    let rolls = vec![0u64; 3];
    let v = ornament(&m, 0, 0, &rolls);
    assert_eq!(v.events().clone(), m.events().clone());
}

#[test]
fn short_notes_get_no_ornament() {
    let m = Melody::from_events(vec![note(60, 2 * GRACE_MS - 1)]);
    let v = ornament(&m, 1000, 0, &vec![0u64]);
    assert_eq!(v.events().clone(), m.events().clone());
}

#[test]
fn gate_rejects_too_few_pitch_changes() {
    let v = Melody::from_events(vec![note(60, 400), note(62, 400), note(62, 400)]);
    assert_eq!(v.num_pitch_changes(), 2);
    assert_eq!(v.duration(), 1200);
    assert!(!accepts_variation(&v, 3, 1000));
}

#[test]
fn gate_accepts_long_varied_phrase() {
    let v = Melody::from_events(vec![note(60, 400), note(62, 400), note(64, 400)]);
    assert!(accepts_variation(&v, 3, 1000));
    assert!(!accepts_variation(&v, 3, 1200));
}

#[test]
fn respond_filters_and_forwards() {
    let mut table = make_ai_table();
    let m = Melody::from_events(vec![note(60, 400), note(62, 400), note(64, 400)]);
    let mut performer = Performer::new(3);
    assert!(performer.respond(&m, table.current_choice(), 0, 0, 0, 3, 1000).is_none());
    table.select(1);
    let v = performer
        .respond(&m, table.current_choice(), 0, 0, 0, 3, 1000)
        .expect("a varied phrase kept as it is is accepted");
    assert_eq!(v.events().clone(), m.events().clone());
    assert!(performer.respond(&m, table.current_choice(), 0, 0, 0, 4, 1000).is_none());
}

#[test]
fn random_source_is_deterministic() {
    let mut a = RandomSource::new(42);
    let mut b = RandomSource::new(42);
    let ra = a.rolls(16);
    let rb = b.rolls(16);
    assert_eq!(ra, rb);
    assert!(ra.iter().all(|r| *r < ROLL_SCALE));
    assert_eq!(RandomSource::new(0).state, 1);
    let mut c = RandomSource::new(1);
    assert_eq!(c.roll(), 761);
    assert_eq!(c.state, 1082269761);
}

#[test]
fn playback_sounds_and_releases_notes() {
    let steps = playback_steps(&sample());
    assert_eq!(steps, vec![
        PlaybackStep { event: Some(NoteEvent::NoteOn { pitch: 60, velocity: 90 }), wait_ms: 200 },
        PlaybackStep { event: Some(NoteEvent::NoteOff { pitch: 60, velocity: 90 }), wait_ms: 0 },
        PlaybackStep { event: None, wait_ms: 50 },
        PlaybackStep { event: Some(NoteEvent::NoteOn { pitch: 64, velocity: 90 }), wait_ms: 300 },
        PlaybackStep { event: Some(NoteEvent::NoteOff { pitch: 64, velocity: 90 }), wait_ms: 0 },
    ]);
    assert!(playback_steps(&Melody::new()).is_empty());
}
