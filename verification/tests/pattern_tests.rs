use earworm::pattern::Pattern;
use earworm::pitch::Pitch;

/// A note event as the tests describe it: pitch, octave, velocity, duration.
type Event = (Pitch, i8, f64, Option<f64>);

fn from_pitch(pitch: Pitch, octave: i8, velocity: f64, duration: Option<f64>) -> Event {
    (pitch, octave, velocity, duration)
}

/// A note event given by MIDI number and MIDI velocity.
fn from_midi(note: u8, velocity: u8, duration: Option<f64>) -> (u8, f64, Option<f64>) {
    (note, velocity as f64 / 127.0, duration)
}

#[test]
fn pattern_test_creation() {
    let pattern: Pattern<Event> = Pattern::new(16);
    assert_eq!(pattern.length(), 16);
    assert_eq!(pattern.event_count(), 0);
    assert!(pattern.is_empty());
    assert_eq!(pattern.name(), None);
    assert_eq!(pattern.description(), None);
}

#[test]
fn test_metadata() {
    let mut pattern: Pattern<Event> = Pattern::new(16);

    pattern.set_name("Test Pattern");
    assert_eq!(pattern.name(), Some("Test Pattern"));

    pattern.set_description("A test pattern");
    assert_eq!(pattern.description(), Some("A test pattern"));
}

#[test]
fn test_add_event() {
    let mut pattern = Pattern::new(16);
    let event = from_pitch(Pitch::C, 4, 0.8, Some(0.5));

    pattern.add_event(0, event);
    assert_eq!(pattern.event_count(), 1);
    assert!(!pattern.is_empty());
}

#[test]
fn test_multiple_events_same_step() {
    let mut pattern = Pattern::new(16);
    let event1 = from_pitch(Pitch::C, 4, 0.8, Some(0.5));
    let event2 = from_pitch(Pitch::E, 4, 0.7, Some(0.5));
    let event3 = from_pitch(Pitch::G, 4, 0.6, Some(0.5));

    pattern.add_event(0, event1);
    pattern.add_event(0, event2);
    pattern.add_event(0, event3);

    assert_eq!(pattern.event_count(), 3);
    assert_eq!(pattern.events_at_step(0).len(), 3);
}

#[test]
fn test_events_at_step() {
    let mut pattern = Pattern::new(16);
    let event1 = from_pitch(Pitch::C, 4, 0.8, Some(0.5));
    let event2 = from_pitch(Pitch::E, 4, 0.7, Some(0.5));

    pattern.add_event(0, event1);
    pattern.add_event(4, event2);

    let events_0 = pattern.events_at_step(0);
    assert_eq!(events_0.len(), 1);

    let events_4 = pattern.events_at_step(4);
    assert_eq!(events_4.len(), 1);

    let events_1 = pattern.events_at_step(1);
    assert_eq!(events_1.len(), 0);
}

#[test]
fn test_clear_step() {
    let mut pattern = Pattern::new(16);
    let event1 = from_pitch(Pitch::C, 4, 0.8, Some(0.5));
    let event2 = from_pitch(Pitch::E, 4, 0.7, Some(0.5));
    let event3 = from_pitch(Pitch::G, 4, 0.6, Some(0.5));

    pattern.add_event(0, event1);
    pattern.add_event(0, event2);
    pattern.add_event(4, event3);

    let removed = pattern.clear_step(0);
    assert_eq!(removed, 2);
    assert_eq!(pattern.event_count(), 1);
    assert_eq!(pattern.events_at_step(0).len(), 0);
    assert_eq!(pattern.events_at_step(4).len(), 1);
}

#[test]
fn test_clear() {
    let mut pattern = Pattern::new(16);
    let event = from_pitch(Pitch::C, 4, 0.8, Some(0.5));

    pattern.add_event(0, event);
    pattern.add_event(4, event);
    pattern.add_event(8, event);

    pattern.clear();
    assert_eq!(pattern.event_count(), 0);
    assert!(pattern.is_empty());
}

#[test]
fn test_events_iterator() {
    let mut pattern = Pattern::new(16);
    let event1 = from_pitch(Pitch::C, 4, 0.8, Some(0.5));
    let event2 = from_pitch(Pitch::E, 4, 0.7, Some(0.5));

    pattern.add_event(0, event1);
    pattern.add_event(4, event2);

    let events: Vec<_> = pattern.events().into_iter().collect();
    assert_eq!(events.len(), 2);
    assert_eq!(events[0].0, 0);
    assert_eq!(events[1].0, 4);
}

#[test]
fn test_set_length_expand() {
    let mut pattern = Pattern::new(16);
    let event = from_pitch(Pitch::C, 4, 0.8, Some(0.5));

    pattern.add_event(0, event);
    pattern.set_length(32);

    assert_eq!(pattern.length(), 32);
    assert_eq!(pattern.event_count(), 1);
}

#[test]
fn test_set_length_shrink() {
    let mut pattern = Pattern::new(16);
    let event = from_pitch(Pitch::C, 4, 0.8, Some(0.5));

    pattern.add_event(0, event);
    pattern.add_event(8, event);
    pattern.add_event(15, event);

    pattern.set_length(10);

    assert_eq!(pattern.length(), 10);
    assert_eq!(pattern.event_count(), 2); // Event at step 15 removed
    assert_eq!(pattern.events_at_step(0).len(), 1);
    assert_eq!(pattern.events_at_step(8).len(), 1);
    assert_eq!(pattern.events_at_step(15).len(), 0);
}

#[test]
fn test_drum_pattern() {
    let mut pattern = Pattern::new(16);
    pattern.set_name("Basic Beat");

    // Kick on 1 and 9 (steps 0 and 8)
    let kick = from_midi(36, 115, Some(0.1));
    pattern.add_event(0, kick);
    pattern.add_event(8, kick);

    // Snare on 5 and 13 (steps 4 and 12)
    let snare = from_midi(38, 102, Some(0.1));
    pattern.add_event(4, snare);
    pattern.add_event(12, snare);

    // Hi-hat on every other step
    let hihat = from_midi(42, 77, Some(0.05));
    for step in (0..16).step_by(2) {
        pattern.add_event(step, hihat);
    }

    assert_eq!(pattern.event_count(), 12); // 2 kicks + 2 snares + 8 hihats
    assert_eq!(pattern.events_at_step(0).len(), 2); // Kick + hihat
    assert_eq!(pattern.events_at_step(4).len(), 2); // Snare + hihat
}

#[test]
fn events_keep_insertion_order() {
    let mut pattern = Pattern::new(8);
    pattern.add_event(3, 'a');
    pattern.add_event(1, 'b');
    pattern.add_event(3, 'c');
    pattern.add_event(3, 'd');
    assert_eq!(pattern.events_at_step(3), vec![&'a', &'c', &'d']);
    assert_eq!(pattern.events(), vec![(3, &'a'), (1, &'b'), (3, &'c'), (3, &'d')]);
}

#[test]
fn clear_step_leaves_other_steps() {
    let mut pattern = Pattern::new(8);
    for (s, e) in [(0, 1u8), (2, 2), (0, 3), (5, 4), (2, 5)] {
        pattern.add_event(s, e);
    }
    assert_eq!(pattern.clear_step(2), 2);
    assert_eq!(pattern.events_at_step(2).len(), 0);
    assert_eq!(pattern.events_at_step(0), vec![&1, &3]);
    assert_eq!(pattern.events_at_step(5), vec![&4]);
    assert_eq!(pattern.clear_step(7), 0);
    assert_eq!(pattern.event_count(), 3);
}

#[test]
fn set_length_keeps_earlier_steps() {
    let mut pattern = Pattern::new(16);
    for s in 0..16 {
        pattern.add_event(s, s as u32);
    }
    pattern.set_length(4);
    let steps: Vec<usize> = pattern.events().iter().map(|(s, _)| *s).collect();
    assert_eq!(steps, vec![0, 1, 2, 3]);
    pattern.set_length(12);
    assert_eq!(pattern.event_count(), 4);
    assert_eq!(pattern.events_at_step(10).len(), 0);
}

#[test]
fn cloned_pattern_is_independent() {
    let mut pattern: Pattern<u8> = Pattern::new(8);
    pattern.set_name("Groove");
    pattern.set_description("two hits");
    pattern.add_event(0, 1);
    pattern.add_event(4, 2);
    let copy = pattern.clone();
    pattern.clear_step(0);
    assert_eq!(copy.name(), Some("Groove"));
    assert_eq!(copy.description(), Some("two hits"));
    assert_eq!(copy.length(), 8);
    assert_eq!(copy.events(), vec![(0, &1), (4, &2)]);
    assert_eq!(pattern.events(), vec![(4, &2)]);
}
