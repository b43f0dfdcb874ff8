use earworm::pattern::Pattern;
use earworm::pitch::Pitch;
use earworm::sequencer::{PlayState, Sequencer};

const SAMPLE_RATE: u32 = 44100;

type Event = (Pitch, i8, f64, Option<f64>);

fn from_pitch(pitch: Pitch, octave: i8, velocity: f64, duration: Option<f64>) -> Event {
    (pitch, octave, velocity, duration)
}

/// A sample clock that counts steps at a tempo, as a metronome does.
struct Clock {
    bpm: f64,
    samples_per_step: f64,
    accumulator: f64,
    step: u64,
}

impl Clock {
    fn new(bpm: f64, steps_per_beat: u32, sample_rate: u32) -> Self {
        let samples_per_step = sample_rate as f64 / (bpm / 60.0 * steps_per_beat as f64);
        Clock { bpm, samples_per_step, accumulator: 0.0, step: 0 }
    }

    fn tick(&mut self) -> bool {
        self.accumulator += 1.0;
        if self.accumulator >= self.samples_per_step {
            self.accumulator -= self.samples_per_step;
            self.step = self.step.wrapping_add(1);
            true
        } else {
            false
        }
    }
}

/// A sequencer driven by a clock: the clock only runs while the sequencer
/// should advance, and each step reached yields that step's events.
struct Rig {
    seq: Sequencer<Event>,
    clock: Clock,
}

impl Rig {
    fn new(bpm: f64, steps_per_beat: u32, sample_rate: u32) -> Self {
        Rig { seq: Sequencer::new(), clock: Clock::new(bpm, steps_per_beat, sample_rate) }
    }

    fn tick(&mut self) -> Option<Vec<Event>> {
        if !self.seq.should_advance() {
            return None;
        }
        if self.clock.tick() {
            self.seq.events_on_step(self.clock.step)
        } else {
            None
        }
    }
}

#[test]
fn sequencer_test_creation() {
    let rig = Rig::new(120.0, 4, SAMPLE_RATE);
    assert_eq!(rig.seq.state(), PlayState::Stopped);
    assert!(!rig.seq.is_playing());
    assert_eq!(rig.clock.step, 0);
    assert!(rig.seq.pattern().is_none());
    assert_eq!(rig.clock.bpm, 120.0);
}

#[test]
fn test_transport_controls() {
    let mut sequencer: Sequencer<Event> = Sequencer::new();

    assert!(!sequencer.is_playing());

    sequencer.play();
    assert!(sequencer.is_playing());
    assert_eq!(sequencer.state(), PlayState::Playing);

    sequencer.stop();
    assert!(!sequencer.is_playing());
    assert_eq!(sequencer.state(), PlayState::Stopped);
}

#[test]
fn test_pattern_management() {
    let mut sequencer: Sequencer<Event> = Sequencer::new();

    assert!(sequencer.pattern().is_none());

    let pattern = Pattern::new(16);
    sequencer.set_pattern(pattern);
    assert!(sequencer.pattern().is_some());
    assert_eq!(sequencer.pattern().unwrap().length(), 16);

    sequencer.clear_pattern();
    assert!(sequencer.pattern().is_none());
}

#[test]
fn test_tick_when_stopped() {
    let mut rig = Rig::new(120.0, 4, SAMPLE_RATE);
    let mut pattern = Pattern::new(16);
    pattern.add_event(0, from_pitch(Pitch::C, 4, 0.8, Some(0.5)));
    rig.seq.set_pattern(pattern);

    // Sequencer is stopped, tick should return None
    for _ in 0..10000 {
        assert!(rig.tick().is_none());
    }
}

#[test]
fn test_tick_triggers_events() {
    let mut rig = Rig::new(120.0, 4, SAMPLE_RATE);
    let mut pattern = Pattern::new(16);
    pattern.add_event(0, from_pitch(Pitch::C, 4, 0.8, Some(0.5)));

    rig.seq.set_pattern(pattern);
    rig.seq.play();

    // Tick until we hit the first step
    let mut events_found = false;
    for _ in 0..10000 {
        if let Some(events) = rig.tick() {
            assert_eq!(events.len(), 1);
            events_found = true;
            break;
        }
    }
    assert!(events_found);
}

#[test]
fn test_pattern_looping() {
    let mut rig = Rig::new(120.0, 4, SAMPLE_RATE);
    let mut pattern = Pattern::new(4); // Short pattern for faster testing
    pattern.add_event(0, from_pitch(Pitch::C, 4, 0.8, Some(0.5)));

    rig.seq.set_pattern(pattern);
    rig.seq.play();

    // Should trigger event at step 0, then again when it loops
    let mut trigger_count = 0;
    for _ in 0..50000 {
        if let Some(events) = rig.tick() {
            assert_eq!(events.len(), 1); // Should have one event
            trigger_count += 1;
            if trigger_count >= 3 {
                break;
            }
        }
    }

    assert!(trigger_count >= 3, "Pattern should loop and trigger multiple times");
}

#[test]
fn test_multiple_events_per_step() {
    let mut rig = Rig::new(120.0, 4, SAMPLE_RATE);
    let mut pattern = Pattern::new(16);

    // Add multiple events at step 0 (chord)
    pattern.add_event(0, from_pitch(Pitch::C, 4, 0.8, Some(0.5)));
    pattern.add_event(0, from_pitch(Pitch::E, 4, 0.7, Some(0.5)));
    pattern.add_event(0, from_pitch(Pitch::G, 4, 0.6, Some(0.5)));

    rig.seq.set_pattern(pattern);
    rig.seq.play();

    // Tick until we hit the first step
    for _ in 0..10000 {
        if let Some(events) = rig.tick() {
            assert_eq!(events.len(), 3, "Should trigger all three notes");
            break;
        }
    }
}

#[test]
fn test_pattern_step_wrapping() {
    let mut rig = Rig::new(120.0, 4, SAMPLE_RATE);
    let pattern = Pattern::new(4);

    rig.seq.set_pattern(pattern);
    rig.seq.play();

    // Advance through multiple pattern loops
    for _ in 0..30000 {
        rig.tick();
    }

    // Pattern step should always be 0-3
    if let Some(step) = rig.seq.pattern_step(rig.clock.step) {
        assert!(step < 4, "Pattern step should wrap at pattern length");
    }
}

#[test]
fn test_no_pattern_tick() {
    let mut rig = Rig::new(120.0, 4, SAMPLE_RATE);
    rig.seq.play();

    // Without a pattern, tick should always return None
    for _ in 0..10000 {
        assert!(rig.tick().is_none());
    }
}

#[test]
fn clock_runs_exactly_while_playing() {
    let mut seq: Sequencer<u8> = Sequencer::new();
    assert!(!seq.should_advance());
    seq.play();
    assert!(seq.should_advance()); // no pattern yet: the clock still runs
    seq.set_pattern(Pattern::new(2));
    assert!(seq.should_advance());
    seq.stop();
    assert!(!seq.should_advance());
    seq.clear_pattern();
    assert!(!seq.should_advance());
}

#[test]
fn clock_advances_without_a_pattern() {
    let mut rig = Rig::new(120.0, 4, SAMPLE_RATE);
    rig.seq.play();
    // 120 BPM, 4 steps per beat at 44100 Hz: 5512.5 samples per step.
    for _ in 0..11025 {
        assert!(rig.tick().is_none());
    }
    assert_eq!(rig.clock.step, 2);
    assert_eq!(rig.seq.pattern_step(rig.clock.step), None);
    assert_eq!(rig.seq.events_on_step(rig.clock.step), None);
}

#[test]
fn stopped_clock_stands_still() {
    let mut rig = Rig::new(120.0, 4, SAMPLE_RATE);
    rig.seq.set_pattern(Pattern::new(4));
    for _ in 0..11025 {
        assert!(rig.tick().is_none());
    }
    assert_eq!(rig.clock.step, 0);
}

#[test]
fn step_events_wrap_around_the_pattern() {
    let mut pattern = Pattern::new(4);
    pattern.add_event(0, 'a');
    pattern.add_event(2, 'b');
    pattern.add_event(2, 'c');
    let mut seq = Sequencer::new();
    seq.set_pattern(pattern);
    seq.play();
    // Clock step n (from 1) plays pattern step (n - 1) mod 4.
    assert_eq!(seq.events_on_step(1), Some(vec!['a']));
    assert_eq!(seq.events_on_step(2), None);
    assert_eq!(seq.events_on_step(3), Some(vec!['b', 'c']));
    assert_eq!(seq.events_on_step(5), Some(vec!['a']));
    assert_eq!(seq.events_on_step(7), Some(vec!['b', 'c']));
    assert_eq!(seq.pattern_step(6), Some(2));
    assert_eq!(seq.pattern_step(u64::MAX), Some(3));
}

#[test]
fn cloned_sequencer_keeps_pattern_and_state() {
    let mut pattern = Pattern::new(4);
    pattern.add_event(1, 'x');
    let mut seq = Sequencer::new();
    seq.set_pattern(pattern);
    seq.play();
    let copy = seq.clone();
    seq.stop();
    seq.clear_pattern();
    assert_eq!(copy.state(), PlayState::Playing);
    assert_eq!(copy.events_on_step(2), Some(vec!['x']));
    assert!(seq.pattern().is_none());
}
