use earworm::allocator::{StealingStrategy, VoiceAllocator, VoiceStatus};

fn idle() -> VoiceStatus {
    VoiceStatus { active: false, releasing: false }
}
fn held() -> VoiceStatus {
    VoiceStatus { active: true, releasing: false }
}
fn fading() -> VoiceStatus {
    VoiceStatus { active: true, releasing: true }
}

#[test]
fn default_strategy_is_released() {
    assert_eq!(StealingStrategy::default(), StealingStrategy::Released);
}

#[test]
fn free_voices_are_used_first() {
    let mut alloc = VoiceAllocator::new(4);
    assert_eq!(alloc.note_on(60, &vec![idle(), idle(), idle(), idle()], 0), 0);
    assert_eq!(alloc.note_on(64, &vec![held(), idle(), idle(), idle()], 0), 1);
    assert_eq!(alloc.note_on(67, &vec![held(), held(), fading(), idle()], 0), 3);
    assert!(alloc.is_note_playing(60));
    assert!(alloc.is_note_playing(64));
    assert!(alloc.is_note_playing(67));
    assert!(!alloc.is_note_playing(72));
}

#[test]
fn oldest_voice_is_stolen() {
    let mut alloc = VoiceAllocator::new(2).with_strategy(StealingStrategy::Oldest);
    alloc.note_on(60, &vec![idle(), idle()], 0);
    alloc.note_on(64, &vec![held(), idle()], 0);
    // Both voices busy: the oldest (voice 0, note 60) is stolen.
    assert_eq!(alloc.note_on(67, &vec![held(), fading()], 1), 0);
    assert!(!alloc.is_note_playing(60));
    // Now voice 1 is the oldest.
    assert_eq!(alloc.note_on(69, &vec![held(), held()], 0), 1);
}

#[test]
fn released_voices_are_stolen_first() {
    let mut alloc = VoiceAllocator::new(3);
    alloc.note_on(60, &vec![idle(), idle(), idle()], 0);
    alloc.note_on(62, &vec![held(), idle(), idle()], 0);
    alloc.note_on(64, &vec![held(), held(), idle()], 0);
    // Voice 2 is releasing: it is taken though it is the newest.
    assert_eq!(alloc.note_on(65, &vec![held(), held(), fading()], 0), 2);
    // Nothing releasing: fall back to the oldest, voice 0.
    assert_eq!(alloc.note_on(67, &vec![held(), held(), held()], 2), 0);
}

#[test]
fn quietest_voice_is_stolen() {
    let mut alloc = VoiceAllocator::new(3).with_strategy(StealingStrategy::Quietest);
    alloc.note_on(60, &vec![idle(), idle(), idle()], 2);
    alloc.note_on(62, &vec![held(), idle(), idle()], 2);
    alloc.note_on(64, &vec![held(), held(), idle()], 2);
    assert_eq!(alloc.note_on(65, &vec![held(), held(), held()], 1), 1);
    assert!(!alloc.is_note_playing(62));
}

#[test]
fn note_off_frees_first_voice_with_the_note() {
    let mut alloc = VoiceAllocator::new(3);
    alloc.note_on(60, &vec![idle(), idle(), idle()], 0);
    alloc.note_on(60, &vec![held(), idle(), idle()], 0);
    alloc.note_on(64, &vec![held(), held(), idle()], 0);
    assert_eq!(alloc.note_off(60), Some(0));
    assert!(alloc.is_note_playing(60));
    assert_eq!(alloc.note_off(60), Some(1));
    assert!(!alloc.is_note_playing(60));
    assert_eq!(alloc.note_off(60), None);
    assert!(alloc.is_note_playing(64));
}

#[test]
fn all_notes_off_silences_every_voice() {
    let mut alloc = VoiceAllocator::new(2);
    alloc.note_on(60, &vec![idle(), idle()], 0);
    alloc.note_on(64, &vec![held(), idle()], 0);
    alloc.all_notes_off();
    assert!(!alloc.is_note_playing(60));
    assert!(!alloc.is_note_playing(64));
}

#[test]
fn active_voices_are_counted() {
    let alloc = VoiceAllocator::new(4);
    assert_eq!(alloc.active_voice_count(&vec![idle(), held(), fading(), idle()]), 2);
    assert_eq!(alloc.active_voice_count(&vec![idle(), idle(), idle(), idle()]), 0);
}
