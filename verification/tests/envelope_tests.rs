use earworm::envelope::{is_active, is_releasing, on_phase_end, on_release, EnvelopeKind, EnvelopeState};



#[test]
fn adsr_phases() {
    let k = EnvelopeKind::Adsr;
    assert_eq!(on_phase_end(k, EnvelopeState::Attack), EnvelopeState::Decay);
    assert_eq!(on_phase_end(k, EnvelopeState::Decay), EnvelopeState::Sustain);
    assert_eq!(on_phase_end(k, EnvelopeState::Sustain), EnvelopeState::Sustain);
    assert_eq!(on_phase_end(k, EnvelopeState::Release), EnvelopeState::Idle);
    assert_eq!(on_release(k, EnvelopeState::Idle), None);
    assert_eq!(on_release(k, EnvelopeState::Attack), Some(EnvelopeState::Release));
    assert_eq!(on_release(k, EnvelopeState::Sustain), Some(EnvelopeState::Release));
    assert_eq!(on_release(k, EnvelopeState::Release), Some(EnvelopeState::Release));
    assert!(is_releasing(k, EnvelopeState::Release));
}

#[test]
fn ahd_phases() {
    let k = EnvelopeKind::Ahd;
    assert_eq!(on_phase_end(k, EnvelopeState::Attack), EnvelopeState::Sustain);
    assert_eq!(on_phase_end(k, EnvelopeState::Sustain), EnvelopeState::Decay);
    assert_eq!(on_phase_end(k, EnvelopeState::Decay), EnvelopeState::Idle);
    assert_eq!(on_phase_end(k, EnvelopeState::Release), EnvelopeState::Decay);
    assert_eq!(on_release(k, EnvelopeState::Attack), Some(EnvelopeState::Decay));
    assert_eq!(on_release(k, EnvelopeState::Sustain), Some(EnvelopeState::Decay));
    assert_eq!(on_release(k, EnvelopeState::Decay), None);
    assert_eq!(on_release(k, EnvelopeState::Idle), None);
    assert!(is_releasing(k, EnvelopeState::Decay));
    assert!(!is_releasing(k, EnvelopeState::Release));
}

#[test]
fn ar_phases() {
    let k = EnvelopeKind::Ar;
    assert_eq!(on_phase_end(k, EnvelopeState::Attack), EnvelopeState::Release);
    assert_eq!(on_phase_end(k, EnvelopeState::Release), EnvelopeState::Idle);
    assert_eq!(on_phase_end(k, EnvelopeState::Decay), EnvelopeState::Release);
    assert_eq!(on_release(k, EnvelopeState::Attack), Some(EnvelopeState::Release));
    assert_eq!(on_release(k, EnvelopeState::Release), None);
    assert_eq!(on_release(k, EnvelopeState::Idle), None);
}

#[test]
fn self_completing_shapes_reach_idle() {
    for k in [EnvelopeKind::Ahd, EnvelopeKind::Ar] {
        for s in [EnvelopeState::Idle, EnvelopeState::Attack, EnvelopeState::Decay, EnvelopeState::Sustain, EnvelopeState::Release] {
            let mut t = s;
            for _ in 0..3 {
                t = on_phase_end(k, t);
            }
            assert_eq!(t, EnvelopeState::Idle);
            assert!(!is_active(t));
        }
    }
}

#[test]
fn release_never_wakes_idle() {
    for k in [EnvelopeKind::Adsr, EnvelopeKind::Ahd, EnvelopeKind::Ar] {
        assert_eq!(on_release(k, EnvelopeState::Idle), None);
        assert!(!is_active(EnvelopeState::Idle));
        assert!(is_active(EnvelopeState::Attack));
    }
}
