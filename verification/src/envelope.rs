//! The phase logic of the envelope generators (ADSR, AHD, AR): which phase a
//! trigger, a release or the end of a timed phase leads to. The levels and
//! timing within each phase are computed by the caller.

use vstd::prelude::*;

verus! {

/// The phase of an envelope generator.
#[derive(Debug, Clone, Copy, PartialEq, Eq, Structural)]
pub enum EnvelopeState {
    /// Not sounding.
    Idle,
    /// Rising to full level.
    Attack,
    /// Falling from full level (to the sustain level, or to zero for AHD).
    Decay,
    /// Holding a level (the sustain of ADSR, the hold of AHD).
    Sustain,
    /// Falling to zero after a note ends.
    Release,
}

/// The three envelope shapes.
#[derive(Debug, Clone, Copy, PartialEq, Eq, Structural)]
pub enum EnvelopeKind {
    /// Attack, decay, sustain until released, release.
    Adsr,
    /// Attack, hold, decay: the cycle completes without a release.
    Ahd,
    /// Attack, then release.
    Ar,
}

/// The phase that a release leads to, or `None` where a release does nothing.
pub open spec fn release_spec(kind: EnvelopeKind, s: EnvelopeState) -> Option<EnvelopeState> {
    match kind {
        EnvelopeKind::Adsr => if s == EnvelopeState::Idle {
            None
        } else {
            Some(EnvelopeState::Release)
        },
        EnvelopeKind::Ar => if s == EnvelopeState::Idle || s == EnvelopeState::Release {
            None
        } else {
            Some(EnvelopeState::Release)
        },
        EnvelopeKind::Ahd => if s == EnvelopeState::Attack || s == EnvelopeState::Sustain {
            Some(EnvelopeState::Decay)
        } else {
            None
        },
    }
}

/// The phase that follows when the current phase ends (its time has run out,
/// or is zero). A phase with no end (idle, or the sustain of ADSR) stays; a
/// phase that the shape does not use moves to the one it stands in for.
pub open spec fn phase_end_spec(kind: EnvelopeKind, s: EnvelopeState) -> EnvelopeState {
    match kind {
        EnvelopeKind::Adsr => match s {
            EnvelopeState::Idle => EnvelopeState::Idle,
            EnvelopeState::Attack => EnvelopeState::Decay,
            EnvelopeState::Decay => EnvelopeState::Sustain,
            EnvelopeState::Sustain => EnvelopeState::Sustain,
            EnvelopeState::Release => EnvelopeState::Idle,
        },
        EnvelopeKind::Ahd => match s {
            EnvelopeState::Idle => EnvelopeState::Idle,
            EnvelopeState::Attack => EnvelopeState::Sustain,
            EnvelopeState::Sustain => EnvelopeState::Decay,
            EnvelopeState::Decay => EnvelopeState::Idle,
            EnvelopeState::Release => EnvelopeState::Decay,
        },
        EnvelopeKind::Ar => match s {
            EnvelopeState::Idle => EnvelopeState::Idle,
            EnvelopeState::Attack => EnvelopeState::Release,
            EnvelopeState::Release => EnvelopeState::Idle,
            EnvelopeState::Decay => EnvelopeState::Release,
            EnvelopeState::Sustain => EnvelopeState::Release,
        },
    }
}

/// Whether a phase is the final, falling one of its shape.
pub open spec fn releasing_spec(kind: EnvelopeKind, s: EnvelopeState) -> bool {
    match kind {
        EnvelopeKind::Ahd => s == EnvelopeState::Decay,
        _ => s == EnvelopeState::Release,
    }
}

/// The phase after `n` phase ends.
pub open spec fn phases_after(kind: EnvelopeKind, s: EnvelopeState, n: nat) -> EnvelopeState
    decreases n,
{
    if n == 0 {
        s
    } else {
        phases_after(kind, phase_end_spec(kind, s), (n - 1) as nat)
    }
}

/// The phase a release leads to; `None` where the release is ignored.
pub fn on_release(kind: EnvelopeKind, s: EnvelopeState) -> (r: Option<EnvelopeState>)
    ensures
        r == release_spec(kind, s),
{
    match kind {
        EnvelopeKind::Adsr => match s {
            EnvelopeState::Idle => None,
            _ => Some(EnvelopeState::Release),
        },
        EnvelopeKind::Ar => match s {
            EnvelopeState::Idle | EnvelopeState::Release => None,
            _ => Some(EnvelopeState::Release),
        },
        EnvelopeKind::Ahd => match s {
            EnvelopeState::Attack | EnvelopeState::Sustain => Some(EnvelopeState::Decay),
            _ => None,
        },
    }
}

/// The phase that follows the end of the current one.
pub fn on_phase_end(kind: EnvelopeKind, s: EnvelopeState) -> (r: EnvelopeState)
    ensures
        r == phase_end_spec(kind, s),
{
    match kind {
        EnvelopeKind::Adsr => match s {
            EnvelopeState::Idle => EnvelopeState::Idle,
            EnvelopeState::Attack => EnvelopeState::Decay,
            EnvelopeState::Decay => EnvelopeState::Sustain,
            EnvelopeState::Sustain => EnvelopeState::Sustain,
            EnvelopeState::Release => EnvelopeState::Idle,
        },
        EnvelopeKind::Ahd => match s {
            EnvelopeState::Idle => EnvelopeState::Idle,
            EnvelopeState::Attack => EnvelopeState::Sustain,
            EnvelopeState::Sustain => EnvelopeState::Decay,
            EnvelopeState::Decay => EnvelopeState::Idle,
            EnvelopeState::Release => EnvelopeState::Decay,
        },
        EnvelopeKind::Ar => match s {
            EnvelopeState::Idle => EnvelopeState::Idle,
            EnvelopeState::Attack => EnvelopeState::Release,
            EnvelopeState::Release => EnvelopeState::Idle,
            EnvelopeState::Decay | EnvelopeState::Sustain => EnvelopeState::Release,
        },
    }
}

/// An envelope is active in every phase but idle.
pub fn is_active(s: EnvelopeState) -> (r: bool)
    ensures
        r == (s != EnvelopeState::Idle),
{
    !matches!(s, EnvelopeState::Idle)
}

/// Whether the envelope is in the final, falling phase of its shape.
pub fn is_releasing(kind: EnvelopeKind, s: EnvelopeState) -> (r: bool)
    ensures
        r == releasing_spec(kind, s),
{
    match kind {
        EnvelopeKind::Ahd => matches!(s, EnvelopeState::Decay),
        _ => matches!(s, EnvelopeState::Release),
    }
}

/// A release never wakes an idle envelope, and a release that takes effect
/// leaves the envelope active in its falling phase.
pub proof fn law_release_keeps_idle_idle(kind: EnvelopeKind, s: EnvelopeState)
    ensures
        s == EnvelopeState::Idle ==> release_spec(kind, s) is None,
        release_spec(kind, s) matches Some(t) ==> t != EnvelopeState::Idle && releasing_spec(kind, t),
{
}

/// A release of a sounding note always takes effect, and the note then ends:
/// for ADSR from every active phase (attack, decay, sustain or release) the
/// release leads to the release phase, whose end makes the envelope idle.
pub proof fn law_adsr_release_ends_note(s: EnvelopeState)
    requires
        s != EnvelopeState::Idle,
    ensures
        release_spec(EnvelopeKind::Adsr, s) == Some(EnvelopeState::Release),
        phase_end_spec(EnvelopeKind::Adsr, release_spec(EnvelopeKind::Adsr, s)->0)
            == EnvelopeState::Idle,
{
}

/// AR releases from every sounding phase that is not already its release,
/// and a second release changes nothing; AHD has no release of its own, but
/// a release during its attack or hold skips to the final decay.
pub proof fn law_ar_ahd_release(s: EnvelopeState)
    ensures
        s != EnvelopeState::Idle && s != EnvelopeState::Release ==> release_spec(
            EnvelopeKind::Ar,
            s,
        ) == Some(EnvelopeState::Release),
        s == EnvelopeState::Release ==> release_spec(EnvelopeKind::Ar, s) is None,
        s == EnvelopeState::Attack || s == EnvelopeState::Sustain ==> release_spec(
            EnvelopeKind::Ahd,
            s,
        ) == Some(EnvelopeState::Decay),
        s == EnvelopeState::Decay ==> release_spec(EnvelopeKind::Ahd, s) is None,
{
}

/// Whatever phase a release leads to ends in idle: a released note of any
/// shape stops when its falling phase runs out.
pub proof fn law_release_then_end_is_idle(kind: EnvelopeKind, s: EnvelopeState)
    ensures
        release_spec(kind, s) matches Some(t) ==> phase_end_spec(kind, t) == EnvelopeState::Idle,
{
}

/// The phases of a triggered envelope run in order: ADSR goes attack, decay,
/// sustain; AHD goes attack, hold, decay, idle; AR goes attack, release,
/// idle. An idle envelope stays idle.
pub proof fn law_phase_order(kind: EnvelopeKind)
    ensures
        phase_end_spec(kind, EnvelopeState::Idle) == EnvelopeState::Idle,
        kind == EnvelopeKind::Adsr ==> phase_end_spec(kind, EnvelopeState::Attack)
            == EnvelopeState::Decay && phase_end_spec(kind, EnvelopeState::Decay)
            == EnvelopeState::Sustain,
        kind == EnvelopeKind::Ahd ==> phase_end_spec(kind, EnvelopeState::Attack)
            == EnvelopeState::Sustain && phase_end_spec(kind, EnvelopeState::Sustain)
            == EnvelopeState::Decay && phase_end_spec(kind, EnvelopeState::Decay)
            == EnvelopeState::Idle,
        kind == EnvelopeKind::Ar ==> phase_end_spec(kind, EnvelopeState::Attack)
            == EnvelopeState::Release && phase_end_spec(kind, EnvelopeState::Release)
            == EnvelopeState::Idle,
{
}

/// AHD and AR complete by themselves: from any phase, at most three phase
/// ends bring them to idle, where they stay.
pub proof fn law_self_completing(kind: EnvelopeKind, s: EnvelopeState)
    requires
        kind != EnvelopeKind::Adsr,
    ensures
        phases_after(kind, s, 3) == EnvelopeState::Idle,
{
    reveal_with_fuel(phases_after, 4);
}

/// ADSR holds its sustain until released, and then the end of the release
/// phase makes it idle.
pub proof fn law_adsr_sustains_until_released(n: nat)
    ensures
        phases_after(EnvelopeKind::Adsr, EnvelopeState::Sustain, n) == EnvelopeState::Sustain,
        phase_end_spec(
            EnvelopeKind::Adsr,
            release_spec(EnvelopeKind::Adsr, EnvelopeState::Sustain)->0,
        ) == EnvelopeState::Idle,
    decreases n,
{
    if n > 0 {
        law_adsr_sustains_until_released((n - 1) as nat);
    }
}

} // verus!
