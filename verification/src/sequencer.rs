//! The transport and step logic of a pattern sequencer: whether the clock
//! runs, which pattern step a clock step falls on, and which events fire.
//! The clock itself (a metronome counting samples) lives with the caller.

use vstd::prelude::*;
use crate::pattern::{events_at, Pattern};

verus! {

/// Playback state of the sequencer.
#[derive(Debug, Clone, Copy, PartialEq, Eq, Structural)]
pub enum PlayState {
    /// Sequencer is stopped
    Stopped,
    /// Sequencer is playing
    Playing,
}

/// A sequencer's transport state and loaded pattern.
#[derive(Debug, Clone)]
pub struct Sequencer<E> {
    pattern: Option<Pattern<E>>,
    state: PlayState,
}

/// The pattern step that clock step `n` falls on, in a pattern of `length` steps.
pub open spec fn step_in_pattern(n: int, length: nat) -> int {
    n % (length as int)
}

impl<E: Copy> Sequencer<E> {
    /// The loaded pattern, if any.
    pub closed spec fn loaded(&self) -> Option<Pattern<E>> {
        self.pattern
    }

    /// The playback state.
    pub closed spec fn play_state(&self) -> PlayState {
        self.state
    }

    /// Whether the clock advances on this sample: the sequencer is playing,
    /// with or without a pattern.
    pub open spec fn runs(&self) -> bool {
        self.play_state() == PlayState::Playing
    }

    /// Creates a stopped sequencer with no pattern.
    pub fn new() -> (r: Self)
        ensures
            r.loaded() is None,
            r.play_state() == PlayState::Stopped,
    {
        Sequencer { pattern: None, state: PlayState::Stopped }
    }

    /// Sets the active pattern.
    pub fn set_pattern(&mut self, pattern: Pattern<E>)
        ensures
            final(self).loaded() == Some(pattern),
            final(self).play_state() == old(self).play_state(),
    {
        self.pattern = Some(pattern);
    }

    /// Returns the current pattern, if any.
    pub fn pattern(&self) -> (r: Option<&Pattern<E>>)
        ensures
            match r {
                Some(p) => self.loaded() == Some(*p),
                None => self.loaded() is None,
            },
    {
        self.pattern.as_ref()
    }

    /// Removes the current pattern.
    pub fn clear_pattern(&mut self)
        ensures
            final(self).loaded() is None,
            final(self).play_state() == old(self).play_state(),
    {
        self.pattern = None;
    }

    /// Starts playback.
    pub fn play(&mut self)
        ensures
            final(self).play_state() == PlayState::Playing,
            final(self).loaded() == old(self).loaded(),
    {
        self.state = PlayState::Playing;
    }

    /// Stops playback; the position is kept.
    pub fn stop(&mut self)
        ensures
            final(self).play_state() == PlayState::Stopped,
            final(self).loaded() == old(self).loaded(),
    {
        self.state = PlayState::Stopped;
    }

    /// Returns true if the sequencer is playing.
    pub fn is_playing(&self) -> (r: bool)
        ensures
            r == (self.play_state() == PlayState::Playing),
    {
        self.state == PlayState::Playing
    }

    /// Returns the playback state.
    pub fn state(&self) -> (r: PlayState)
        ensures
            r == self.play_state(),
    {
        self.state
    }

    /// Whether the clock should advance on this sample: whenever the
    /// sequencer is playing, whether or not a pattern is loaded. When it is
    /// false (stopped), a tick yields nothing and the clock stands still.
    pub fn should_advance(&self) -> (r: bool)
        ensures
            r == self.runs(),
    {
        self.state == PlayState::Playing
    }

    /// The step within the pattern of clock step `current_step`, or `None`
    /// with no pattern loaded.
    pub fn pattern_step(&self, current_step: u64) -> (r: Option<usize>)
        ensures
            match self.loaded() {
                Some(p) => r == Some(step_in_pattern(current_step as int, p@.length) as usize)
                    && step_in_pattern(current_step as int, p@.length) < p@.length,
                None => r is None,
            },
    {
        match &self.pattern {
            Some(p) => {
                let len = p.length() as u64;
                Some((current_step % len) as usize)
            },
            None => None,
        }
    }

    /// The events to trigger when the clock has just reached step
    /// `current_step` (counted from 1): those at pattern step
    /// `(current_step - 1) mod length`, in order, or `None` when there are
    /// none. With no pattern loaded the clock still runs, and there are none.
    pub fn events_on_step(&self, current_step: u64) -> (r: Option<Vec<E>>)
        requires
            current_step >= 1,
        ensures
            match self.loaded() {
                None => r is None,
                Some(p) => {
                    let step = step_in_pattern(current_step - 1, p@.length) as usize;
                    let due = events_at(p@.events, step);
                    &&& step < p@.length
                    &&& match r {
                        Some(v) => v@ == due && due.len() > 0,
                        None => due.len() == 0,
                    }
                },
            },
    {
        let p = match &self.pattern {
            Some(p) => p,
            None => {
                return None;
            },
        };
        let len = p.length() as u64;
        let step = ((current_step - 1) % len) as usize;
        let refs = p.events_at_step(step);
        let mut out: Vec<E> = Vec::new();
        let mut i: usize = 0;
        while i < refs.len()
            invariant
                i <= refs@.len(),
                out@.len() == i,
                forall|k: int| 0 <= k < i ==> out@[k] == *refs@[k],
            decreases refs@.len() - i,
        {
            out.push(*refs[i]);
            i = i + 1;
        }
        proof {
            assert(out@ =~= events_at(p@.events, step));
        }
        if out.len() == 0 {
            None
        } else {
            Some(out)
        }
    }
}

/// A pattern loops: clock steps a whole pattern length apart fall on the same
/// pattern step, so they trigger the same events.
pub proof fn law_pattern_loops(n: int, length: nat)
    requires
        length > 0,
        n >= 0,
    ensures
        step_in_pattern(n + length, length) == step_in_pattern(n, length),
        0 <= step_in_pattern(n, length) < length,
{
    vstd::arithmetic::div_mod::lemma_mod_add_multiples_vanish(n, length as int);
    vstd::arithmetic::div_mod::lemma_mod_bound(n, length as int);
}

/// A stopped sequencer does not run its clock; a playing one runs it whether
/// or not a pattern is loaded.
pub proof fn law_clock_runs_exactly_while_playing<E: Copy>(s: Sequencer<E>)
    ensures
        s.play_state() == PlayState::Stopped ==> !s.runs(),
        s.play_state() == PlayState::Playing ==> s.runs(),
{
}

} // verus!
