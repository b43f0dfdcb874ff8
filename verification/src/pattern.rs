//! Step-based musical patterns: events placed on a timeline of numbered
//! steps. A pattern knows nothing of tempo; a sequencer gives its steps time.

use vstd::prelude::*;

verus! {

/// The events of `ev` whose step satisfies `keep`, in their original order.
pub open spec fn keep_steps<E>(ev: Seq<(usize, E)>, keep: spec_fn(usize) -> bool) -> Seq<(usize, E)>
    decreases ev.len(),
{
    if ev.len() == 0 {
        Seq::empty()
    } else {
        let rest = keep_steps(ev.drop_last(), keep);
        if keep(ev.last().0) {
            rest.push(ev.last())
        } else {
            rest
        }
    }
}

/// The payloads of the events of `ev` placed at `step`, in insertion order.
pub open spec fn events_at<E>(ev: Seq<(usize, E)>, step: usize) -> Seq<E>
    decreases ev.len(),
{
    if ev.len() == 0 {
        Seq::empty()
    } else {
        let rest = events_at(ev.drop_last(), step);
        if ev.last().0 == step {
            rest.push(ev.last().1)
        } else {
            rest
        }
    }
}

/// The mathematical content of a pattern.
pub struct PatternView<E> {
    pub name: Option<Seq<char>>,
    pub description: Option<Seq<char>>,
    pub length: nat,
    /// `(step, event)` pairs in the order they were added.
    pub events: Seq<(usize, E)>,
}

impl<E> PatternView<E> {
    /// A pattern has at least one step, and every event lies on one of its steps.
    pub open spec fn wf(self) -> bool {
        &&& self.length > 0
        &&& forall|i: int| 0 <= i < self.events.len() ==> (#[trigger] self.events[i]).0 < self.length
    }
}

/// A step-based musical pattern: a fixed number of steps and a list of events,
/// each placed at a step. Several events may share a step.
#[derive(Debug)]
pub struct Pattern<E> {
    name: Option<String>,
    description: Option<String>,
    length: usize,
    events: Vec<(usize, E)>,
}

/// An optional string taken by its characters.
pub open spec fn opt_chars(s: Option<String>) -> Option<Seq<char>> {
    match s {
        Some(t) => Some(t@),
        None => None,
    }
}

impl<E> View for Pattern<E> {
    type V = PatternView<E>;

    closed spec fn view(&self) -> PatternView<E> {
        PatternView {
            name: opt_chars(self.name),
            description: opt_chars(self.description),
            length: self.length as nat,
            events: self.events@,
        }
    }
}

fn opt_as_str(s: &Option<String>) -> (r: Option<&str>)
    ensures
        match r {
            Some(t) => opt_chars(*s) == Some(t@),
            None => s is None,
        },
{
    match s {
        Some(t) => Some(t.as_str()),
        None => None,
    }
}

impl<E> Pattern<E> {
    #[verifier::type_invariant]
    spec fn inv(self) -> bool {
        self@.wf()
    }
}

impl<E: Clone> Clone for Pattern<E> {
    /// A copy of the pattern: the same name, description and length, and
    /// each event at the same step with its value cloned.
    fn clone(&self) -> (r: Self)
        ensures
            r@.name == self@.name,
            r@.description == self@.description,
            r@.length == self@.length,
            r@.events.len() == self@.events.len(),
            forall|i: int|
                0 <= i < self@.events.len() ==> (#[trigger] r@.events[i]).0 == self@.events[i].0
                    && cloned::<E>(self@.events[i].1, r@.events[i].1),
    {
        proof {
            use_type_invariant(self);
        }
        let name = match &self.name {
            Some(t) => Some(t.clone()),
            None => None,
        };
        let description = match &self.description {
            Some(t) => Some(t.clone()),
            None => None,
        };
        let mut events: Vec<(usize, E)> = Vec::new();
        let mut i: usize = 0;
        while i < self.events.len()
            invariant
                self@.wf(),
                i <= self.events@.len(),
                events@.len() == i,
                forall|k: int|
                    0 <= k < i ==> (#[trigger] events@[k]).0 == self.events@[k].0 && cloned::<E>(
                        self.events@[k].1,
                        events@[k].1,
                    ),
            decreases self.events@.len() - i,
        {
            let step = self.events[i].0;
            let value = self.events[i].1.clone();
            events.push((step, value));
            i = i + 1;
        }
        proof {
            assert forall|k: int| 0 <= k < events@.len() implies (#[trigger] events@[k]).0
                < self.length by {
                assert(self@.events[k].0 < self@.length);
            }
        }
        Pattern { name, description, length: self.length, events }
    }
}

impl<E: Copy> Pattern<E> {
    /// Creates an empty pattern of `length` steps, numbered from 0.
    pub fn new(length: usize) -> (r: Self)
        requires
            length > 0,
        ensures
            r@.length == length,
            r@.events.len() == 0,
            r@.name is None,
            r@.description is None,
            r@.wf(),
    {
        Pattern { name: None, description: None, length, events: Vec::new() }
    }

    /// Sets the pattern name.
    pub fn set_name(&mut self, name: &str)
        ensures
            final(self)@ == (PatternView { name: Some(name@), ..old(self)@ }),
    {
        proof {
            use_type_invariant(&*self);
        }
        self.name = Some(name.to_owned());
    }

    /// Returns the pattern name, if set.
    pub fn name(&self) -> (r: Option<&str>)
        ensures
            match r {
                Some(t) => self@.name == Some(t@),
                None => self@.name is None,
            },
    {
        opt_as_str(&self.name)
    }

    /// Sets the pattern description.
    pub fn set_description(&mut self, description: &str)
        ensures
            final(self)@ == (PatternView { description: Some(description@), ..old(self)@ }),
    {
        proof {
            use_type_invariant(&*self);
        }
        self.description = Some(description.to_owned());
    }

    /// Returns the pattern description, if set.
    pub fn description(&self) -> (r: Option<&str>)
        ensures
            match r {
                Some(t) => self@.description == Some(t@),
                None => self@.description is None,
            },
    {
        opt_as_str(&self.description)
    }

    /// Returns the pattern length in steps.
    pub fn length(&self) -> (r: usize)
        ensures
            r == self@.length,
            self@.wf(),
    {
        proof {
            use_type_invariant(self);
        }
        self.length
    }

    /// Returns the total number of events in the pattern.
    pub fn event_count(&self) -> (r: usize)
        ensures
            r == self@.events.len(),
    {
        self.events.len()
    }

    /// Returns true if the pattern has no events.
    pub fn is_empty(&self) -> (r: bool)
        ensures
            r == (self@.events.len() == 0),
    {
        self.events.len() == 0
    }

    /// Adds an event at `step`; earlier events, also at that step, stay.
    pub fn add_event(&mut self, step: usize, event: E)
        requires
            step < old(self)@.length,
        ensures
            final(self)@ == (PatternView { events: old(self)@.events.push((step, event)), ..old(self)@ }),
    {
        proof {
            use_type_invariant(&*self);
        }
        let mut events = Vec::new();
        std::mem::swap(&mut events, &mut self.events);
        events.push((step, event));
        self.events = events;
    }

    /// Keeps the events whose step satisfies `keep` (given as a step bound or
    /// an excluded step), in their order; returns them as a new list.
    fn kept(events: &Vec<(usize, E)>, below: Option<usize>, drop: Option<usize>) -> (r: Vec<(usize, E)>)
        ensures
            r@ == keep_steps(events@, |s: usize| keep_rule(below, drop, s)),
    {
        let mut out: Vec<(usize, E)> = Vec::new();
        let mut i: usize = 0;
        while i < events.len()
            invariant
                i <= events@.len(),
                out@ == keep_steps(events@.subrange(0, i as int), |s: usize| keep_rule(below, drop, s)),
            decreases events@.len() - i,
        {
            let item = events[i];
            proof {
                assert(events@.subrange(0, i + 1).drop_last() =~= events@.subrange(0, i as int));
            }
            if keep_rule_exec(below, drop, item.0) {
                out.push(item);
            }
            i = i + 1;
        }
        proof {
            assert(events@.subrange(0, events@.len() as int) =~= events@);
        }
        out
    }

    /// Removes all events at `step`, keeping the others in order, and returns
    /// how many were removed.
    pub fn clear_step(&mut self, step: usize) -> (r: usize)
        ensures
            final(self)@ == (PatternView {
                events: keep_steps(old(self)@.events, |s: usize| s != step),
                ..old(self)@
            }),
            r == old(self)@.events.len() - final(self)@.events.len(),
    {
        proof {
            use_type_invariant(&*self);
        }
        let original_len = self.events.len();
        let events = Self::kept(&self.events, None, Some(step));
        proof {
            lemma_keep_steps_preserves(self.events@, |s: usize| keep_rule(None, Some(step), s), self.length);
            lemma_keep_steps_len(self.events@, |s: usize| keep_rule(None, Some(step), s));
            assert((|s: usize| keep_rule(None, Some(step), s)) =~= (|s: usize| s != step));
        }
        self.events = events;
        original_len - self.events.len()
    }

    /// Removes all events.
    pub fn clear(&mut self)
        ensures
            final(self)@ == (PatternView { events: Seq::<(usize, E)>::empty(), ..old(self)@ }),
    {
        proof {
            use_type_invariant(&*self);
        }
        self.events = Vec::new();
    }

    /// Returns the events at `step`, in the order they were added.
    pub fn events_at_step(&self, step: usize) -> (r: Vec<&E>)
        ensures
            r@.len() == events_at(self@.events, step).len(),
            forall|i: int| 0 <= i < r@.len() ==> *r@[i] == events_at(self@.events, step)[i],
    {
        let mut out: Vec<&E> = Vec::new();
        let mut i: usize = 0;
        while i < self.events.len()
            invariant
                i <= self.events@.len(),
                out@.len() == events_at(self.events@.subrange(0, i as int), step).len(),
                forall|k: int|
                    0 <= k < out@.len() ==> *out@[k] == events_at(
                        self.events@.subrange(0, i as int),
                        step,
                    )[k],
            decreases self.events@.len() - i,
        {
            proof {
                assert(self.events@.subrange(0, i + 1).drop_last() =~= self.events@.subrange(0, i as int));
            }
            if self.events[i].0 == step {
                out.push(&self.events[i].1);
            }
            i = i + 1;
        }
        proof {
            assert(self.events@.subrange(0, self.events@.len() as int) =~= self.events@);
        }
        out
    }

    /// Returns all `(step, event)` pairs, in the order they were added.
    pub fn events(&self) -> (r: Vec<(usize, &E)>)
        ensures
            r@.len() == self@.events.len(),
            forall|i: int|
                0 <= i < r@.len() ==> (#[trigger] r@[i]).0 == self@.events[i].0 && *r@[i].1
                    == self@.events[i].1,
    {
        let mut out: Vec<(usize, &E)> = Vec::new();
        let mut i: usize = 0;
        while i < self.events.len()
            invariant
                i <= self.events@.len(),
                out@.len() == i,
                forall|k: int|
                    0 <= k < i ==> (#[trigger] out@[k]).0 == self.events@[k].0 && *out@[k].1
                        == self.events@[k].1,
            decreases self.events@.len() - i,
        {
            out.push((self.events[i].0, &self.events[i].1));
            i = i + 1;
        }
        out
    }

    /// Changes the pattern length; events at steps at or beyond the new
    /// length are removed, the others keep their order.
    pub fn set_length(&mut self, new_length: usize)
        requires
            new_length > 0,
        ensures
            final(self)@ == (PatternView {
                length: new_length as nat,
                events: keep_steps(old(self)@.events, |s: usize| s < new_length),
                ..old(self)@
            }),
    {
        proof {
            use_type_invariant(&*self);
        }
        let events = Self::kept(&self.events, Some(new_length), None);
        proof {
            lemma_keep_steps_preserves(self.events@, |s: usize| keep_rule(Some(new_length), None, s), self.length);
            lemma_keep_steps_bounded(self.events@, |s: usize| keep_rule(Some(new_length), None, s), new_length);
            assert((|s: usize| keep_rule(Some(new_length), None, s)) =~= (|s: usize| s < new_length));
        }
        self.events = events;
        self.length = new_length;
    }
}

/// Which steps a filter keeps: those below `below`, if given, and other than
/// `drop`, if given.
pub open spec fn keep_rule(below: Option<usize>, drop: Option<usize>, s: usize) -> bool {
    &&& (below matches Some(n) ==> s < n)
    &&& (drop matches Some(d) ==> s != d)
}

fn keep_rule_exec(below: Option<usize>, drop: Option<usize>, s: usize) -> (r: bool)
    ensures
        r == keep_rule(below, drop, s),
{
    let under = match below {
        Some(n) => s < n,
        None => true,
    };
    let other = match drop {
        Some(d) => s != d,
        None => true,
    };
    under && other
}

/// Filtering keeps every event's step within a bound that held before.
pub proof fn lemma_keep_steps_preserves<E>(ev: Seq<(usize, E)>, keep: spec_fn(usize) -> bool, bound: usize)
    requires
        forall|i: int| 0 <= i < ev.len() ==> (#[trigger] ev[i]).0 < bound,
    ensures
        forall|i: int|
            0 <= i < keep_steps(ev, keep).len() ==> (#[trigger] keep_steps(ev, keep)[i]).0 < bound,
    decreases ev.len(),
{
    if ev.len() > 0 {
        let pre = ev.drop_last();
        assert forall|i: int| 0 <= i < pre.len() implies (#[trigger] pre[i]).0 < bound by {
            assert(pre[i] == ev[i]);
        }
        lemma_keep_steps_preserves(pre, keep, bound);
        let rest = keep_steps(pre, keep);
        let k = keep_steps(ev, keep);
        assert(ev.last() == ev[ev.len() - 1]);
        assert forall|i: int| 0 <= i < k.len() implies (#[trigger] k[i]).0 < bound by {
            if keep(ev.last().0) {
                assert(k == rest.push(ev.last()));
                if i < rest.len() {
                    assert(k[i] == rest[i]);
                }
            } else {
                assert(k == rest);
            }
        }
    }
}

/// Filtering keeps no more events than there were.
pub proof fn lemma_keep_steps_len<E>(ev: Seq<(usize, E)>, keep: spec_fn(usize) -> bool)
    ensures
        keep_steps(ev, keep).len() <= ev.len(),
    decreases ev.len(),
{
    if ev.len() > 0 {
        lemma_keep_steps_len(ev.drop_last(), keep);
    }
}

/// Every event that a filter keeps satisfies it; with the filter "below
/// `n`", every kept step is below `n`.
pub proof fn lemma_keep_steps_bounded<E>(ev: Seq<(usize, E)>, keep: spec_fn(usize) -> bool, n: usize)
    requires
        forall|s: usize| #[trigger] keep(s) ==> s < n,
    ensures
        forall|i: int|
            0 <= i < keep_steps(ev, keep).len() ==> (#[trigger] keep_steps(ev, keep)[i]).0 < n,
    decreases ev.len(),
{
    if ev.len() > 0 {
        lemma_keep_steps_bounded(ev.drop_last(), keep, n);
        let rest = keep_steps(ev.drop_last(), keep);
        let k = keep_steps(ev, keep);
        assert forall|i: int| 0 <= i < k.len() implies (#[trigger] k[i]).0 < n by {
            if keep(ev.last().0) {
                assert(k == rest.push(ev.last()));
                if i < rest.len() {
                    assert(k[i] == rest[i]);
                }
            } else {
                assert(k == rest);
            }
        }
    }
}

/// Adding an event at `step` appends it to the events at that step and
/// leaves every other step's events as they were.
pub proof fn law_add_event_appends<E>(ev: Seq<(usize, E)>, step: usize, e: E, other: usize)
    requires
        other != step,
    ensures
        events_at(ev.push((step, e)), step) == events_at(ev, step).push(e),
        events_at(ev.push((step, e)), other) == events_at(ev, other),
{
    assert(ev.push((step, e)).drop_last() =~= ev);
}

/// Clearing a step removes exactly the events at that step: none remain
/// there, the other steps keep theirs in order, and the number removed is the
/// number that were there.
pub proof fn law_clear_step_removes_exactly<E>(ev: Seq<(usize, E)>, step: usize, other: usize)
    requires
        other != step,
    ensures
        events_at(keep_steps(ev, |s: usize| s != step), step).len() == 0,
        events_at(keep_steps(ev, |s: usize| s != step), other) == events_at(ev, other),
        ev.len() - keep_steps(ev, |s: usize| s != step).len() == events_at(ev, step).len(),
    decreases ev.len(),
{
    if ev.len() > 0 {
        let keep = |s: usize| s != step;
        law_clear_step_removes_exactly(ev.drop_last(), step, other);
        let rest = keep_steps(ev.drop_last(), keep);
        if keep(ev.last().0) {
            assert(rest.push(ev.last()).drop_last() =~= rest);
        }
    }
}

/// Shortening a pattern keeps the events of every step below the new length,
/// in order, and drops every event at or beyond it.
pub proof fn law_set_length_truncates<E>(ev: Seq<(usize, E)>, n: usize, t: usize)
    ensures
        t < n ==> events_at(keep_steps(ev, |s: usize| s < n), t) == events_at(ev, t),
        t >= n ==> events_at(keep_steps(ev, |s: usize| s < n), t).len() == 0,
    decreases ev.len(),
{
    if ev.len() > 0 {
        let keep = |s: usize| s < n;
        law_set_length_truncates(ev.drop_last(), n, t);
        let rest = keep_steps(ev.drop_last(), keep);
        if keep(ev.last().0) {
            assert(rest.push(ev.last()).drop_last() =~= rest);
        }
    }
}

} // verus!
