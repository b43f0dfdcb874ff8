//! Voice allocation for polyphonic synthesis: which voice of a fixed pool
//! plays a new note, which voice a released note frees, and the stealing
//! strategies used when every voice is busy. The voices themselves (signal
//! and envelope) belong to the caller, who reports their state.

use vstd::prelude::*;

verus! {

/// How to choose a voice to steal when every voice is active.
#[derive(Debug, Clone, Copy, PartialEq, Eq, Structural)]
pub enum StealingStrategy {
    /// Steal the voice that was triggered longest ago.
    Oldest,
    /// Steal the voice with the lowest envelope level.
    Quietest,
    /// Prefer the oldest voice in its release phase, else the oldest voice.
    Released,
}

impl Default for StealingStrategy {
    fn default() -> (r: Self)
        ensures
            r == StealingStrategy::Released,
    {
        StealingStrategy::Released
    }
}

/// What the caller reports of one voice's envelope.
#[derive(Debug, Clone, Copy, PartialEq, Eq, Structural)]
pub struct VoiceStatus {
    /// The envelope is not idle.
    pub active: bool,
    /// The envelope is in its final (release or decay) phase.
    pub releasing: bool,
}

/// The mathematical content of a voice allocator.
pub struct AllocatorView {
    /// The MIDI note each voice is playing, if any.
    pub notes: Seq<Option<u8>>,
    /// The age stamp each voice received when it was last triggered.
    pub ages: Seq<u64>,
    pub strategy: StealingStrategy,
    /// The stamp given to the most recent note.
    pub age_counter: u64,
}

/// The note and age stamp of one voice.
#[derive(Debug, Clone, Copy)]
struct Slot {
    note: Option<u8>,
    age: u64,
}

/// Bookkeeping of a fixed pool of voices: the note and age of each.
#[derive(Debug)]
pub struct VoiceAllocator {
    slots: Vec<Slot>,
    strategy: StealingStrategy,
    age_counter: u64,
}

impl View for VoiceAllocator {
    type V = AllocatorView;

    closed spec fn view(&self) -> AllocatorView {
        AllocatorView {
            notes: self.slots@.map_values(|s: Slot| s.note),
            ages: self.slots@.map_values(|s: Slot| s.age),
            strategy: self.strategy,
            age_counter: self.age_counter,
        }
    }
}

/// `i` is the first index whose flag is set.
pub open spec fn is_first(flags: Seq<bool>, i: int) -> bool {
    &&& 0 <= i < flags.len()
    &&& flags[i]
    &&& forall|j: int| 0 <= j < i ==> !flags[j]
}

/// Some flag is set.
pub open spec fn any_set(flags: Seq<bool>) -> bool {
    exists|i: int| 0 <= i < flags.len() && flags[i]
}

/// `i` is the first candidate of least age.
pub open spec fn is_first_min(ages: Seq<u64>, cand: Seq<bool>, i: int) -> bool {
    &&& 0 <= i < ages.len()
    &&& i < cand.len()
    &&& cand[i]
    &&& forall|j: int| 0 <= j < ages.len() && j < cand.len() && cand[j] ==> ages[i] <= ages[j]
    &&& forall|j: int| 0 <= j < i && cand[j] ==> ages[i] < ages[j]
}

/// The activity flags of the reported voices.
pub open spec fn active_flags(v: Seq<VoiceStatus>) -> Seq<bool> {
    Seq::new(v.len(), |k: int| v[k].active)
}

/// The inactivity flags of the reported voices.
pub open spec fn idle_flags(v: Seq<VoiceStatus>) -> Seq<bool> {
    Seq::new(v.len(), |k: int| !v[k].active)
}

/// The release flags of the reported voices.
pub open spec fn releasing_flags(v: Seq<VoiceStatus>) -> Seq<bool> {
    Seq::new(v.len(), |k: int| v[k].releasing)
}

/// Every voice is a candidate.
pub open spec fn all_flags(n: nat) -> Seq<bool> {
    Seq::new(n, |k: int| true)
}

/// `i` is the voice that a new note takes: the first idle voice if there is
/// one; otherwise the one the strategy steals (for `Quietest`, the voice the
/// caller found quietest).
pub open spec fn chosen_voice(
    voices: Seq<VoiceStatus>,
    ages: Seq<u64>,
    strategy: StealingStrategy,
    quietest: int,
    i: int,
) -> bool {
    if any_set(idle_flags(voices)) {
        is_first(idle_flags(voices), i)
    } else {
        match strategy {
            StealingStrategy::Oldest => is_first_min(ages, all_flags(ages.len()), i),
            StealingStrategy::Quietest => i == quietest,
            StealingStrategy::Released => if any_set(releasing_flags(voices)) {
                is_first_min(ages, releasing_flags(voices), i)
            } else {
                is_first_min(ages, all_flags(ages.len()), i)
            },
        }
    }
}

/// `i` is the first voice playing `note`.
pub open spec fn first_playing(notes: Seq<Option<u8>>, note: u8, i: int) -> bool {
    &&& 0 <= i < notes.len()
    &&& notes[i] == Some(note)
    &&& forall|j: int| 0 <= j < i ==> notes[j] != Some(note)
}

/// Some voice is playing `note`.
pub open spec fn is_playing(notes: Seq<Option<u8>>, note: u8) -> bool {
    exists|i: int| 0 <= i < notes.len() && notes[i] == Some(note)
}

/// The number of set flags.
pub open spec fn count_set(flags: Seq<bool>) -> nat
    decreases flags.len(),
{
    if flags.len() == 0 {
        0
    } else {
        count_set(flags.drop_last()) + if flags.last() { 1nat } else { 0nat }
    }
}

/// The first candidate of least age among the first `n` voices, if any.
fn first_min(ages: &Vec<u64>, cand: &Vec<bool>) -> (r: Option<usize>)
    requires
        ages@.len() == cand@.len(),
    ensures
        match r {
            Some(i) => is_first_min(ages@, cand@, i as int),
            None => !any_set(cand@),
        },
{
    let mut best: Option<usize> = None;
    let mut i: usize = 0;
    while i < ages.len()
        invariant
            ages@.len() == cand@.len(),
            i <= ages@.len(),
            match best {
                Some(b) => {
                    &&& b < i
                    &&& cand@[b as int]
                    &&& forall|j: int| 0 <= j < i && cand@[j] ==> ages@[b as int] <= ages@[j]
                    &&& forall|j: int| 0 <= j < b && cand@[j] ==> ages@[b as int] < ages@[j]
                },
                None => forall|j: int| 0 <= j < i ==> !cand@[j],
            },
        decreases ages@.len() - i,
    {
        if cand[i] {
            match best {
                Some(b) => {
                    if ages[i] < ages[b] {
                        best = Some(i);
                    }
                },
                None => {
                    best = Some(i);
                },
            }
        }
        i = i + 1;
    }
    best
}

impl VoiceAllocator {
    /// The number of voices in the pool.
    pub open spec fn voice_count(&self) -> nat {
        self@.notes.len()
    }

    /// Every voice has one note slot and one age stamp: the allocator holds
    /// as many ages as notes.
    pub proof fn law_one_age_per_voice(&self)
        ensures
            self@.ages.len() == self@.notes.len(),
    {
    }

    /// Creates a pool of `voices` idle voices, stealing by `Released`.
    pub fn new(voices: usize) -> (r: Self)
        ensures
            r@.notes == Seq::new(voices as nat, |k: int| None::<u8>),
            r@.ages == Seq::new(voices as nat, |k: int| 0u64),
            r@.strategy == StealingStrategy::Released,
            r@.age_counter == 0,
    {
        let mut slots: Vec<Slot> = Vec::new();
        let mut i: usize = 0;
        while i < voices
            invariant
                i <= voices,
                slots@.len() == i,
                forall|k: int| 0 <= k < i ==> (#[trigger] slots@[k]).note is None && slots@[k].age == 0,
            decreases voices - i,
        {
            slots.push(Slot { note: None, age: 0 });
            i = i + 1;
        }
        let r = VoiceAllocator { slots, strategy: StealingStrategy::Released, age_counter: 0 };
        proof {
            assert(r@.notes =~= Seq::new(voices as nat, |k: int| None::<u8>));
            assert(r@.ages =~= Seq::new(voices as nat, |k: int| 0u64));
        }
        r
    }

    /// Sets the voice stealing strategy.
    pub fn with_strategy(self, strategy: StealingStrategy) -> (r: Self)
        ensures
            r@ == (AllocatorView { strategy, ..self@ }),
    {
        VoiceAllocator { strategy, ..self }
    }

    /// The voice a new note takes, given the state of every voice: the first
    /// inactive voice, else the one the stealing strategy picks. For
    /// `Quietest` the caller names the quietest voice.
    pub fn find_voice_to_use(&self, voices: &Vec<VoiceStatus>, quietest: usize) -> (r: usize)
        requires
            voices@.len() == self.voice_count(),
            self.voice_count() > 0,
            quietest < self.voice_count(),
        ensures
            r < self.voice_count(),
            self@.ages.len() == self.voice_count(),
            chosen_voice(voices@, self@.ages, self@.strategy, quietest as int, r as int),
    {
        let n = voices.len();
        let mut ages: Vec<u64> = Vec::new();
        let mut j: usize = 0;
        while j < self.slots.len()
            invariant
                j <= self.slots@.len(),
                ages@ =~= self@.ages.subrange(0, j as int),
            decreases self.slots@.len() - j,
        {
            ages.push(self.slots[j].age);
            j = j + 1;
        }
        proof {
            assert(ages@ =~= self@.ages);
        }
        let mut idle: Vec<bool> = Vec::new();
        let mut releasing: Vec<bool> = Vec::new();
        let mut all: Vec<bool> = Vec::new();
        let mut i: usize = 0;
        while i < n
            invariant
                n == voices@.len(),
                i <= n,
                idle@ =~= idle_flags(voices@).subrange(0, i as int),
                releasing@ =~= releasing_flags(voices@).subrange(0, i as int),
                all@ =~= all_flags(n as nat).subrange(0, i as int),
            decreases n - i,
        {
            idle.push(!voices[i].active);
            releasing.push(voices[i].releasing);
            all.push(true);
            i = i + 1;
        }
        proof {
            assert(idle@ =~= idle_flags(voices@));
            assert(releasing@ =~= releasing_flags(voices@));
            assert(all@ =~= all_flags(n as nat));
        }
        let mut k: usize = 0;
        while k < n
            invariant
                n == voices@.len(),
                n == self.voice_count(),
                n == idle@.len(),
                idle@ == idle_flags(voices@),
                k <= n,
                forall|j: int| 0 <= j < k ==> !idle@[j],
            decreases n - k,
        {
            if idle[k] {
                return k;
            }
            k = k + 1;
        }
        match self.strategy {
            StealingStrategy::Oldest => {
                let r = first_min(&ages, &all);
                match r {
                    Some(b) => b,
                    None => {
                        proof {
                            assert(all@[0]);
                        }
                        0
                    },
                }
            },
            StealingStrategy::Quietest => quietest,
            StealingStrategy::Released => {
                match first_min(&ages, &releasing) {
                    Some(b) => b,
                    None => {
                        let r = first_min(&ages, &all);
                        match r {
                            Some(b) => b,
                            None => {
                                proof {
                                    assert(all@[0]);
                                }
                                0
                            },
                        }
                    },
                }
            },
        }
    }

    /// Starts `note` on the voice chosen by `find_voice_to_use`, stamping it
    /// with the next age; returns the voice, which the caller then triggers.
    pub fn note_on(&mut self, note: u8, voices: &Vec<VoiceStatus>, quietest: usize) -> (r: usize)
        requires
            voices@.len() == old(self).voice_count(),
            old(self).voice_count() > 0,
            quietest < old(self).voice_count(),
        ensures
            r < old(self).voice_count(),
            old(self)@.ages.len() == old(self).voice_count(),
            chosen_voice(voices@, old(self)@.ages, old(self)@.strategy, quietest as int, r as int),
            final(self)@.age_counter == old(self)@.age_counter.wrapping_add(1),
            final(self)@.notes == old(self)@.notes.update(r as int, Some(note)),
            final(self)@.ages == old(self)@.ages.update(r as int, final(self)@.age_counter),
            final(self)@.strategy == old(self)@.strategy,
    {
        let idx = self.find_voice_to_use(voices, quietest);
        self.age_counter = self.age_counter.wrapping_add(1);
        self.slots.set(idx, Slot { note: Some(note), age: self.age_counter });
        proof {
            assert(self@.notes =~= old(self)@.notes.update(idx as int, Some(note)));
            assert(self@.ages =~= old(self)@.ages.update(idx as int, self.age_counter));
        }
        idx
    }

    /// Frees the first voice playing `note` and returns it, so that the
    /// caller releases its envelope; `None` if no voice plays the note.
    pub fn note_off(&mut self, note: u8) -> (r: Option<usize>)
        ensures
            match r {
                Some(i) => first_playing(old(self)@.notes, note, i as int)
                    && final(self)@ == (AllocatorView {
                    notes: old(self)@.notes.update(i as int, None),
                    ..old(self)@
                }),
                None => !is_playing(old(self)@.notes, note) && final(self)@ == old(self)@,
            },
    {
        let mut i: usize = 0;
        while i < self.slots.len()
            invariant
                i <= self.slots@.len(),
                self == old(self),
                forall|j: int| 0 <= j < i ==> self@.notes[j] != Some(note),
            decreases self.slots@.len() - i,
        {
            if self.slots[i].note == Some(note) {
                let age = self.slots[i].age;
                self.slots.set(i, Slot { note: None, age });
                proof {
                    assert(self@.notes =~= old(self)@.notes.update(i as int, None));
                    assert(self@.ages =~= old(self)@.ages);
                }
                return Some(i);
            }
            i = i + 1;
        }
        None
    }

    /// Frees every voice; the caller releases every envelope.
    pub fn all_notes_off(&mut self)
        ensures
            final(self)@ == (AllocatorView {
                notes: Seq::new(old(self)@.notes.len(), |k: int| None::<u8>),
                ..old(self)@
            }),
    {
        let n = self.slots.len();
        let mut i: usize = 0;
        while i < n
            invariant
                i <= n,
                n == self.slots@.len(),
                self.strategy == old(self).strategy,
                self.age_counter == old(self).age_counter,
                self.slots@.len() == old(self).slots@.len(),
                forall|k: int| 0 <= k < n ==> (#[trigger] self.slots@[k]).age == old(self).slots@[k].age,
                forall|k: int| 0 <= k < i ==> (#[trigger] self.slots@[k]).note is None,
            decreases n - i,
        {
            let age = self.slots[i].age;
            self.slots.set(i, Slot { note: None, age });
            i = i + 1;
        }
        proof {
            assert(self@.notes =~= Seq::new(old(self)@.notes.len(), |k: int| None::<u8>));
            assert(self@.ages =~= old(self)@.ages);
        }
    }

    /// Returns true if some voice is playing `note`.
    pub fn is_note_playing(&self, note: u8) -> (r: bool)
        ensures
            r == is_playing(self@.notes, note),
    {
        let mut i: usize = 0;
        while i < self.slots.len()
            invariant
                i <= self.slots@.len(),
                forall|j: int| 0 <= j < i ==> self@.notes[j] != Some(note),
            decreases self.slots@.len() - i,
        {
            if self.slots[i].note == Some(note) {
                proof {
                    assert(self@.notes[i as int] == Some(note));
                }
                return true;
            }
            i = i + 1;
        }
        false
    }

    /// Returns the number of active voices among those reported.
    pub fn active_voice_count(&self, voices: &Vec<VoiceStatus>) -> (r: usize)
        ensures
            r == count_set(active_flags(voices@)),
    {
        let mut count: usize = 0;
        let mut i: usize = 0;
        while i < voices.len()
            invariant
                i <= voices@.len(),
                count == count_set(active_flags(voices@).subrange(0, i as int)),
                count <= i,
            decreases voices@.len() - i,
        {
            proof {
                assert(active_flags(voices@).subrange(0, i + 1).drop_last()
                    =~= active_flags(voices@).subrange(0, i as int));
            }
            if voices[i].active {
                count = count + 1;
            }
            i = i + 1;
        }
        proof {
            assert(active_flags(voices@).subrange(0, voices@.len() as int) =~= active_flags(voices@));
        }
        count
    }
}

/// A note that has just been started is playing.
pub proof fn law_note_on_plays(notes: Seq<Option<u8>>, r: int, note: u8)
    requires
        0 <= r < notes.len(),
    ensures
        is_playing(notes.update(r, Some(note)), note),
{
    assert(notes.update(r, Some(note))[r] == Some(note));
}

/// After all notes are released no note is playing.
pub proof fn law_all_notes_off_silences(n: nat, note: u8)
    ensures
        !is_playing(Seq::new(n, |k: int| None::<u8>), note),
{
}

/// Releasing a note that a single voice plays stops it, and leaves every
/// other note as it was.
pub proof fn law_note_off_stops_single_note(notes: Seq<Option<u8>>, note: u8, i: int, other: u8)
    requires
        first_playing(notes, note, i),
        forall|j: int| 0 <= j < notes.len() && j != i ==> notes[j] != Some(note),
        other != note,
    ensures
        !is_playing(notes.update(i, None), note),
        is_playing(notes.update(i, None), other) == is_playing(notes, other),
{
    let after = notes.update(i, None);
    if is_playing(notes, other) {
        let k = choose|k: int| 0 <= k < notes.len() && notes[k] == Some(other);
        assert(after[k] == Some(other));
    }
    if is_playing(after, other) {
        let k = choose|k: int| 0 <= k < after.len() && after[k] == Some(other);
        assert(notes[k] == Some(other));
    }
}

/// While some voice is idle, a new note never takes an active voice.
pub proof fn law_idle_voice_first(
    voices: Seq<VoiceStatus>,
    ages: Seq<u64>,
    strategy: StealingStrategy,
    quietest: int,
    i: int,
)
    requires
        any_set(idle_flags(voices)),
        chosen_voice(voices, ages, strategy, quietest, i),
    ensures
        0 <= i < voices.len(),
        !voices[i].active,
{
}

/// When every voice is active, the `Oldest` and `Released` strategies steal
/// a voice with the least age among their candidates, the first such voice on
/// ties; `Released` takes a releasing voice whenever there is one, and when
/// none is releasing it steals the oldest voice of all. `Quietest` steals the
/// voice the caller found quietest.
pub proof fn law_steal_oldest(
    voices: Seq<VoiceStatus>,
    ages: Seq<u64>,
    strategy: StealingStrategy,
    quietest: int,
    i: int,
)
    requires
        voices.len() == ages.len(),
        !any_set(idle_flags(voices)),
        strategy != StealingStrategy::Quietest,
        chosen_voice(voices, ages, strategy, quietest, i),
    ensures
        0 <= i < voices.len(),
        strategy == StealingStrategy::Released && any_set(releasing_flags(voices)) ==> {
            &&& voices[i].releasing
            &&& forall|j: int| 0 <= j < ages.len() && voices[j].releasing ==> ages[i] <= ages[j]
            &&& forall|j: int| 0 <= j < i && voices[j].releasing ==> ages[i] < ages[j]
        },
        strategy == StealingStrategy::Oldest || !any_set(releasing_flags(voices)) ==> {
            &&& forall|j: int| 0 <= j < ages.len() ==> ages[i] <= ages[j]
            &&& forall|j: int| 0 <= j < i ==> ages[i] < ages[j]
        },
{
    let rel = releasing_flags(voices);
    let all = all_flags(ages.len());
    if strategy == StealingStrategy::Released && any_set(rel) {
        assert forall|j: int| 0 <= j < ages.len() && voices[j].releasing implies ages[i] <= ages[j] by {
            assert(rel[j]);
        }
        assert forall|j: int| 0 <= j < i && voices[j].releasing implies ages[i] < ages[j] by {
            assert(rel[j]);
        }
    }
    if strategy == StealingStrategy::Oldest || !any_set(rel) {
        assert forall|j: int| 0 <= j < ages.len() implies ages[i] <= ages[j] by {
            assert(all[j]);
        }
        assert forall|j: int| 0 <= j < i implies ages[i] < ages[j] by {
            assert(all[j]);
        }
    }
}

/// When every voice is active, `Quietest` steals the voice the caller found
/// quietest.
pub proof fn law_steal_quietest(voices: Seq<VoiceStatus>, ages: Seq<u64>, quietest: int, i: int)
    requires
        !any_set(idle_flags(voices)),
        chosen_voice(voices, ages, StealingStrategy::Quietest, quietest, i),
    ensures
        i == quietest,
{
}

} // verus!
