//! A fixed-size ring buffer with a write position: the storage of a delay
//! line (read a sample from some steps back, then write the next one) and
//! of a moving window such as an RMS detector's.

use vstd::prelude::*;

verus! {

/// The mathematical content of a ring buffer.
pub struct RingView<T> {
    pub buffer: Seq<T>,
    /// The slot that the next write fills.
    pub write_pos: nat,
}

impl<T> RingView<T> {
    /// A ring has at least one slot and its write position is one of them.
    pub open spec fn wf(self) -> bool {
        self.buffer.len() > 0 && self.write_pos < self.buffer.len()
    }

    /// The slot read for a delay of `d` steps: `d` is capped at one less than
    /// the ring's size, and counted back from the write position.
    pub open spec fn delay_index(self, d: nat) -> int {
        let n = self.buffer.len() as int;
        let capped = if d < n - 1 { d as int } else { n - 1 };
        (self.write_pos + n - capped) % n
    }

    /// The value read for a delay of `d` steps.
    pub open spec fn delayed(self, d: nat) -> T {
        self.buffer[self.delay_index(d)]
    }

    /// The value a delay line plays for a delay of `d` steps when `current`
    /// is the sample arriving now: with no delay, the sample itself;
    /// otherwise what was written `d` steps back.
    pub open spec fn tapped(self, d: nat, current: T) -> T {
        if d == 0 {
            current
        } else {
            self.delayed(d)
        }
    }

    /// The ring after writing `v` at the write position and moving on by one.
    pub open spec fn after_write(self, v: T) -> RingView<T> {
        RingView {
            buffer: self.buffer.update(self.write_pos as int, v),
            write_pos: ((self.write_pos + 1) % self.buffer.len()) as nat,
        }
    }

    /// The ring after writing each value of `xs` in turn.
    pub open spec fn after_writes(self, xs: Seq<T>) -> RingView<T>
        decreases xs.len(),
    {
        if xs.len() == 0 {
            self
        } else {
            self.after_writes(xs.drop_last()).after_write(xs.last())
        }
    }
}

/// A ring buffer of `T` values.
#[derive(Debug)]
pub struct RingBuffer<T> {
    buffer: Vec<T>,
    write_pos: usize,
}

impl<T> View for RingBuffer<T> {
    type V = RingView<T>;

    closed spec fn view(&self) -> RingView<T> {
        RingView { buffer: self.buffer@, write_pos: self.write_pos as nat }
    }
}

impl<T: Copy> RingBuffer<T> {
    /// Creates a ring of `size` slots, each holding `fill`, writing first at slot 0.
    pub fn new(size: usize, fill: T) -> (r: Self)
        requires
            size > 0,
        ensures
            r@.buffer == Seq::new(size as nat, |i: int| fill),
            r@.write_pos == 0,
            r@.wf(),
    {
        let mut buffer: Vec<T> = Vec::new();
        let mut i: usize = 0;
        while i < size
            invariant
                i <= size,
                buffer@ == Seq::new(i as nat, |k: int| fill),
            decreases size - i,
        {
            buffer.push(fill);
            proof {
                assert(buffer@ =~= Seq::new((i + 1) as nat, |k: int| fill));
            }
            i = i + 1;
        }
        RingBuffer { buffer, write_pos: 0 }
    }

    /// The number of slots.
    pub fn len(&self) -> (r: usize)
        ensures
            r == self@.buffer.len(),
    {
        self.buffer.len()
    }

    /// The slot that the next write fills.
    pub fn write_pos(&self) -> (r: usize)
        ensures
            r == self@.write_pos,
    {
        self.write_pos
    }

    /// All slots, in storage order.
    pub fn values(&self) -> (r: &Vec<T>)
        ensures
            r@ == self@.buffer,
    {
        &self.buffer
    }

    /// Reads the slot `delay` steps behind the write position: for `delay`
    /// from 1 to one less than the ring's size, the value written `delay`
    /// writes ago. Larger delays are capped at one less than the size; a
    /// delay of 0 reads the slot the next write fills, the oldest value.
    pub fn read_delayed(&self, delay: usize) -> (r: T)
        requires
            self@.wf(),
        ensures
            r == self@.delayed(delay as nat),
    {
        let n = self.buffer.len();
        let d = if delay < n - 1 { delay } else { n - 1 };
        let idx = if self.write_pos >= d { self.write_pos - d } else { self.write_pos + (n - d) };
        proof {
            let w = self.write_pos as int;
            if w >= d {
                assert((w + n - d) % (n as int) == w - d) by {
                    vstd::arithmetic::div_mod::lemma_mod_add_multiples_vanish(w - d, n as int);
                    vstd::arithmetic::div_mod::lemma_small_mod((w - d) as nat, n as nat);
                }
            } else {
                vstd::arithmetic::div_mod::lemma_small_mod((w + n - d) as nat, n as nat);
            }
        }
        self.buffer[idx]
    }

    /// The delayed sample of a delay line for a delay of `delay` steps, with
    /// `current` the sample arriving now: `current` itself for a delay of 0,
    /// else the value written `delay` writes ago (capped as `read_delayed`
    /// caps it).
    pub fn tap(&self, delay: usize, current: T) -> (r: T)
        requires
            self@.wf(),
        ensures
            r == self@.tapped(delay as nat, current),
    {
        if delay == 0 {
            current
        } else {
            self.read_delayed(delay)
        }
    }

    /// Writes `v` at the write position and moves it on by one slot,
    /// wrapping at the end.
    pub fn write_and_advance(&mut self, v: T)
        requires
            old(self)@.wf(),
        ensures
            final(self)@ == old(self)@.after_write(v),
            final(self)@.wf(),
    {
        let w = self.write_pos;
        let n = self.buffer.len();
        self.buffer.set(w, v);
        self.write_pos = if w + 1 == n { 0 } else { w + 1 };
        proof {
            if w + 1 == n {
                vstd::arithmetic::div_mod::lemma_mod_self_0(n as int);
            } else {
                vstd::arithmetic::div_mod::lemma_small_mod((w + 1) as nat, n as nat);
            }
        }
    }
}

/// What was just written is read back with a delay of one step (for a ring
/// of at least two slots).
pub proof fn law_write_then_read<T>(r: RingView<T>, v: T)
    requires
        r.wf(),
        r.buffer.len() >= 2,
    ensures
        r.after_write(v).delayed(1) == v,
{
    let n = r.buffer.len() as int;
    let w = r.write_pos as int;
    let s = r.after_write(v);
    if w + 1 == n {
        vstd::arithmetic::div_mod::lemma_mod_self_0(n);
        vstd::arithmetic::div_mod::lemma_small_mod((n - 1) as nat, n as nat);
    } else {
        vstd::arithmetic::div_mod::lemma_small_mod((w + 1) as nat, n as nat);
        vstd::arithmetic::div_mod::lemma_mod_add_multiples_vanish(w, n);
        vstd::arithmetic::div_mod::lemma_small_mod(w as nat, n as nat);
    }
    assert(s.delay_index(1) == w);
}

/// Writing keeps a ring well formed and of the same size.
proof fn lemma_after_writes_wf<T>(r: RingView<T>, xs: Seq<T>)
    requires
        r.wf(),
    ensures
        r.after_writes(xs).wf(),
        r.after_writes(xs).buffer.len() == r.buffer.len(),
    decreases xs.len(),
{
    if xs.len() > 0 {
        lemma_after_writes_wf(r, xs.drop_last());
        let q = r.after_writes(xs.drop_last());
        vstd::arithmetic::div_mod::lemma_mod_bound((q.write_pos + 1) as int, q.buffer.len() as int);
    }
}

/// A delay line plays its input back `d` steps later: after the values `xs`
/// have been written in turn, the sample `d` steps back is `xs`'s `d`-th
/// from the end, for every delay from 1 to one less than the ring's size
/// that the history covers; a delay of 0 plays the arriving sample itself.
pub proof fn law_delay_line_plays_back<T>(r: RingView<T>, xs: Seq<T>, d: nat, current: T)
    requires
        r.wf(),
        d < r.buffer.len(),
        d <= xs.len(),
    ensures
        r.after_writes(xs).tapped(d, current) == if d == 0 {
            current
        } else {
            xs[xs.len() - d]
        },
    decreases xs.len(),
{
    if d > 0 {
        let q = r.after_writes(xs.drop_last());
        lemma_after_writes_wf(r, xs.drop_last());
        if d == 1 {
            law_write_then_read(q, xs.last());
        } else {
            law_write_shifts_history(q, xs.last(), (d - 1) as nat);
            law_delay_line_plays_back(r, xs.drop_last(), (d - 1) as nat, current);
        }
    }
}

/// A fresh delay line, filled with `fill`, plays `fill` for every delay that
/// reaches back before its first write.
pub proof fn law_fresh_delay_line_plays_fill<T>(n: nat, fill: T, xs: Seq<T>, d: nat, current: T)
    requires
        n > 0,
        xs.len() < d < n,
    ensures
        (RingView { buffer: Seq::new(n, |i: int| fill), write_pos: 0 }).after_writes(xs).tapped(
            d,
            current,
        ) == fill,
    decreases xs.len(),
{
    let r = RingView { buffer: Seq::new(n, |i: int| fill), write_pos: 0 };
    if xs.len() == 0 {
        vstd::arithmetic::div_mod::lemma_mod_bound((n - d) as int, n as int);
    } else {
        let q = r.after_writes(xs.drop_last());
        lemma_after_writes_wf(r, xs.drop_last());
        law_write_shifts_history(q, xs.last(), (d - 1) as nat);
        law_fresh_delay_line_plays_fill(n, fill, xs.drop_last(), (d - 1) as nat, current);
    }
}

/// A write shifts the history by one: what was `d` steps back is now `d + 1`
/// steps back, as long as both delays fit in the ring.
pub proof fn law_write_shifts_history<T>(r: RingView<T>, v: T, d: nat)
    requires
        r.wf(),
        1 <= d,
        d + 1 < r.buffer.len(),
    ensures
        r.after_write(v).delayed(d + 1) == r.delayed(d),
{
    let n = r.buffer.len() as int;
    let w = r.write_pos as int;
    let s = r.after_write(v);
    let w2 = s.write_pos as int;
    if w + 1 == n {
        vstd::arithmetic::div_mod::lemma_mod_self_0(n);
    } else {
        vstd::arithmetic::div_mod::lemma_small_mod((w + 1) as nat, n as nat);
    }
    // Both indices equal (w - d) mod n.
    assert(s.delay_index(d + 1) == (w2 + n - (d + 1)) % n);
    assert(r.delay_index(d) == (w + n - d) % n);
    if w >= d {
        vstd::arithmetic::div_mod::lemma_mod_add_multiples_vanish(w - d, n);
        vstd::arithmetic::div_mod::lemma_small_mod((w - d) as nat, n as nat);
    } else {
        vstd::arithmetic::div_mod::lemma_small_mod((w + n - d) as nat, n as nat);
    }
    if w2 >= d + 1 {
        vstd::arithmetic::div_mod::lemma_mod_add_multiples_vanish(w2 - d - 1, n);
        vstd::arithmetic::div_mod::lemma_small_mod((w2 - d - 1) as nat, n as nat);
    } else {
        vstd::arithmetic::div_mod::lemma_small_mod((w2 + n - d - 1) as nat, n as nat);
    }
    assert(s.delay_index(d + 1) == r.delay_index(d));
    assert(s.buffer[r.delay_index(d)] == r.buffer[r.delay_index(d)]);
}

} // verus!
