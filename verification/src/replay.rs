//! The replay memory: a ring of at most `capacity` transitions that, once
//! full, overwrites its oldest slot, and from which a minibatch is drawn
//! slot by slot, with replacement.

use crate::rng::{lcg_steps, range_of, LcgRng};
use vstd::prelude::*;

verus! {

/// One step of the environment: the observation before it, the action
/// taken, the reward, the observation after it, and whether it ended the
/// episode. Observations and reward are bit patterns.
#[derive(Debug)]
pub struct Transition {
    pub state: Vec<u32>,
    pub action: u8,
    pub reward: u32,
    pub next_state: Vec<u32>,
    pub done: bool,
}

/// What a transition holds.
pub struct TransitionView {
    pub state: Seq<u32>,
    pub action: u8,
    pub reward: u32,
    pub next_state: Seq<u32>,
    pub done: bool,
}

impl View for Transition {
    type V = TransitionView;

    open spec fn view(&self) -> TransitionView {
        TransitionView {
            state: self.state@,
            action: self.action,
            reward: self.reward,
            next_state: self.next_state@,
            done: self.done,
        }
    }
}

impl Clone for Transition {
    fn clone(&self) -> (r: Self)
        ensures
            r@ == self@,
    {
        Transition {
            state: self.state.clone(),
            action: self.action,
            reward: self.reward,
            next_state: self.next_state.clone(),
            done: self.done,
        }
    }
}

/// The last `n` elements of `s`, or all of `s` where it has fewer.
pub open spec fn latest<T>(s: Seq<T>, n: nat) -> Seq<T> {
    if s.len() <= n {
        s
    } else {
        s.subrange(s.len() - n, s.len() as int)
    }
}

/// A ring: its capacity, its slots in the order in which they lie in
/// memory, and the slot that the next push overwrites once the ring is full.
pub struct RingView {
    pub cap: nat,
    pub slots: Seq<TransitionView>,
    pub cursor: nat,
}

impl RingView {
    pub open spec fn wf(self) -> bool {
        &&& self.slots.len() <= self.cap
        &&& self.slots.len() < self.cap ==> self.cursor == 0
        &&& self.cursor <= self.slots.len()
        &&& self.cursor < self.cap || self.cap == 0
    }

    pub open spec fn empty(cap: nat) -> RingView {
        RingView { cap, slots: Seq::empty(), cursor: 0 }
    }

    /// The ring after one push: a new slot while there is room, else the
    /// slot at the cursor overwritten and the cursor moved on by one, back
    /// to the first slot behind the last.
    pub open spec fn push(self, t: TransitionView) -> RingView {
        if self.slots.len() < self.cap {
            RingView { slots: self.slots.push(t), ..self }
        } else {
            RingView {
                slots: self.slots.update(self.cursor as int, t),
                cursor: (self.cursor + 1) % (self.cap as int) as nat,
                ..self
            }
        }
    }

    /// The ring after pushing every element of `ts`, first to last.
    pub open spec fn push_all(self, ts: Seq<TransitionView>) -> RingView
        decreases ts.len(),
    {
        if ts.len() == 0 {
            self
        } else {
            self.push_all(ts.drop_last()).push(ts.last())
        }
    }

    /// What the ring holds, oldest first.
    pub open spec fn content(self) -> Seq<TransitionView> {
        self.slots.subrange(self.cursor as int, self.slots.len() as int) + self.slots.subrange(
            0,
            self.cursor as int,
        )
    }
}

/// A push adds the new transition behind the newest, and drops the oldest
/// where the ring was full.
pub proof fn push_drops_oldest(r: RingView, t: TransitionView)
    requires
        r.wf(),
        r.cap > 0,
    ensures
        r.push(t).wf(),
        r.push(t).cap == r.cap,
        r.push(t).content() == latest(r.content().push(t), r.cap),
{
    let c = r.content();
    let p = r.push(t);
    assert(c.len() == r.slots.len());
    if r.slots.len() < r.cap {
        assert(p.content() =~= c.push(t));
    } else {
        let k = r.cursor as int;
        let n = r.cap as int;
        assert(p.slots.len() == n);
        if k + 1 < n {
            assert((k + 1) % n == k + 1) by {
                vstd::arithmetic::div_mod::lemma_small_mod((k + 1) as nat, n as nat);
            }
        } else {
            assert((k + 1) % n == 0) by {
                vstd::arithmetic::div_mod::lemma_mod_self_0(n);
            }
        }
        let want = c.push(t).subrange(1, c.len() as int + 1);
        assert(p.content().len() == want.len());
        assert forall|i: int| 0 <= i < want.len() implies p.content()[i] == want[i] by {
            assert(want[i] == c.push(t)[i + 1]);
        }
        assert(p.content() =~= want);
    }
}

/// The last `n` of a sequence with one more element are the last `n` of:
/// the last `n` of the sequence, and then the element.
pub proof fn latest_push<T>(s: Seq<T>, t: T, n: nat)
    ensures
        latest(s.push(t), n) == latest(latest(s, n).push(t), n),
{
    assert(latest(s.push(t), n) =~= latest(latest(s, n).push(t), n));
}

/// After any number of pushes a ring holds the latest `capacity` of all
/// that it held and was given, in the order of insertion. So from empty,
/// after `capacity + k` pushes, it holds exactly the last `capacity`
/// transitions pushed.
pub proof fn ring_keeps_latest(r: RingView, ts: Seq<TransitionView>)
    requires
        r.wf(),
        r.cap > 0,
    ensures
        r.push_all(ts).wf(),
        r.push_all(ts).cap == r.cap,
        r.push_all(ts).content() == latest(r.content() + ts, r.cap),
        r.push_all(ts).slots.len() == if r.slots.len() + ts.len() <= r.cap {
            r.slots.len() + ts.len()
        } else {
            r.cap
        },
    decreases ts.len(),
{
    if ts.len() == 0 {
        assert(r.content() + ts =~= r.content());
    } else {
        let init = ts.drop_last();
        let q = r.push_all(init);
        ring_keeps_latest(r, init);
        push_drops_oldest(q, ts.last());
        latest_push(r.content() + init, ts.last(), r.cap);
        assert((r.content() + init).push(ts.last()) =~= r.content() + ts);
        assert(q.content().len() == q.slots.len());
        assert(q.push(ts.last()).content().len() == q.push(ts.last()).slots.len());
    }
}

/// The replay memory.
pub struct ReplayBuffer {
    cap: usize,
    buf: Vec<Transition>,
    idx: usize,
}

impl View for ReplayBuffer {
    type V = RingView;

    closed spec fn view(&self) -> RingView {
        RingView {
            cap: self.cap as nat,
            slots: Seq::new(self.buf@.len(), |i: int| self.buf@[i]@),
            cursor: self.idx as nat,
        }
    }
}

impl ReplayBuffer {
    /// The ring is consistent: never more slots than the capacity, and
    /// the cursor on a slot once the ring is full.
    pub open spec fn wf(&self) -> bool {
        self@.wf()
    }

    /// An empty memory for at most `capacity` transitions.
    pub fn new(capacity: usize) -> (r: Self)
        ensures
            r@ == RingView::empty(capacity as nat),
            r.wf(),
    {
        let r = Self { cap: capacity, buf: Vec::new(), idx: 0 };
        assert(r@.slots =~= Seq::empty());
        r
    }

    /// Number of transitions held.
    pub fn len(&self) -> (n: usize)
        ensures
            n == self@.slots.len(),
    {
        self.buf.len()
    }

    /// The most that the memory holds.
    pub fn capacity(&self) -> (n: usize)
        ensures
            n == self@.cap,
    {
        self.cap
    }

    /// Whether at least `batch_size` transitions are held.
    pub fn is_ready(&self, batch_size: usize) -> (r: bool)
        ensures
            r == (self@.slots.len() >= batch_size),
    {
        self.buf.len() >= batch_size
    }

    /// Stores a transition: in a new slot while there is room, else over the
    /// oldest one.
    pub fn push(&mut self, tr: Transition)
        requires
            old(self).wf(),
            old(self)@.cap > 0,
        ensures
            final(self)@ == old(self)@.push(tr@),
            final(self).wf(),
    {
        if self.buf.len() < self.cap {
            self.buf.push(tr);
            assert(self@.slots =~= old(self)@.slots.push(tr@));
        } else {
            let at: usize = self.idx;
            let next: usize = (self.idx + 1) % self.cap;
            self.buf[at] = tr;
            self.idx = next;
            assert(self@.slots =~= old(self)@.slots.update(at as int, tr@));
        }
    }

    /// The transition in slot `k`.
    pub fn get(&self, k: usize) -> (tr: &Transition)
        requires
            k < self@.slots.len(),
        ensures
            tr@ == self@.slots[k as int],
    {
        &self.buf[k]
    }

    /// The `i`-th oldest transition held.
    pub fn nth_oldest(&self, i: usize) -> (tr: &Transition)
        requires
            self.wf(),
            i < self@.slots.len(),
        ensures
            tr@ == self@.content()[i as int],
    {
        let n: usize = self.buf.len();
        let rest: usize = n - self.idx;
        if i < rest {
            &self.buf[self.idx + i]
        } else {
            &self.buf[i - rest]
        }
    }

    /// Draws `batch` slots, each from all the slots held, so that a slot may
    /// come more than once: draw `i` is the generator's draw `i` below the
    /// number of slots.
    pub fn sample_indices(&self, rng: &mut LcgRng, batch: usize) -> (out: Vec<usize>)
        requires
            0 < self@.slots.len() <= u32::MAX,
        ensures
            out@.len() == batch,
            final(rng)@ == lcg_steps(old(rng)@, batch as nat),
            forall|i: int|
                0 <= i < batch ==> #[trigger] out@[i] == range_of(
                    lcg_steps(old(rng)@, (i + 1) as nat),
                    self@.slots.len() as u32,
                ),
            forall|i: int| 0 <= i < batch ==> #[trigger] out@[i] < self@.slots.len(),
    {
        let n: u32 = self.buf.len() as u32;
        let mut out: Vec<usize> = Vec::new();
        let mut i: usize = 0;
        while i < batch
            invariant
                i <= batch,
                n == self@.slots.len(),
                n > 0,
                out@.len() == i,
                rng@ == lcg_steps(old(rng)@, i as nat),
                forall|k: int|
                    0 <= k < i ==> #[trigger] out@[k] == range_of(
                        lcg_steps(old(rng)@, (k + 1) as nat),
                        n,
                    ),
                forall|k: int| 0 <= k < i ==> #[trigger] out@[k] < n,
            decreases batch - i,
        {
            let d: u32 = rng.gen_range_u32(n);
            out.push(d as usize);
            i += 1;
        }
        out
    }
}

} // verus!
