//! The Double-DQN agent: its hyperparameters, its two networks, its replay
//! memory and generator, and the decisions of its protocol
//! `observe -> act -> store -> learn -> advance the schedule`.
//!
//! The agent decides; whoever drives it does the arithmetic: the forward and
//! backward passes, the optimiser step and the blend of the target network.

use crate::codec::{dword_at, get_u32, get_u64, le32, le64, put_u32, put_u64, word_at};
use crate::ieee::{
    any_non_finite, argmax, argmax_upto, clamp, clamped, has_non_finite, is_finite,
    below_is_less_than, is_finite_bits, is_zero, is_zero_bits, le, le_bits, lt_bits,
    unit_below, ONE_BITS,
};
use crate::network::{Net, NetView};
use crate::replay::{ReplayBuffer, RingView, Transition, TransitionView};
use crate::rng::{lcg_step, lcg_steps, range_of, unit24_of, LcgRng};
use vstd::prelude::*;

verus! {

/// Largest norm that the gradient of one update may have: `1.0`.
pub const MAX_GRAD_NORM: u32 = 0x3f80_0000;

/// Decoupled weight decay of the optimiser: `1e-4`.
pub const WEIGHT_DECAY: u32 = 0x38d1_b717;

/// Largest magnitude of a parameter after an update: `10.0`.
pub const PARAM_CLIP: u32 = 0x4120_0000;

/// Largest magnitude of a reward in a target: `1.0`.
pub const REWARD_CLIP: u32 = 0x3f80_0000;

/// Largest magnitude of a target: `10.0`.
pub const TARGET_CLIP: u32 = 0x4120_0000;

/// Decay of the first Adam moment: `0.9`.
pub const ADAM_BETA1: u32 = 0x3f66_6666;

/// Decay of the second Adam moment: `0.999`.
pub const ADAM_BETA2: u32 = 0x3f7f_be77;

/// The term that keeps Adam's divisor above zero: `1e-8`.
pub const ADAM_EPS: u32 = 0x322b_cc77;

/// `-1.0`.
pub const NEG_REWARD_CLIP: u32 = 0xbf80_0000;

/// `-10.0`.
pub const NEG_TARGET_CLIP: u32 = 0xc120_0000;

/// The agent's own generator is seeded with the configured seed, combined
/// bit by bit with this mask by exclusive or.
pub const REPLAY_SEED_MASK: u64 = 0xDEAD_BEEF;

/// Number of bytes of a persisted agent state.
pub const STATE_LEN: usize = 12;

/// The hyperparameters of an agent. Real-valued ones are bit patterns.
#[derive(Clone, Copy, Debug)]
pub struct AgentConfig {
    pub obs_dim: usize,
    pub act_dim: usize,
    pub hidden: usize,
    pub buffer_capacity: usize,
    pub batch_size: usize,
    pub gamma: u32,
    pub lr: u32,
    pub eps_start: u32,
    pub eps_end: u32,
    pub eps_decay_steps: u64,
    pub tau: u32,
    pub learn_start: usize,
    pub updates_per_step: usize,
    pub seed: u64,
}

/// What became of the gradients of a minibatch.
#[derive(Clone, Copy, Debug, PartialEq, Eq, Structural)]
pub enum UpdateVerdict {
    /// Every sample was skipped: nothing is touched.
    SkipEmpty,
    /// A parameter, a gradient or the gradient norm is infinite or NaN: the
    /// gradients were set to zero and the parameters stay.
    SkipNonFinite,
    /// The optimiser step is to be taken.
    Apply,
}

/// A reward limited to `[-1, 1]`.
pub open spec fn clipped_reward(reward: u32) -> u32 {
    clamped(reward, NEG_REWARD_CLIP, REWARD_CLIP)
}

/// The target of a transition: for one that ended its episode, the clipped
/// reward; for any other, `bootstrapped`, which is the clipped reward plus
/// the discounted value of the next state. Either is limited to
/// `[-10, 10]`.
pub open spec fn td_target_of(reward: u32, done: bool, bootstrapped: u32) -> u32 {
    clamped(
        if done {
            clipped_reward(reward)
        } else {
            bootstrapped
        },
        NEG_TARGET_CLIP,
        TARGET_CLIP,
    )
}

/// The factor by which gradients of norm `norm` are scaled: one where the
/// norm is zero or at most `max_norm`, else `quotient`, which is `max_norm`
/// divided by `norm`.
pub open spec fn clip_scale_of(norm: u32, max_norm: u32, quotient: u32) -> u32 {
    if le(norm, max_norm) || is_zero(norm) {
        ONE_BITS
    } else {
        quotient
    }
}

/// The persisted state of an agent: epsilon, then the step count.
pub open spec fn state_record(eps: u32, steps: u64) -> Seq<u8> {
    le32(eps) + le64(steps)
}

/// What a persisted state holds, if it is long enough to hold one.
pub open spec fn state_of(data: Seq<u8>) -> Option<(u32, u64)> {
    if data.len() >= STATE_LEN {
        Some((word_at(data, 0), dword_at(data, 4)))
    } else {
        None
    }
}

/// For a transition that ended its episode the target is the clipped
/// reward, whatever the bootstrap term and so whatever the discount.
pub proof fn terminal_target_is_clipped_reward(reward: u32, bootstrapped: u32)
    ensures
        td_target_of(reward, true, bootstrapped) == clipped_reward(reward),
{
}

/// A persisted state is what it decodes to, whatever follows it.
pub proof fn state_round_trip(eps: u32, steps: u64, rest: Seq<u8>)
    ensures
        state_record(eps, steps).len() == STATE_LEN,
        state_of(state_record(eps, steps) + rest) == Some((eps, steps)),
{
    let data = state_record(eps, steps) + rest;
    crate::codec::word_round_trip(eps);
    crate::codec::dword_round_trip(steps);
    assert(data.subrange(0, 4) =~= le32(eps));
    assert(data.subrange(4, 12) =~= le64(steps));
    crate::codec::word_at_within(data, 0, 4, 0);
    crate::codec::word_at_within(data, 4, 8, 0);
    crate::codec::word_at_within(data, 4, 8, 4);
}

/// Limits a reward to `[-1, 1]`.
pub fn clip_reward(reward: u32) -> (r: u32)
    ensures
        r == clipped_reward(reward),
{
    clamp(reward, NEG_REWARD_CLIP, REWARD_CLIP)
}

/// The target of a transition.
pub fn td_target(reward: u32, done: bool, bootstrapped: u32) -> (y: u32)
    ensures
        y == td_target_of(reward, done, bootstrapped),
{
    let y: u32 = if done {
        clip_reward(reward)
    } else {
        bootstrapped
    };
    clamp(y, NEG_TARGET_CLIP, TARGET_CLIP)
}

/// The factor by which gradients are scaled so that their norm does not
/// exceed `max_norm`.
pub fn clip_scale(norm: u32, max_norm: u32, quotient: u32) -> (s: u32)
    ensures
        s == clip_scale_of(norm, max_norm, quotient),
{
    if le_bits(norm, max_norm) || is_zero_bits(norm) {
        ONE_BITS
    } else {
        quotient
    }
}

/// The twelve bytes that persist epsilon and the step count.
pub fn save_agent_state(eps: u32, steps_done: u64) -> (out: Vec<u8>)
    ensures
        out@ == state_record(eps, steps_done),
{
    let mut out: Vec<u8> = Vec::new();
    put_u32(&mut out, eps);
    put_u64(&mut out, steps_done);
    assert(out@ =~= state_record(eps, steps_done));
    out
}

/// Epsilon and the step count from the first twelve bytes of `data`.
pub fn load_agent_state(data: &[u8]) -> (r: Option<(u32, u64)>)
    ensures
        r == state_of(data@),
{
    if data.len() < STATE_LEN {
        return None;
    }
    Some((get_u32(data, 0), get_u64(data, 4)))
}

/// What an agent holds.
pub struct AgentView {
    pub cfg: AgentConfig,
    pub online: NetView,
    pub target: NetView,
    pub replay: RingView,
    pub rng: u64,
    pub eps: u32,
    pub steps_done: u64,
    pub last_loss: u32,
}

impl AgentView {
    pub open spec fn wf(self) -> bool {
        &&& self.online.wf()
        &&& self.target.wf()
        &&& self.online.same_shape(self.target)
        &&& self.replay.wf()
        &&& self.replay.cap == self.cfg.buffer_capacity
    }

    /// The online network that a new agent starts with: the one given, with
    /// the checkpoint loaded where there is one and it is accepted.
    pub open spec fn first_online(online: NetView, weights: Option<Seq<u8>>) -> NetView {
        match weights {
            Some(w) => if online.load_check(w) is Ok {
                online.loaded(w)
            } else {
                online
            },
            None => online,
        }
    }

    /// A new agent: the target network a copy of the online network's
    /// weights and biases with fresh optimiser state, the replay memory
    /// empty, epsilon and the step count from the persisted state where
    /// there is one, else the schedule's start and zero.
    pub open spec fn started(
        cfg: AgentConfig,
        online: NetView,
        weights: Option<Seq<u8>>,
        state: Option<Seq<u8>>,
    ) -> AgentView {
        let on = Self::first_online(online, weights);
        let restored = match state {
            Some(s) => state_of(s),
            None => None,
        };
        AgentView {
            cfg,
            online: on,
            target: NetView::zeroed(on.din, on.h1, on.h2, on.dout).with_params_of(on),
            replay: RingView::empty(cfg.buffer_capacity as nat),
            rng: REPLAY_SEED_MASK ^ cfg.seed,
            eps: match restored {
                Some(p) => p.0,
                None => cfg.eps_start,
            },
            steps_done: match restored {
                Some(p) => p.1,
                None => 0,
            },
            last_loss: 0,
        }
    }

    /// The transition that `remember` stores.
    pub open spec fn memory_of(s: Seq<u32>, a: u8, r: u32, s2: Seq<u32>, done: bool)
        -> TransitionView {
        TransitionView { state: s, action: a, reward: r, next_state: s2, done }
    }

    /// Number of updates that are due after a step of the environment: none
    /// before the replay memory holds `learn_start` transitions.
    pub open spec fn updates_due(self) -> nat {
        if self.replay.slots.len() < self.cfg.learn_start {
            0
        } else {
            self.cfg.updates_per_step as nat
        }
    }

    /// The exploration rate after `steps` steps of the environment.
    pub open spec fn scheduled(self, steps: u64, interpolated: u32) -> u32 {
        if steps >= self.cfg.eps_decay_steps {
            self.cfg.eps_end
        } else if steps == 0 {
            self.cfg.eps_start
        } else {
            interpolated
        }
    }

    /// Whether the next draw of the generator, as a fraction of `2^24`, is
    /// below epsilon.
    pub open spec fn explores(self) -> bool {
        unit_below(unit24_of(lcg_step(self.rng)), self.eps)
    }

    /// The action that exploring draws, if the agent explores.
    pub open spec fn explored(self) -> Option<u8> {
        if self.explores() {
            Some(self.drawn_action(lcg_step(lcg_step(self.rng))))
        } else {
            None
        }
    }

    /// The agent after the decision between exploring and exploiting: one
    /// draw on, or two where it explores.
    pub open spec fn after_explore(self) -> AgentView {
        if self.explores() {
            AgentView { rng: lcg_step(lcg_step(self.rng)), ..self }
        } else {
            AgentView { rng: lcg_step(self.rng), ..self }
        }
    }

    /// The action drawn from state `s` of the generator.
    pub open spec fn drawn_action(self, s: u64) -> u8 {
        (range_of(s, self.cfg.act_dim as u32) % 256) as u8
    }

    /// What becomes of the gradients of a minibatch of which `kept` samples
    /// were kept and whose gradient norm is `grad_norm`.
    pub open spec fn verdict(self, kept: nat, grad_norm: u32) -> UpdateVerdict {
        if kept == 0 {
            UpdateVerdict::SkipEmpty
        } else if self.online.non_finite() || !is_finite(grad_norm) {
            UpdateVerdict::SkipNonFinite
        } else {
            UpdateVerdict::Apply
        }
    }
}

/// What an agent saves, a new agent takes up: started with the checkpoint
/// and the state record of an agent `a`, and with any online network of
/// the same dimensions, an agent has every weight, bias and Adam moment of
/// the online network of `a`, its Adam step, its epsilon and its step
/// count, and a target network with the same weights and biases.
pub proof fn restart_restores(a: AgentView, fresh: NetView)
    requires
        a.wf(),
        fresh.wf(),
        fresh.same_shape(a.online),
    ensures
        ({
            let b = AgentView::started(
                a.cfg,
                fresh,
                Some(a.online.image()),
                Some(state_record(a.eps, a.steps_done)),
            );
            &&& b.online == fresh.with_persisted_of(a.online)
            &&& b.eps == a.eps
            &&& b.steps_done == a.steps_done
            &&& b.target.l1.w == a.online.l1.w
            &&& b.target.l1.b == a.online.l1.b
            &&& b.target.l2.w == a.online.l2.w
            &&& b.target.l2.b == a.online.l2.b
            &&& b.target.l3.w == a.online.l3.w
            &&& b.target.l3.b == a.online.l3.b
        }),
{
    crate::network::save_load_round_trip(a.online, fresh);
    state_round_trip(a.eps, a.steps_done, Seq::<u8>::empty());
    assert(state_record(a.eps, a.steps_done) + Seq::<u8>::empty() =~= state_record(
        a.eps,
        a.steps_done,
    ));
}

pub struct DQNAgent {
    cfg: AgentConfig,
    /// The network that learns.
    pub online: Net,
    /// The network that the targets are read from.
    pub target: Net,
    replay: ReplayBuffer,
    rng: LcgRng,
    eps: u32,
    /// Number of environment steps taken, by which the schedule goes.
    pub steps_done: u64,
    /// Mean loss of the latest update.
    pub last_loss: u32,
}

impl View for DQNAgent {
    type V = AgentView;

    closed spec fn view(&self) -> AgentView {
        AgentView {
            cfg: self.cfg,
            online: self.online@,
            target: self.target@,
            replay: self.replay@,
            rng: self.rng@,
            eps: self.eps,
            steps_done: self.steps_done,
            last_loss: self.last_loss,
        }
    }
}

impl DQNAgent {
    pub open spec fn wf(&self) -> bool {
        self@.wf()
    }

    /// A new agent around the online network `online`. `weights` is a
    /// checkpoint to load into it and `state` a persisted agent state, where
    /// there is one. Returns the agent, whether the checkpoint was taken up,
    /// and whether the state was.
    pub fn new(
        cfg: AgentConfig,
        online: Net,
        weights: Option<Vec<u8>>,
        state: Option<Vec<u8>>,
    ) -> (r: (Self, bool, bool))
        requires
            online.wf(),
        ensures
            r.0@ == AgentView::started(
                cfg,
                online@,
                match weights {
                    Some(w) => Some(w@),
                    None => None,
                },
                match state {
                    Some(s) => Some(s@),
                    None => None,
                },
            ),
            r.0.wf(),
            r.1 == (weights matches Some(w) && online@.load_check(w@) is Ok),
            r.2 == (state matches Some(s) && state_of(s@) is Some),
    {
        let mut online = online;
        let mut target = Net::new(online.din(), online.h1(), online.h2(), online.dout());
        target.copy_from(&online);
        let mut took_weights: bool = false;
        match weights {
            Some(w) => {
                if online.load(w.as_slice()).is_ok() {
                    target.copy_from(&online);
                    took_weights = true;
                }
            },
            None => {},
        }
        let restored: Option<(u32, u64)> = match state {
            Some(s) => load_agent_state(s.as_slice()),
            None => None,
        };
        let took_state: bool = restored.is_some();
        let (eps, steps_done) = match restored {
            Some(p) => p,
            None => (cfg.eps_start, 0),
        };
        let r = Self {
            cfg,
            online,
            target,
            replay: ReplayBuffer::new(cfg.buffer_capacity),
            rng: LcgRng::new(REPLAY_SEED_MASK ^ cfg.seed),
            eps,
            steps_done,
            last_loss: 0,
        };
        assert(r@.target =~~= AgentView::started(
            cfg,
            online@,
            match weights {
                Some(w) => Some(w@),
                None => None,
            },
            match state {
                Some(s) => Some(s@),
                None => None,
            },
        ).target);
        (r, took_weights, took_state)
    }

    pub fn config(&self) -> (r: &AgentConfig)
        ensures
            *r == self@.cfg,
    {
        &self.cfg
    }

    /// The current exploration rate.
    pub fn current_epsilon(&self) -> (r: u32)
        ensures
            r == self@.eps,
    {
        self.eps
    }

    /// Number of transitions in the replay memory.
    pub fn replay_len(&self) -> (r: usize)
        ensures
            r == self@.replay.slots.len(),
    {
        self.replay.len()
    }

    /// Stores a transition, with copies of the two observations.
    pub fn remember(&mut self, s: &[u32], a: u8, r: u32, s2: &[u32], done: bool)
        requires
            old(self).wf(),
            old(self)@.cfg.buffer_capacity > 0,
        ensures
            final(self).wf(),
            final(self)@ == (AgentView {
                replay: old(self)@.replay.push(AgentView::memory_of(s@, a, r, s2@, done)),
                ..old(self)@
            }),
    {
        let tr = Transition {
            state: vstd::slice::slice_to_vec(s),
            action: a,
            reward: r,
            next_state: vstd::slice::slice_to_vec(s2),
            done,
        };
        self.replay.push(tr);
    }

    /// Number of updates to run after a step of the environment.
    pub fn maybe_learn(&self) -> (n: usize)
        ensures
            n == self@.updates_due(),
    {
        if self.replay.len() < self.cfg.learn_start {
            0
        } else {
            self.cfg.updates_per_step
        }
    }

    /// Moves the exploration rate along its linear schedule: the start rate
    /// at step zero, the end rate from `eps_decay_steps` steps on, and in
    /// between `interpolated`, which is the rate on the straight line between
    /// the two.
    pub fn on_step(&mut self, global_steps: u64, interpolated: u32)
        ensures
            final(self)@ == (AgentView {
                steps_done: global_steps,
                eps: old(self)@.scheduled(global_steps, interpolated),
                ..old(self)@
            }),
    {
        self.steps_done = global_steps;
        self.eps = if global_steps >= self.cfg.eps_decay_steps {
            self.cfg.eps_end
        } else if global_steps == 0 {
            self.cfg.eps_start
        } else {
            interpolated
        };
    }

    /// Decides between exploring and exploiting: draws a fraction of
    /// `2^24` and, where it is below epsilon, draws an action and returns
    /// it. Where it returns none, the action is to be taken from the values
    /// of the online network.
    pub fn explore(&mut self) -> (a: Option<u8>)
        requires
            0 < old(self)@.cfg.act_dim <= u32::MAX,
        ensures
            final(self)@ == old(self)@.after_explore(),
            a == old(self)@.explored(),
    {
        let u: u32 = self.rng.next_f32();
        proof {
            below_is_less_than(unit24_of(self.rng@), u, self.eps);
        }
        if lt_bits(u, self.eps) {
            Some(self.random_action())
        } else {
            None
        }
    }

    /// Draws an action.
    pub fn random_action(&mut self) -> (a: u8)
        requires
            0 < old(self)@.cfg.act_dim <= u32::MAX,
        ensures
            final(self)@ == (AgentView { rng: lcg_step(old(self)@.rng), ..old(self)@ }),
            a == old(self)@.drawn_action(lcg_step(old(self)@.rng)),
    {
        let d: u32 = self.rng.gen_range_u32(self.cfg.act_dim as u32);
        (d % 256) as u8
    }

    /// The action for the values `q` of the online network: the one of the
    /// largest value, the first among equals; a drawn one where a value is
    /// infinite or NaN, which `fell_back` then says.
    pub fn greedy_action(&mut self, q: &[u32]) -> (r: (u8, bool))
        requires
            q@.len() > 0,
            0 < old(self)@.cfg.act_dim <= u32::MAX,
        ensures
            r.1 == any_non_finite(q@),
            r.1 ==> final(self)@ == (AgentView { rng: lcg_step(old(self)@.rng), ..old(self)@ })
                && r.0 == old(self)@.drawn_action(lcg_step(old(self)@.rng)),
            !r.1 ==> final(self)@ == old(self)@ && r.0 == argmax_upto(q@, q@.len()) % 256,
    {
        if has_non_finite(q) {
            let a: u8 = self.random_action();
            return (a, true);
        }
        let best: usize = argmax(q);
        ((best % 256) as u8, false)
    }

    /// Starts an update: draws the slots of a minibatch and sets the
    /// gradients of the online network to zero.
    pub fn begin_update(&mut self) -> (idxs: Vec<usize>)
        requires
            old(self).wf(),
            0 < old(self)@.replay.slots.len() <= u32::MAX,
        ensures
            final(self).wf(),
            final(self)@ == (AgentView {
                rng: lcg_steps(old(self)@.rng, old(self)@.cfg.batch_size as nat),
                online: old(self)@.online.with_zero_grad(),
                ..old(self)@
            }),
            idxs@.len() == old(self)@.cfg.batch_size,
            forall|i: int|
                0 <= i < idxs@.len() ==> #[trigger] idxs@[i] == range_of(
                    lcg_steps(old(self)@.rng, (i + 1) as nat),
                    old(self)@.replay.slots.len() as u32,
                ),
            forall|i: int| 0 <= i < idxs@.len() ==> #[trigger] idxs@[i] < old(
                self,
            )@.replay.slots.len(),
    {
        let idxs: Vec<usize> = self.replay.sample_indices(&mut self.rng, self.cfg.batch_size);
        self.online.zero_grad();
        idxs
    }

    /// The transition in slot `k` of the replay memory.
    pub fn transition(&self, k: usize) -> (tr: &Transition)
        requires
            k < self@.replay.slots.len(),
        ensures
            tr@ == self@.replay.slots[k as int],
    {
        self.replay.get(k)
    }

    /// Decides what becomes of the gradients that a minibatch left in the
    /// online network, of which `kept` samples were kept and whose norm is
    /// `grad_norm`. Where a parameter, a gradient or the norm is infinite or
    /// NaN the gradients are set to zero.
    pub fn judge_update(&mut self, kept: usize, grad_norm: u32) -> (v: UpdateVerdict)
        requires
            old(self).wf(),
        ensures
            final(self).wf(),
            v == old(self)@.verdict(kept as nat, grad_norm),
            v == UpdateVerdict::SkipNonFinite ==> final(self)@ == (AgentView {
                online: old(self)@.online.with_zero_grad(),
                ..old(self)@
            }),
            v != UpdateVerdict::SkipNonFinite ==> final(self)@ == old(self)@,
    {
        if kept == 0 {
            return UpdateVerdict::SkipEmpty;
        }
        if self.online.non_finite_any() || !is_finite_bits(grad_norm) {
            self.online.zero_grad();
            return UpdateVerdict::SkipNonFinite;
        }
        UpdateVerdict::Apply
    }

    /// What persists of the agent: the checkpoint of the online network, and
    /// the record of epsilon and the step count. The target network is not
    /// persisted: a new agent copies it from the online network.
    pub fn save_all(&self) -> (r: (Vec<u8>, Vec<u8>))
        requires
            self.wf(),
        ensures
            r.0@ == self@.online.image(),
            r.1@ == state_record(self@.eps, self@.steps_done),
    {
        (self.online.save(), save_agent_state(self.eps, self.steps_done))
    }

    /// The bytes that persist epsilon and the step count.
    pub fn state_record(&self) -> (out: Vec<u8>)
        ensures
            out@ == state_record(self@.eps, self@.steps_done),
    {
        save_agent_state(self.eps, self.steps_done)
    }
}

} // verus!
