use snake_dqn::agent::{
    clip_reward, clip_scale, td_target, AgentConfig, DQNAgent, UpdateVerdict, ADAM_BETA1,
    ADAM_BETA2, ADAM_EPS, MAX_GRAD_NORM, PARAM_CLIP, WEIGHT_DECAY,
};
use snake_dqn::ieee::{argmax, has_non_finite, huber_grad, one_hot};
use snake_dqn::linear::Slot;
use snake_dqn::network::{ActId, LayerId, Net};
use snake_dqn::rng::LcgRng;

// The arithmetic that a driver of the library does, on single-precision
// values.

fn floats(bits: &[u32]) -> Vec<f32> {
    bits.iter().map(|b| f32::from_bits(*b)).collect()
}

fn bits(values: &[f32]) -> Vec<u32> {
    values.iter().map(|v| v.to_bits()).collect()
}

fn dims(net: &Net, id: LayerId) -> (usize, usize) {
    match id {
        LayerId::L1 => (net.din(), net.h1()),
        LayerId::L2 => (net.h1(), net.h2()),
        LayerId::L3 => (net.h2(), net.dout()),
    }
}

fn all_layers() -> Vec<LayerId> {
    vec![LayerId::L1, LayerId::L2, LayerId::L3]
}

fn unit(rng: &mut LcgRng) -> f32 {
    (rng.next_unit24() as f32) / ((1u32 << 24) as f32)
}

fn xavier(din: usize, h1: usize, h2: usize, dout: usize, seed: u64) -> Net {
    assert!(Net::shape_ok(din, h1, h2, dout));
    let mut rng = LcgRng::new(seed);
    let mut net = Net::new(din, h1, h2, dout);
    for id in all_layers() {
        let (i, o) = dims(&net, id);
        let k: f32 = (6.0f32 / (i as f32 + o as f32)).sqrt();
        let mut w: Vec<f32> = vec![0.0; i * o];
        for v in &mut w {
            *v = -k + 2.0 * k * unit(&mut rng);
        }
        assert!(net.put(id, Slot::W, bits(&w)));
    }
    net
}

fn linear_forward(net: &mut Net, id: LayerId, x: &[f32]) -> Vec<f32> {
    let (i_dim, o_dim) = dims(net, id);
    assert!(net.put(id, Slot::Input, bits(x)));
    let w: Vec<f32> = floats(net.slot(id, Slot::W));
    let b: Vec<f32> = floats(net.slot(id, Slot::B));
    let mut y: Vec<f32> = vec![0.0; o_dim];
    for j in 0..o_dim {
        let mut acc: f32 = b[j];
        for i in 0..i_dim {
            acc += x[i] * w[i * o_dim + j];
        }
        y[j] = acc;
    }
    y
}

fn linear_backward(net: &mut Net, id: LayerId, dy: &[f32]) -> Vec<f32> {
    let (i_dim, o_dim) = dims(net, id);
    let x: Vec<f32> = floats(net.slot(id, Slot::Input));
    let w: Vec<f32> = floats(net.slot(id, Slot::W));
    let mut gw: Vec<f32> = floats(net.slot(id, Slot::Gw));
    let mut gb: Vec<f32> = floats(net.slot(id, Slot::Gb));
    for i in 0..i_dim {
        for j in 0..o_dim {
            gw[i * o_dim + j] += x[i] * dy[j];
        }
    }
    for j in 0..o_dim {
        gb[j] += dy[j];
    }
    let mut dx: Vec<f32> = vec![0.0; i_dim];
    for i in 0..i_dim {
        let mut acc: f32 = 0.0;
        for j in 0..o_dim {
            acc += dy[j] * w[i * o_dim + j];
        }
        dx[i] = acc;
    }
    assert!(net.put(id, Slot::Gw, bits(&gw)));
    assert!(net.put(id, Slot::Gb, bits(&gb)));
    dx
}

fn forward(net: &mut Net, x: &[f32]) -> Vec<f32> {
    let mut z1: Vec<u32> = bits(&linear_forward(net, LayerId::L1, x));
    net.relu_forward(ActId::A1, &mut z1);
    let mut z2: Vec<u32> = bits(&linear_forward(net, LayerId::L2, &floats(&z1)));
    net.relu_forward(ActId::A2, &mut z2);
    linear_forward(net, LayerId::L3, &floats(&z2))
}

fn backward(net: &mut Net, d_q: &[f32]) {
    let mut da2: Vec<u32> = bits(&linear_backward(net, LayerId::L3, d_q));
    net.relu_backward(ActId::A2, &mut da2);
    let mut da1: Vec<u32> = bits(&linear_backward(net, LayerId::L2, &floats(&da2)));
    net.relu_backward(ActId::A1, &mut da1);
    linear_backward(net, LayerId::L1, &floats(&da1));
}

fn grad_norm(net: &Net) -> f32 {
    let mut s: f32 = 0.0;
    for id in all_layers() {
        for slot in [Slot::Gw, Slot::Gb] {
            for g in floats(net.slot(id, slot)) {
                s += g * g;
            }
        }
    }
    s.sqrt()
}

fn adam(net: &mut Net, lr: f32, scale: f32) {
    let b1: f32 = f32::from_bits(ADAM_BETA1);
    let b2: f32 = f32::from_bits(ADAM_BETA2);
    let eps: f32 = f32::from_bits(ADAM_EPS);
    let decay: f32 = f32::from_bits(WEIGHT_DECAY);
    let t: f32 = net.begin_adam_step() as f32;
    let corr1: f32 = (1.0 - b1.powf(t)).max(1e-8);
    let corr2: f32 = (1.0 - b2.powf(t)).max(1e-8);
    for id in all_layers() {
        for (p, g, m, v, decayed) in [
            (Slot::W, Slot::Gw, Slot::Mw, Slot::Vw, true),
            (Slot::B, Slot::Gb, Slot::Mb, Slot::Vb, false),
        ] {
            let mut ps: Vec<f32> = floats(net.slot(id, p));
            let gs: Vec<f32> = floats(net.slot(id, g));
            let mut ms: Vec<f32> = floats(net.slot(id, m));
            let mut vs: Vec<f32> = floats(net.slot(id, v));
            for i in 0..ps.len() {
                let gi: f32 = gs[i] * scale;
                ms[i] = b1 * ms[i] + (1.0 - b1) * gi;
                vs[i] = b2 * vs[i] + (1.0 - b2) * (gi * gi);
                ps[i] -= lr * (ms[i] / corr1) / ((vs[i] / corr2).sqrt() + eps);
                if decayed && decay > 0.0 {
                    ps[i] -= lr * decay * ps[i];
                }
            }
            assert!(net.put(id, p, bits(&ps)));
            assert!(net.put(id, m, bits(&ms)));
            assert!(net.put(id, v, bits(&vs)));
        }
    }
}

fn blend(target: &mut Net, online: &Net, tau: f32) {
    for id in all_layers() {
        for slot in [Slot::W, Slot::B] {
            let mut dst: Vec<f32> = floats(target.slot(id, slot));
            let src: Vec<f32> = floats(online.slot(id, slot));
            for i in 0..dst.len() {
                dst[i] = (1.0 - tau) * dst[i] + tau * src[i];
            }
            assert!(target.put(id, slot, bits(&dst)));
        }
    }
}

/// One update of the agent from one minibatch; the mean Huber loss of the
/// batch where the update was applied.
fn learn_once(agent: &mut DQNAgent) -> Option<f32> {
    let cfg: AgentConfig = *agent.config();
    let batch: f32 = cfg.batch_size as f32;
    let idxs: Vec<usize> = agent.begin_update();
    let mut loss: f32 = 0.0;
    let mut kept: usize = 0;
    for k in idxs {
        let tr = agent.transition(k).clone();
        let s: Vec<f32> = floats(&tr.state);
        let s2: Vec<f32> = floats(&tr.next_state);
        let a_star: usize = argmax(&bits(&forward(&mut agent.online, &s2)));
        let bootstrapped: f32 = if tr.done {
            0.0
        } else {
            f32::from_bits(clip_reward(tr.reward))
                + f32::from_bits(cfg.gamma) * forward(&mut agent.target, &s2)[a_star]
        };
        let y: f32 = f32::from_bits(td_target(tr.reward, tr.done, bootstrapped.to_bits()));
        let q_s: Vec<f32> = forward(&mut agent.online, &s);
        if has_non_finite(&bits(&q_s)) {
            continue;
        }
        let a: usize = tr.action as usize;
        let e: f32 = q_s[a] - y;
        kept += 1;
        let g: f32 = f32::from_bits(huber_grad(e.to_bits())) / batch;
        backward(&mut agent.online, &floats(&one_hot(cfg.act_dim, a, g.to_bits())));
        loss += (if e.abs() <= 1.0 { 0.5 * e * e } else { e.abs() - 0.5 }) / batch;
    }
    let norm: f32 = grad_norm(&agent.online);
    if agent.judge_update(kept, norm.to_bits()) != UpdateVerdict::Apply {
        return None;
    }
    let max_norm: f32 = f32::from_bits(MAX_GRAD_NORM);
    let scale: f32 =
        f32::from_bits(clip_scale(norm.to_bits(), MAX_GRAD_NORM, (max_norm / norm).to_bits()));
    adam(&mut agent.online, f32::from_bits(cfg.lr), scale);
    agent.online.clamp_params(PARAM_CLIP);
    if agent.target.soft_update_from(&agent.online, cfg.tau) {
        blend(&mut agent.target, &agent.online, f32::from_bits(cfg.tau));
    }
    agent.last_loss = loss.to_bits();
    Some(loss)
}

fn toy_config(tau: f32) -> AgentConfig {
    AgentConfig {
        obs_dim: 2,
        act_dim: 2,
        hidden: 8,
        buffer_capacity: 64,
        batch_size: 1,
        gamma: 0.99f32.to_bits(),
        lr: 1e-2f32.to_bits(),
        eps_start: 1.0f32.to_bits(),
        eps_end: 0.05f32.to_bits(),
        eps_decay_steps: 100,
        tau: tau.to_bits(),
        learn_start: 0,
        updates_per_step: 1,
        seed: 7,
    }
}

fn toy_agent(tau: f32) -> DQNAgent {
    let cfg: AgentConfig = toy_config(tau);
    let online: Net = xavier(cfg.obs_dim, cfg.hidden, cfg.hidden, cfg.act_dim, cfg.seed);
    DQNAgent::new(cfg, online, None, None).0
}

#[test]
fn backward_agrees_with_finite_differences() {
    let mut net: Net = xavier(3, 4, 4, 2, 11);
    let x: Vec<f32> = vec![0.3, -0.7, 0.5];
    let action: usize = 1;
    forward(&mut net, &x);
    net.zero_grad();
    backward(&mut net, &[0.0, 1.0]);
    let h: f32 = 1e-2;
    let mut checked: usize = 0;
    for id in all_layers() {
        for (p, g) in [(Slot::W, Slot::Gw), (Slot::B, Slot::Gb)] {
            let params: Vec<f32> = floats(net.slot(id, p));
            let grads: Vec<f32> = floats(net.slot(id, g));
            for i in 0..params.len() {
                let mut up: Vec<f32> = params.clone();
                up[i] += h;
                let mut probe: Net = xavier(3, 4, 4, 2, 11);
                assert!(probe.put(id, p, bits(&up)));
                let q_up: f32 = forward(&mut probe, &x)[action];
                let mut down: Vec<f32> = params.clone();
                down[i] -= h;
                assert!(probe.put(id, p, bits(&down)));
                let q_down: f32 = forward(&mut probe, &x)[action];
                let numeric: f32 = (q_up - q_down) / (2.0 * h);
                // A step across the kink of a rectifier makes the slope of
                // the secant differ from the derivative; the net is small
                // enough that this stays within the tolerance.
                assert!(
                    (numeric - grads[i]).abs() < 2e-2,
                    "parameter {} of {:?}: {} against {}",
                    i,
                    p,
                    numeric,
                    grads[i]
                );
                checked += 1;
            }
        }
    }
    assert_eq!(checked, 3 * 4 + 4 + 4 * 4 + 4 + 4 * 2 + 2);
}

#[test]
fn gradients_add_up_between_resets() {
    let mut net: Net = xavier(3, 4, 4, 2, 11);
    let x: Vec<f32> = vec![0.3, -0.7, 0.5];
    forward(&mut net, &x);
    backward(&mut net, &[0.0, 1.0]);
    let once: Vec<f32> = floats(net.slot(LayerId::L3, Slot::Gw));
    forward(&mut net, &x);
    backward(&mut net, &[0.0, 1.0]);
    let twice: Vec<f32> = floats(net.slot(LayerId::L3, Slot::Gw));
    for i in 0..once.len() {
        assert!((twice[i] - 2.0 * once[i]).abs() < 1e-6);
    }
    net.zero_grad();
    assert_eq!(grad_norm(&net), 0.0);
}

#[test]
fn training_on_a_toy_environment_learns_the_rewarded_action() {
    let mut agent: DQNAgent = toy_agent(0.005);
    let mut env: LcgRng = LcgRng::new(99);
    let mut losses: Vec<f32> = Vec::new();
    for _ in 0..400 {
        let s: Vec<f32> = vec![unit(&mut env), unit(&mut env)];
        let a: u8 = env.gen_range_u32(2) as u8;
        let r: f32 = if a == 0 { 1.0 } else { -1.0 };
        agent.remember(&bits(&s), a, r.to_bits(), &bits(&s), true);
        assert_eq!(agent.maybe_learn(), 1);
        match learn_once(&mut agent) {
            Some(loss) => losses.push(loss),
            None => panic!("an update on sound values was skipped"),
        }
    }
    assert_eq!(agent.online.t_adam(), 400);
    let early: f32 = losses[..50].iter().sum::<f32>() / 50.0;
    let late: f32 = losses[350..].iter().sum::<f32>() / 50.0;
    assert!(late < early * 0.5, "loss went from {} to {}", early, late);
    for probe in [[0.1f32, 0.9], [0.5, 0.5], [0.9, 0.1], [0.0, 0.0], [1.0, 1.0]] {
        let q: Vec<f32> = forward(&mut agent.online, &probe);
        assert_eq!(argmax(&bits(&q)), 0, "values {:?} at {:?}", q, probe);
        assert!(q[0] > 0.0 && q[1] < 0.0);
    }
    assert!(!agent.online.non_finite_any());
    assert!(!agent.target.non_finite_any());
    assert_eq!(agent.last_loss, losses[399].to_bits());
}

#[test]
fn target_network_follows_the_online_network_slowly() {
    let mut agent: DQNAgent = toy_agent(0.005);
    let start: Vec<f32> = floats(agent.target.slot(LayerId::L1, Slot::W));
    agent.remember(&bits(&[0.2, 0.4]), 0, 1.0f32.to_bits(), &bits(&[0.2, 0.4]), true);
    assert!(learn_once(&mut agent).is_some());
    let online: Vec<f32> = floats(agent.online.slot(LayerId::L1, Slot::W));
    let target: Vec<f32> = floats(agent.target.slot(LayerId::L1, Slot::W));
    let mut moved: bool = false;
    for i in 0..start.len() {
        let want: f32 = (1.0 - 0.005) * start[i] + 0.005 * online[i];
        assert_eq!(target[i].to_bits(), want.to_bits());
        if target[i] != start[i] {
            moved = true;
        }
    }
    assert!(moved);
}

#[test]
fn target_network_at_rate_one_equals_the_online_network() {
    let mut agent: DQNAgent = toy_agent(1.0);
    agent.remember(&bits(&[0.2, 0.4]), 0, 1.0f32.to_bits(), &bits(&[0.2, 0.4]), true);
    assert!(learn_once(&mut agent).is_some());
    for id in all_layers() {
        assert_eq!(agent.target.slot(id, Slot::W), agent.online.slot(id, Slot::W));
        assert_eq!(agent.target.slot(id, Slot::B), agent.online.slot(id, Slot::B));
    }
}

#[test]
fn target_network_at_rate_zero_stays() {
    let mut agent: DQNAgent = toy_agent(0.0);
    let start: Vec<u32> = agent.target.slot(LayerId::L2, Slot::W).clone();
    agent.remember(&bits(&[0.2, 0.4]), 0, 1.0f32.to_bits(), &bits(&[0.2, 0.4]), true);
    assert!(learn_once(&mut agent).is_some());
    assert_eq!(agent.target.slot(LayerId::L2, Slot::W), &start);
    assert_ne!(agent.online.slot(LayerId::L2, Slot::W), &start);
}

#[test]
fn an_update_keeps_every_parameter_within_the_clip() {
    let mut agent: DQNAgent = toy_agent(0.005);
    let n: usize = agent.online.slot(LayerId::L1, Slot::W).len();
    assert!(agent.online.put(LayerId::L1, Slot::W, bits(&vec![50.0; n])));
    agent.remember(&bits(&[0.2, 0.4]), 1, (-1.0f32).to_bits(), &bits(&[0.2, 0.4]), true);
    assert!(learn_once(&mut agent).is_some());
    for id in all_layers() {
        for slot in [Slot::W, Slot::B] {
            for v in floats(agent.online.slot(id, slot)) {
                assert!(v.abs() <= 10.0);
            }
        }
    }
}

#[test]
fn an_update_on_non_finite_values_leaves_the_parameters() {
    let mut agent: DQNAgent = toy_agent(0.005);
    let n: usize = agent.online.slot(LayerId::L3, Slot::B).len();
    assert!(agent.online.put(LayerId::L3, Slot::B, vec![f32::NAN.to_bits(); n]));
    let before: Vec<u32> = agent.online.slot(LayerId::L1, Slot::W).clone();
    agent.remember(&bits(&[0.2, 0.4]), 1, (-1.0f32).to_bits(), &bits(&[0.2, 0.4]), true);
    assert_eq!(learn_once(&mut agent), None);
    assert_eq!(agent.online.slot(LayerId::L1, Slot::W), &before);
    assert_eq!(agent.online.t_adam(), 0);
}
