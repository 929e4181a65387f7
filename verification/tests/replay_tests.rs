use snake_dqn::replay::{ReplayBuffer, Transition};
use snake_dqn::rng::LcgRng;

fn tr(k: u32) -> Transition {
    Transition {
        state: vec![k, k + 1],
        action: (k % 3) as u8,
        reward: k * 10,
        next_state: vec![k + 1, k + 2],
        done: k % 2 == 0,
    }
}

#[test]
fn new_buffer_is_empty() {
    let b = ReplayBuffer::new(4);
    assert_eq!(b.len(), 0);
    assert_eq!(b.capacity(), 4);
    assert!(b.is_ready(0));
    assert!(!b.is_ready(1));
}

#[test]
fn push_below_capacity_appends() {
    let mut b = ReplayBuffer::new(4);
    b.push(tr(1));
    b.push(tr(2));
    assert_eq!(b.len(), 2);
    assert_eq!(b.get(0).reward, 10);
    assert_eq!(b.get(1).reward, 20);
    assert_eq!(b.nth_oldest(0).reward, 10);
    assert_eq!(b.nth_oldest(1).reward, 20);
}

#[test]
fn push_keeps_every_field() {
    let mut b = ReplayBuffer::new(2);
    b.push(tr(5));
    let t: &Transition = b.get(0);
    assert_eq!(t.state, vec![5, 6]);
    assert_eq!(t.action, 2);
    assert_eq!(t.reward, 50);
    assert_eq!(t.next_state, vec![6, 7]);
    assert!(!t.done);
}

#[test]
fn length_never_exceeds_capacity() {
    let mut b = ReplayBuffer::new(3);
    let mut k: u32 = 0;
    while k < 20 {
        b.push(tr(k));
        assert!(b.len() <= 3);
        k += 1;
    }
    assert_eq!(b.len(), 3);
}

#[test]
fn full_buffer_overwrites_in_a_circle() {
    let mut b = ReplayBuffer::new(3);
    let mut k: u32 = 0;
    while k < 5 {
        b.push(tr(k));
        k += 1;
    }
    // Slots as they lie: 3, 4, 2.
    assert_eq!(b.get(0).reward, 30);
    assert_eq!(b.get(1).reward, 40);
    assert_eq!(b.get(2).reward, 20);
}

#[test]
fn after_capacity_plus_k_pushes_the_last_capacity_remain_in_order() {
    let cap: usize = 4;
    let mut extra: u32 = 1;
    while extra <= 9 {
        let mut b = ReplayBuffer::new(cap);
        let total: u32 = cap as u32 + extra;
        let mut k: u32 = 0;
        while k < total {
            b.push(tr(k));
            k += 1;
        }
        assert_eq!(b.len(), cap);
        let mut i: usize = 0;
        while i < cap {
            let want: u32 = total - cap as u32 + i as u32;
            assert_eq!(b.nth_oldest(i).reward, want * 10);
            assert_eq!(b.nth_oldest(i).state, vec![want, want + 1]);
            i += 1;
        }
        extra += 1;
    }
}

#[test]
fn capacity_one_keeps_the_newest() {
    let mut b = ReplayBuffer::new(1);
    b.push(tr(1));
    b.push(tr(2));
    b.push(tr(3));
    assert_eq!(b.len(), 1);
    assert_eq!(b.nth_oldest(0).reward, 30);
}

#[test]
fn sample_indices_are_the_generator_draws() {
    let mut b = ReplayBuffer::new(16);
    let mut k: u32 = 0;
    while k < 10 {
        b.push(tr(k));
        k += 1;
    }
    let mut rng = LcgRng::new(42);
    let idxs: Vec<usize> = b.sample_indices(&mut rng, 5);
    assert_eq!(idxs, vec![3, 8, 1, 6, 7]);
    assert_eq!(rng.state(), 1363481262641415071u64);
}

#[test]
fn sample_indices_may_repeat_and_stay_in_range() {
    let mut b = ReplayBuffer::new(4);
    b.push(tr(0));
    b.push(tr(1));
    let mut rng = LcgRng::new(7);
    let idxs: Vec<usize> = b.sample_indices(&mut rng, 64);
    assert_eq!(idxs.len(), 64);
    let mut seen_zero: usize = 0;
    for i in &idxs {
        assert!(*i < 2);
        if *i == 0 {
            seen_zero += 1;
        }
    }
    assert!(seen_zero > 1);
    assert!(seen_zero < 63);
}

#[test]
fn sample_of_nothing_draws_nothing() {
    let mut b = ReplayBuffer::new(4);
    b.push(tr(0));
    let mut rng = LcgRng::new(7);
    let idxs: Vec<usize> = b.sample_indices(&mut rng, 0);
    assert!(idxs.is_empty());
    assert_eq!(rng.state(), 7);
}
