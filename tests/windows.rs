use temp_monitor::{capacity_for, Aggregator, Window};

fn lcg(state: &mut u64) -> i32 {
    *state = state.wrapping_mul(6364136223846793005).wrapping_add(1442695040888963407);
    ((*state >> 33) as i64 % 200_001 - 100_000) as i32
}

#[test]
fn constant_fill_averages_to_the_constant() {
    let mut w = Window::new(7);
    for _ in 0..7 {
        w.push(42_500);
    }
    assert_eq!(w.len(), 7);
    let m = w.mean().unwrap();
    assert_eq!(m.total(), 7 * 42_500);
    assert_eq!(m.count(), 7);
    assert_eq!(m.rounded(), 42_500);
}

#[test]
fn one_past_capacity_evicts_the_oldest() {
    let mut w = Window::new(3);
    for x in [10, 20, 30, 40] {
        w.push(x);
    }
    assert_eq!(w.samples(), vec![20, 30, 40]);
    assert_eq!(w.sum(), 90);
    assert_eq!(w.mean().unwrap().rounded(), 30);
}

#[test]
fn running_sum_matches_recomputed_sum_over_many_ticks() {
    let mut w = Window::new(15);
    let mut history: Vec<i32> = Vec::new();
    let mut state: u64 = 12345;
    for _ in 0..10_000 {
        let x = lcg(&mut state);
        history.push(x);
        w.push(x);
        let held = w.samples();
        let start = history.len().saturating_sub(15);
        assert_eq!(held, history[start..].to_vec());
        let recomputed: i128 = held.iter().map(|&v| v as i128).sum();
        assert_eq!(w.sum(), recomputed);
    }
}

#[test]
fn fresh_snapshot_has_no_averages() {
    let a = Aggregator::new(1);
    let s = a.snapshot();
    assert_eq!(s.current, 0);
    assert!(s.short.is_none());
    assert!(s.medium.is_none());
    assert!(s.long.is_none());
}

#[test]
fn single_tick_fills_every_window_with_one_sample() {
    let mut a = Aggregator::new(1);
    a.push(-3_250);
    for w in [a.short(), a.medium(), a.long()] {
        assert_eq!(w.len(), 1);
        let m = w.mean().unwrap();
        assert_eq!(m.count(), 1);
        assert_eq!(m.total(), -3_250);
        assert_eq!(m.rounded(), -3_250);
    }
    let s = a.snapshot();
    assert_eq!(s.current, -3_250);
}

#[test]
fn capacity_clamps_to_one() {
    assert_eq!(capacity_for(15, 20), 1);
    assert_eq!(capacity_for(0, 1), 1);
    assert_eq!(capacity_for(15, 15), 1);
    assert_eq!(capacity_for(60, 7), 8);
    let mut a = Aggregator::new(100);
    assert_eq!(a.short().capacity(), 1);
    assert_eq!(a.medium().capacity(), 1);
    assert_eq!(a.long().capacity(), 3);
    a.push(1_000);
    a.push(2_000);
    assert_eq!(a.short().samples(), vec![2_000]);
    assert_eq!(a.long().samples(), vec![1_000, 2_000]);
}

#[test]
fn window_of_capacity_zero_keeps_the_latest_sample() {
    let mut w = Window::new(0);
    assert_eq!(w.capacity(), 1);
    w.push(5);
    w.push(6);
    assert_eq!(w.samples(), vec![6]);
}

#[test]
fn end_to_end_twenty_ticks() {
    let mut a = Aggregator::new(1);
    assert_eq!(a.short().capacity(), 15);
    assert_eq!(a.medium().capacity(), 60);
    assert_eq!(a.long().capacity(), 300);
    for i in 0..20 {
        a.push(20_000 + 1_000 * i);
    }
    let s = a.snapshot();
    assert_eq!(s.current, 39_000);
    let short = s.short.unwrap();
    assert_eq!(short.count(), 15);
    assert_eq!(short.rounded(), 32_000);
    let medium = s.medium.unwrap();
    assert_eq!(medium.count(), 20);
    assert_eq!(medium.total(), 590_000);
    assert_eq!(medium.rounded(), 29_500);
    let long = s.long.unwrap();
    assert_eq!(long.count(), 20);
    assert_eq!(long.rounded(), 29_500);
    let expected: Vec<i32> = (5..20).map(|i| 20_000 + 1_000 * i).collect();
    assert_eq!(a.short().samples(), expected);
}

#[test]
fn rounding_goes_to_nearest_with_halves_up() {
    let mut w = Window::new(2);
    w.push(1);
    w.push(2);
    assert_eq!(w.mean().unwrap().rounded(), 2);
    w.push(-2);
    assert_eq!(w.mean().unwrap().total(), 0);
    assert_eq!(w.mean().unwrap().rounded(), 0);
    w.push(-1);
    assert_eq!(w.mean().unwrap().rounded(), -1);
    let mut v = Window::new(3);
    v.push(0);
    v.push(0);
    v.push(-2);
    assert_eq!(v.mean().unwrap().rounded(), -1);
    v.push(-1);
    assert_eq!(v.mean().unwrap().rounded(), -1);
}

#[test]
fn extreme_samples_do_not_overflow() {
    let mut w = Window::new(4);
    for _ in 0..6 {
        w.push(i32::MAX);
    }
    assert_eq!(w.mean().unwrap().rounded(), i32::MAX);
    for _ in 0..4 {
        w.push(i32::MIN);
    }
    assert_eq!(w.sum(), 4 * i32::MIN as i128);
    assert_eq!(w.mean().unwrap().rounded(), i32::MIN);
}
