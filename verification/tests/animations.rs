use nanaimo::animations::{
    Animation, AnimationManager, AnimationName, WindowAnimationState, FADE_DURATION_MS, UNIT,
};

#[test]
fn animation_new_keeps_its_arguments() {
    let a = Animation::new(3, 9, 40, 1000);
    assert_eq!(a, Animation { start_time: 1000, duration: 40, start_val: 3, end_val: 9 });
}

#[test]
fn animation_value_at_start_is_start() {
    let a = Animation::new(100, 900, 250, 5000);
    assert_eq!(a.value(5000), 100);
}

#[test]
fn animation_value_at_end_is_end() {
    let a = Animation::new(100, 900, 250, 5000);
    assert_eq!(a.value(5250), 900);
    assert_eq!(a.value(5251), 900);
    assert_eq!(a.value(u64::MAX), 900);
}

#[test]
fn animation_value_before_start_is_start() {
    let a = Animation::new(100, 900, 250, 5000);
    assert_eq!(a.value(0), 100);
    assert_eq!(a.value(4999), 100);
}

#[test]
fn animation_value_interpolates_linearly() {
    let a = Animation::new(0, 1000, 250, 0);
    assert_eq!(a.value(25), 100);
    assert_eq!(a.value(125), 500);
    assert_eq!(a.value(249), 996);
    let b = Animation::new(-50, 50, 10, 7);
    assert_eq!(b.value(12), 0);
}

#[test]
fn animation_value_drops_fraction_towards_start() {
    let up = Animation::new(0, 10, 3, 0);
    assert_eq!(up.value(1), 3);
    assert_eq!(up.value(2), 6);
    let down = Animation::new(10, 0, 3, 0);
    assert_eq!(down.value(1), 7);
    assert_eq!(down.value(2), 4);
}

#[test]
fn animation_value_is_monotonic_over_time() {
    let up = Animation::new(-7, 1234, 97, 10);
    let down = Animation::new(1234, -7, 97, 10);
    let mut last_up = up.value(0);
    let mut last_down = down.value(0);
    for t in 0..130u64 {
        let u = up.value(t);
        let d = down.value(t);
        assert!(u >= last_up);
        assert!(d <= last_down);
        assert!((-7..=1234).contains(&u));
        assert!((-7..=1234).contains(&d));
        last_up = u;
        last_down = d;
    }
    assert_eq!(last_up, 1234);
    assert_eq!(last_down, -7);
}

#[test]
fn animation_with_extreme_values_does_not_overflow() {
    let a = Animation::new(i32::MIN, i32::MAX, u64::MAX, 0);
    assert_eq!(a.value(0), i32::MIN);
    assert_eq!(a.value(u64::MAX), i32::MAX);
    let mid = a.value(u64::MAX / 2);
    assert!((-2..=0).contains(&mid));
    let b = Animation::new(i32::MAX, i32::MIN, u64::MAX, 0);
    assert_eq!(b.value(u64::MAX - 1), i32::MIN + 1);
}

#[test]
fn animation_of_zero_duration_resolves_to_end() {
    let a = Animation::new(0, UNIT, 0, 77);
    assert_eq!(a.value(77), UNIT);
    assert_eq!(a.value(0), UNIT);
    assert!(a.is_done(77));
    assert!(!a.is_done(76));
}

#[test]
fn animation_is_done_exactly_from_the_end() {
    let a = Animation::new(0, UNIT, 250, 1000);
    assert!(!a.is_done(0));
    assert!(!a.is_done(1000));
    assert!(!a.is_done(1249));
    assert!(a.is_done(1250));
    assert!(a.is_done(1251));
    assert!(a.is_done(u64::MAX));
}

#[test]
fn animation_is_done_does_not_overflow_near_the_end_of_time() {
    let a = Animation::new(0, UNIT, 10, u64::MAX - 5);
    assert!(!a.is_done(u64::MAX));
    assert_eq!(a.value(u64::MAX), UNIT / 2);
}

#[test]
fn window_state_defaults_to_opaque() {
    let s = WindowAnimationState::default();
    assert_eq!(s.alpha, UNIT);
    assert_eq!(s.scale, UNIT);
    assert_eq!(s.animation(AnimationName::Fade), None);
    assert_eq!(s.animation(AnimationName::Scale), None);
}

#[test]
fn window_state_insert_replaces_by_name() {
    let mut s = WindowAnimationState::default();
    let first = Animation::new(0, UNIT, 250, 0);
    let second = Animation::new(UNIT, 0, 250, 5);
    s.insert(AnimationName::Fade, first);
    assert_eq!(s.animation(AnimationName::Fade), Some(first));
    s.insert(AnimationName::Fade, second);
    assert_eq!(s.animation(AnimationName::Fade), Some(second));
    assert_eq!(s.animation(AnimationName::Scale), None);
    s.insert(AnimationName::Scale, first);
    assert_eq!(s.animation(AnimationName::Scale), Some(first));
    assert_eq!(s.animation(AnimationName::Fade), Some(second));
}

#[test]
fn window_state_tick_sets_alpha_and_prunes() {
    let mut s = WindowAnimationState::default();
    s.insert(AnimationName::Fade, Animation::new(0, UNIT, 100, 0));
    s.insert(AnimationName::Scale, Animation::new(0, UNIT, 10, 0));
    s.tick(50);
    assert_eq!(s.alpha, UNIT / 2);
    assert_eq!(s.scale, UNIT);
    assert!(s.animation(AnimationName::Fade).is_some());
    assert!(s.animation(AnimationName::Scale).is_none());
    s.tick(100);
    assert_eq!(s.alpha, UNIT);
    assert!(s.animation(AnimationName::Fade).is_none());
    s.tick(200);
    assert_eq!(s.alpha, UNIT);
}

#[test]
fn manager_alpha_defaults_to_opaque() {
    let m = AnimationManager::new();
    assert_eq!(m.get_alpha(1), UNIT);
    assert_eq!(m.get_alpha(u64::MAX), UNIT);
}

#[test]
fn fade_in_reaches_half_at_half_time_and_full_at_the_end() {
    let t0: u64 = 10_000;
    let mut m = AnimationManager::new();
    m.start_fade_in(42, t0);
    m.tick(t0);
    assert_eq!(m.get_alpha(42), 0);
    m.tick(t0 + 125);
    let half = m.get_alpha(42) as f64 / UNIT as f64;
    assert!((half - 0.5).abs() < 0.01);
    assert_eq!(m.get_alpha(42), UNIT / 2);
    m.tick(t0 + FADE_DURATION_MS);
    assert_eq!(m.get_alpha(42), UNIT);
    assert_eq!(m.get_alpha(42) as f32 / UNIT as f32, 1.0);
    m.tick(t0 + 10_000);
    assert_eq!(m.get_alpha(42), UNIT);
}

#[test]
fn alpha_only_changes_on_tick() {
    let mut m = AnimationManager::new();
    m.start_fade_in(1, 0);
    assert_eq!(m.get_alpha(1), UNIT);
    m.tick(100);
    assert_eq!(m.get_alpha(1), (UNIT as i64 * 100 / 250) as i32);
}

#[test]
fn fade_out_mirrors_fade_in() {
    let mut m = AnimationManager::new();
    m.start_fade_in(1, 500);
    m.start_fade_out(2, 500);
    for t in [500u64, 501, 563, 625, 700, 749, 750, 900] {
        m.start_fade_in(1, 500);
        m.start_fade_out(2, 500);
        m.tick(t);
        assert_eq!(m.get_alpha(1) + m.get_alpha(2), UNIT);
    }
    assert_eq!(m.get_alpha(2), 0);
}

#[test]
fn starting_a_fade_replaces_the_running_one() {
    let mut m = AnimationManager::new();
    m.start_fade_in(7, 0);
    m.tick(100);
    m.start_fade_out(7, 100);
    m.tick(100);
    assert_eq!(m.get_alpha(7), UNIT);
    m.tick(350);
    assert_eq!(m.get_alpha(7), 0);
}

#[test]
fn tick_prunes_finished_animations_but_keeps_the_state() {
    let mut m = AnimationManager::new();
    m.start_fade_out(3, 0);
    m.start_fade_in(4, 200);
    m.tick(300);
    assert_eq!(m.states.len(), 2);
    let gone = m.states.get(3).unwrap();
    assert_eq!(gone.fade, None);
    assert_eq!(gone.alpha, 0);
    let running = m.states.get(4).unwrap();
    assert!(running.fade.is_some());
    m.tick(1_000_000);
    assert_eq!(m.get_alpha(3), 0);
    assert_eq!(m.get_alpha(4), UNIT);
    assert_eq!(m.states.get(4).unwrap().fade, None);
}

#[test]
fn forget_drops_the_state() {
    let mut m = AnimationManager::new();
    m.start_fade_out(3, 0);
    m.tick(250);
    assert_eq!(m.get_alpha(3), 0);
    m.forget(3);
    assert_eq!(m.get_alpha(3), UNIT);
    assert_eq!(m.states.len(), 0);
    m.forget(3);
    assert_eq!(m.states.len(), 0);
}
