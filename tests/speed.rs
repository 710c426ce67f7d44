use meteoroids::{Speed, Timer, THRUST_DECAY, THRUST_SPEED};

fn key(r: f32) -> u32 {
    r.to_bits()
}

#[test]
fn create_new_thrust() {
    let mut speed = Speed::new();
    speed.add(THRUST_SPEED, key(0.15));

    assert_eq!(speed.get(0).unwrap().rotation, key(0.15));
}

#[test]
fn add_to_existing_thrust() {
    let mut speed = Speed::new();
    speed.add(THRUST_SPEED, key(0.15));
    speed.add(THRUST_SPEED, key(0.15));

    assert_eq!(speed.get(0).unwrap().speed, 2 * THRUST_SPEED);
}

#[test]
fn add_second_thrust() {
    let mut speed = Speed::new();
    speed.add(THRUST_SPEED, key(0.15));
    speed.add(THRUST_SPEED, key(0.25));

    assert_eq!(speed.get(0).unwrap().rotation, key(0.15));
    assert_eq!(speed.get(0).unwrap().speed, THRUST_SPEED);
    assert_eq!(speed.get(1).unwrap().rotation, key(0.25));
}

#[test]
fn repeated_bursts_with_decays_accumulate() {
    let mut speed = Speed::new();
    speed.give_thrust(key(1.0));
    speed.decay_thrust();
    speed.give_thrust(key(1.0));
    speed.decay_thrust();
    speed.decay_thrust();
    speed.give_thrust(key(1.0));
    assert_eq!(speed.len(), 1);
    assert_eq!(speed.get(0).unwrap().speed, 3 * THRUST_SPEED - 3 * THRUST_DECAY);
}

#[test]
fn decay_below_zero_removes_bucket() {
    let mut speed = Speed::new();
    speed.add(3, key(0.5));
    speed.add(7, key(1.5));
    speed.subtract(5);
    assert_eq!(speed.len(), 1);
    assert_eq!(speed.get(0).unwrap().rotation, key(1.5));
    assert_eq!(speed.get(0).unwrap().speed, 2);
    assert!(!speed.has_thrust(key(0.5)));
}

#[test]
fn decay_to_exactly_zero_keeps_bucket() {
    let mut speed = Speed::new();
    speed.add(4, key(0.5));
    speed.subtract(4);
    assert_eq!(speed.len(), 1);
    assert_eq!(speed.get(0).unwrap().speed, 0);
    speed.subtract(1);
    assert_eq!(speed.len(), 0);
}

#[test]
fn has_thrust_finds_only_used_headings() {
    let mut speed = Speed::new();
    assert!(!speed.has_thrust(key(0.15)));
    speed.give_thrust(key(0.15));
    assert!(speed.has_thrust(key(0.15)));
    assert!(!speed.has_thrust(key(0.25)));
    assert!(speed.get(1).is_none());
}

#[test]
fn room_for_thrust_at_the_word_limit() {
    let mut speed = Speed::new();
    assert!(speed.room_for_thrust(key(0.0)));
    speed.add(u64::MAX - THRUST_SPEED, key(0.0));
    assert!(speed.room_for_thrust(key(0.0)));
    speed.add(1, key(0.0));
    assert!(!speed.room_for_thrust(key(0.0)));
    assert!(speed.room_for_thrust(key(2.0)));
}

#[test]
fn timer_finishes_and_resets() {
    let mut t = Timer::new(150);
    assert!(!t.finished());
    t.tick(100);
    assert!(!t.finished());
    assert_eq!(t.elapsed, 100);
    t.tick(100);
    assert!(t.finished());
    assert_eq!(t.elapsed, 150);
    t.reset();
    assert!(!t.finished());
    assert_eq!(t.elapsed, 0);
    t.tick(150);
    assert!(t.finished());
}
