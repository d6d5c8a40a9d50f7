use spring_anim::animated_state::frame_needed;
use spring_anim::spring::MAX_TICK_MS;
use spring_anim::{
    Animate, AnimatedState, Color, MotionError, Pair, Spring, SpringEvent, SpringMotion, Tolerance,
};

/// One unit of a scalar, in components.
const UNIT: i64 = 1_000_000;

fn run_until_settled(spring: &mut Spring<i64>, step_ms: u64, max_steps: usize) -> Option<usize> {
    for n in 0..max_steps {
        if spring.has_settled() {
            return Some(n);
        }
        spring.tick(step_ms);
    }
    if spring.has_settled() {
        Some(max_steps)
    } else {
        None
    }
}

#[test]
fn smooth_scalar_reaches_target() {
    let mut spring = Spring::new(0i64, SpringMotion::smooth());
    assert_eq!(spring.motion().response_ms(), 300);
    assert_eq!(spring.motion().damping_fraction(), 1000);
    spring.set_target(100 * UNIT);
    for _ in 0..(5000 / 16) {
        spring.tick(16);
    }
    let value = spring.value();
    assert!((value - 100 * UNIT).abs() <= UNIT / 100);
    assert!(spring.has_settled());
    // Velocities are in thousandths of a component per second: 0.01 unit/s.
    assert!(spring.velocity()[0].abs() <= 10 * UNIT);
}

#[test]
fn bouncy_scalar_overshoots() {
    let motion = SpringMotion::bouncy();
    assert_eq!(motion.damping_fraction(), 600);
    let mut spring = Spring::new(0i64, motion);
    spring.set_target(UNIT);
    let mut overshot = false;
    for _ in 0..5000 {
        spring.tick(1);
        if spring.value() > UNIT {
            overshot = true;
        }
    }
    assert!(overshot);
    assert!(spring.has_settled());
    assert_eq!(spring.value(), UNIT);
}

#[test]
fn smooth_scalar_moves_monotonically() {
    let mut spring = Spring::new(0i64, SpringMotion::smooth());
    spring.set_target(UNIT);
    let mut last = spring.value();
    for _ in 0..3000 {
        spring.tick(1);
        let now = spring.value();
        assert!(now >= last);
        assert!(now <= UNIT);
        last = now;
    }
    assert_eq!(last, UNIT);
}

#[test]
fn smooth_scalar_moves_monotonically_downwards() {
    let mut spring = Spring::new(50 * UNIT, SpringMotion::smooth());
    spring.set_target(-50 * UNIT);
    let mut last = spring.value();
    for _ in 0..300 {
        spring.tick(10);
        let now = spring.value();
        assert!(now <= last);
        assert!(now >= -50 * UNIT);
        last = now;
    }
    assert_eq!(last, -50 * UNIT);
}

#[test]
fn springs_settle_within_bounded_steps() {
    let motions = [
        SpringMotion::smooth(),
        SpringMotion::bouncy(),
        SpringMotion::custom(100, 0).unwrap(),
        SpringMotion::custom(1000, 300).unwrap(),
        SpringMotion::custom(200, 5000).unwrap(),
        SpringMotion::custom(50, 1000).unwrap(),
    ];
    for motion in motions {
        let mut spring = Spring::new(0i64, motion);
        spring.set_target(10 * UNIT);
        let budget = (motion.response_ms() as usize) * 200;
        let steps = run_until_settled(&mut spring, 1, budget);
        assert!(steps.is_some(), "response {} ms, damping {}", motion.response_ms(), motion.damping_fraction());
        assert!((spring.value() - 10 * UNIT).abs() <= 1000);
        assert!(spring.velocity()[0].abs() <= 1_000_000);
        // The next step snaps a settled spring onto its target.
        spring.tick(1);
        assert_eq!(spring.value(), 10 * UNIT);
        assert_eq!(spring.velocity(), vec![0]);
    }
}

#[test]
fn slow_springs_settle() {
    for motion in [
        SpringMotion::custom(60_000, 1000).unwrap(),
        SpringMotion::custom(60_000, 10_000).unwrap(),
        SpringMotion::custom(20_000, 100).unwrap(),
    ] {
        let mut spring = Spring::new(0i64, motion);
        spring.set_target(UNIT);
        let steps = run_until_settled(&mut spring, 1000, 6000);
        assert!(steps.is_some(), "response {} ms, damping {}", motion.response_ms(), motion.damping_fraction());
    }
}

#[test]
fn retarget_keeps_velocity() {
    let mut spring = Spring::new(0i64, SpringMotion::bouncy());
    spring.set_target(UNIT);
    spring.tick(40);
    let velocity = spring.velocity();
    let value = spring.value();
    assert!(velocity[0] > 0);
    assert!(spring.set_target(-3 * UNIT));
    assert_eq!(spring.velocity(), velocity);
    assert_eq!(spring.value(), value);
    assert_eq!(*spring.target(), -3 * UNIT);
}

#[test]
fn retarget_to_same_target_changes_nothing() {
    let mut spring = Spring::new(0i64, SpringMotion::smooth());
    spring.set_target(UNIT);
    spring.tick(25);
    let velocity = spring.velocity();
    let value = spring.value();
    assert!(!spring.set_target(UNIT));
    assert_eq!(spring.velocity(), velocity);
    assert_eq!(spring.value(), value);
    assert_eq!(*spring.target(), UNIT);
}

#[test]
fn zero_tick_changes_nothing() {
    let mut spring = Spring::new(0i64, SpringMotion::bouncy());
    spring.set_target(UNIT);
    spring.tick(30);
    let velocity = spring.velocity();
    let value = spring.value();
    spring.tick(0);
    assert_eq!(spring.velocity(), velocity);
    assert_eq!(spring.value(), value);
}

#[test]
fn new_spring_rests_at_initial_value() {
    let spring = Spring::new(7 * UNIT, SpringMotion::smooth());
    assert!(spring.has_settled());
    assert_eq!(spring.value(), 7 * UNIT);
    assert_eq!(spring.velocity(), vec![0]);
}

#[test]
fn one_millisecond_step_matches_formula() {
    // k = 438649, c = 41888; from rest one unit (10^6 components, 10^12
    // sub-units) away:
    // v' = (0 - 438649 * (0 - 10^12)) / (10^9 + 1000 * 41888 + 438649)
    let mut spring = Spring::new(0i64, SpringMotion::smooth());
    spring.set_target(UNIT);
    spring.tick(1);
    let expected = 438_649_000_000_000_000i64 / (1_000_000_000 + 41_888_000 + 438_649);
    assert_eq!(expected, 420_836_405);
    assert_eq!(spring.velocity(), vec![expected]);
    assert_eq!(spring.value(), expected / 1_000_000);
}

#[test]
fn motion_constants() {
    let smooth = SpringMotion::smooth();
    assert_eq!(smooth.stiffness(), 438_649);
    assert_eq!(smooth.damping(), 41_888);
    let bouncy = SpringMotion::bouncy();
    assert_eq!(bouncy.stiffness(), 157_913);
    assert_eq!(bouncy.damping(), 15_080);
    let custom = SpringMotion::custom(1000, 0).unwrap();
    assert_eq!(custom.stiffness(), 39_478);
    assert_eq!(custom.damping(), 0);
    assert_eq!(SpringMotion::default(), smooth);
    assert_ne!(smooth, bouncy);
}

#[test]
fn custom_motion_errors() {
    assert_eq!(SpringMotion::custom(0, 1000), Err(MotionError::InvalidResponse));
    assert_eq!(SpringMotion::custom(-5, 1000), Err(MotionError::InvalidResponse));
    assert_eq!(SpringMotion::custom(60_001, 1000), Err(MotionError::InvalidResponse));
    assert_eq!(SpringMotion::custom(300, -1), Err(MotionError::InvalidDamping));
    assert_eq!(SpringMotion::custom(300, 1_000_001), Err(MotionError::InvalidDamping));
    assert_eq!(SpringMotion::custom(0, -1), Err(MotionError::InvalidResponse));
    let m = SpringMotion::custom(60_000, 1_000_000).unwrap();
    assert_eq!(m.response_ms(), 60_000);
    assert_eq!(m.damping_fraction(), 1_000_000);
    let strong = SpringMotion::custom(1, 1_000_000).unwrap();
    assert_eq!(strong.damping(), 12_566_371_000);
}

#[test]
fn changing_motion_keeps_position_and_velocity() {
    let mut spring = Spring::new(0i64, SpringMotion::smooth());
    spring.set_target(UNIT);
    spring.tick(20);
    let velocity = spring.velocity();
    let value = spring.value();
    spring.set_motion(SpringMotion::bouncy());
    assert_eq!(spring.motion(), SpringMotion::bouncy());
    assert_eq!(spring.velocity(), velocity);
    assert_eq!(spring.value(), value);
}

#[test]
fn events_drive_the_spring() {
    let mut spring = Spring::new(0i64, SpringMotion::smooth());
    spring.update(SpringEvent::Target(2 * UNIT));
    assert_eq!(*spring.target(), 2 * UNIT);
    assert_eq!(spring.value(), 0);
    spring.update(SpringEvent::Tick(50));
    let moved = spring.value();
    assert!(moved > 0 && moved < 2 * UNIT);
    spring.update(SpringEvent::Settle(-UNIT));
    assert_eq!(spring.value(), -UNIT);
    assert_eq!(*spring.target(), -UNIT);
    assert_eq!(spring.velocity(), vec![0]);
    assert!(spring.has_settled());
}

#[test]
fn large_tick_stays_stable() {
    let mut spring = Spring::new(0i64, SpringMotion::custom(1, 0).unwrap());
    spring.set_target(UNIT);
    spring.tick(10_000_000);
    assert!(spring.has_settled());
    assert_eq!(spring.value(), UNIT);
}

#[test]
fn extreme_targets_stay_in_limits() {
    let limit = 1_000_000_000_000i64;
    let mut spring = Spring::new(-limit, SpringMotion::custom(1, 0).unwrap());
    spring.set_target(limit);
    spring.tick(50);
    let v = spring.value();
    assert!(v >= -limit && v <= limit);
}

#[test]
fn scalar_round_trip() {
    let v: i64 = -123_456;
    let parts = v.encode();
    assert_eq!(parts, vec![-123_456]);
    let mut w: i64 = 99;
    w.update(&parts, 0);
    assert_eq!(w, v);
    assert_eq!(w.distance_to(&v), vec![0]);
    assert_eq!(<i64 as Animate>::components(), 1);
}

#[test]
fn color_round_trip() {
    let c = Color { r: 1, g: -2, b: 300, a: 1_000_000 };
    let parts = c.encode();
    assert_eq!(parts, vec![1, -2, 300, 1_000_000]);
    let mut w = Color { r: 0, g: 0, b: 0, a: 0 };
    w.update(&parts, 0);
    assert_eq!(w, c);
    assert_eq!(w.distance_to(&c), vec![0, 0, 0, 0]);
    assert_eq!(Color::components(), 4);
}

#[test]
fn pair_round_trip_and_order() {
    let p = Pair { first: Color { r: 1, g: 2, b: 3, a: 4 }, second: 5i64 };
    let parts = p.encode();
    assert_eq!(parts, vec![1, 2, 3, 4, 5]);
    assert_eq!(<Pair<Color, i64> as Animate>::components(), 5);
    let mut w = Pair { first: Color { r: 0, g: 0, b: 0, a: 0 }, second: 0i64 };
    w.update(&parts, 0);
    assert_eq!(w, p);
    assert_eq!(w.distance_to(&p), vec![0, 0, 0, 0, 0]);
}

#[test]
fn update_reads_from_cursor() {
    let buffer = vec![9, 9, 10, 20, 30, 40, 9];
    let mut c = Color { r: 0, g: 0, b: 0, a: 0 };
    c.update(&buffer, 2);
    assert_eq!(c, Color { r: 10, g: 20, b: 30, a: 40 });
}

#[test]
fn distance_is_component_difference() {
    let a = Color { r: 10, g: 0, b: -5, a: 7 };
    let b = Color { r: 3, g: 4, b: -5, a: 10 };
    assert_eq!(a.distance_to(&b), vec![7, -4, 0, -3]);
    assert_eq!(5i64.distance_to(&-2), vec![7]);
}

#[test]
fn color_spring_reaches_target() {
    let black = Color { r: 0, g: 0, b: 0, a: UNIT };
    let white = Color { r: UNIT, g: UNIT, b: UNIT, a: UNIT };
    let mut spring = Spring::new(black, SpringMotion::smooth());
    spring.set_target(white);
    spring.tick(100);
    let mid = spring.value();
    assert!(mid.r > 0 && mid.r < UNIT);
    assert_eq!(mid.r, mid.g);
    assert_eq!(mid.a, UNIT);
    spring.tick(5000);
    assert_eq!(spring.value(), white);
}

#[derive(Clone, Copy, Debug, PartialEq)]
enum Status {
    A,
    B,
}

fn style_of(status: Status) -> i64 {
    match status {
        Status::A => 0,
        Status::B => 10 * UNIT,
    }
}

#[test]
fn animated_state_follows_status() {
    let mut state = AnimatedState::new(Status::A, style_of(Status::A), SpringMotion::smooth());
    assert_eq!(state.current_style(), 0);
    assert!(!state.needs_redraw(Status::A, style_of(Status::A)));

    assert!(state.needs_redraw(Status::B, style_of(Status::B)));
    assert_eq!(*state.status(), Status::B);
    assert_eq!(state.current_style(), 0);

    let mut now: u64 = 1_000;
    state.tick(now);
    assert_eq!(state.current_style(), 0);
    let mut last = state.current_style();
    let mut frames = 0;
    while state.needs_redraw(Status::B, style_of(Status::B)) {
        now += 16;
        state.tick(now);
        let style = state.current_style();
        assert!(style >= last);
        assert!(style - last <= 2 * UNIT);
        last = style;
        frames += 1;
        assert!(frames < 1000);
    }
    assert!(frames > 1);
    assert_eq!(state.current_style(), 10 * UNIT);
    assert!(!state.needs_redraw(Status::B, style_of(Status::B)));
}

#[test]
fn animated_state_diff_changes_motion_only() {
    let mut state = AnimatedState::new((), 0i64, SpringMotion::smooth());
    state.needs_redraw((), UNIT);
    state.tick(0);
    state.tick(30);
    let style = state.current_style();
    let velocity = state.spring().velocity();
    state.diff(SpringMotion::bouncy());
    assert_eq!(state.spring().motion(), SpringMotion::bouncy());
    assert_eq!(state.current_style(), style);
    assert_eq!(state.spring().velocity(), velocity);
}

#[test]
fn animated_state_clock_going_back_is_no_time() {
    let mut state = AnimatedState::new((), 0i64, SpringMotion::smooth());
    state.needs_redraw((), UNIT);
    state.tick(500);
    state.tick(400);
    assert_eq!(state.current_style(), 0);
    state.tick(420);
    assert!(state.current_style() > 0);
}

#[test]
fn components_move_independently() {
    let mut a = Spring::new(Color { r: 0, g: 0, b: 0, a: 0 }, SpringMotion::smooth());
    let mut b = Spring::new(Color { r: 0, g: 0, b: 0, a: 0 }, SpringMotion::smooth());
    a.set_target(Color { r: 1, g: 0, b: 0, a: 0 });
    b.set_target(Color { r: 1, g: 10_000_000, b: 0, a: 0 });
    for _ in 0..50 {
        a.tick(1);
        b.tick(1);
        assert_eq!(a.value().r, b.value().r);
        assert_eq!(a.velocity()[0], b.velocity()[0]);
    }
    // The red component is within the tolerance at once, so it snaps onto
    // its target in both springs, while green is still moving in the second.
    assert_eq!(b.value().r, 1);
    assert!(!b.has_settled());
    assert!(a.has_settled());
}

#[test]
fn tolerance_is_configurable() {
    let mut loose = Spring::new(0i64, SpringMotion::smooth());
    let mut tight = Spring::new(0i64, SpringMotion::smooth());
    assert_eq!(tight.tolerance(), Tolerance::default());
    assert_eq!(Tolerance::standard(), Tolerance { distance: 1000, speed: 1_000_000 });
    loose.set_tolerance(Tolerance { distance: UNIT / 10, speed: 1_000_000_000 });
    loose.set_target(UNIT);
    tight.set_target(UNIT);
    let loose_steps = run_until_settled(&mut loose, 1, 5000).unwrap();
    let tight_steps = run_until_settled(&mut tight, 1, 5000).unwrap();
    assert!(loose_steps < tight_steps);
    assert_eq!(loose.tolerance().distance, UNIT / 10);
}

#[test]
fn long_ticks_are_capped() {
    let motion = SpringMotion::custom(60_000, 1000).unwrap();
    let mut once = Spring::new(0i64, motion);
    let mut capped = Spring::new(0i64, motion);
    once.set_target(UNIT);
    capped.set_target(UNIT);
    once.tick(10 * 60_000);
    capped.tick(MAX_TICK_MS);
    assert_eq!(once.value(), capped.value());
    assert_eq!(once.velocity(), capped.velocity());
}

#[test]
fn needs_frame_follows_status_and_motion() {
    let mut state = AnimatedState::new(Status::A, style_of(Status::A), SpringMotion::smooth());
    assert!(!state.needs_frame(false));
    assert!(state.needs_frame(true));
    state.needs_redraw(Status::B, style_of(Status::B));
    state.tick(0);
    state.tick(16);
    assert!(state.needs_frame(false));
}

#[test]
fn frame_needed_without_state_or_while_moving() {
    assert!(frame_needed::<Status, i64>(None, false));
    let mut state = AnimatedState::new(Status::A, style_of(Status::A), SpringMotion::smooth());
    assert!(state.spring().has_settled());
    assert!(!frame_needed(Some(&state), false));
    assert!(frame_needed(Some(&state), true));
    state.needs_redraw(Status::B, style_of(Status::B));
    assert!(frame_needed(Some(&state), false));
}

#[test]
fn settle_event_leaves_spring_settled() {
    let mut spring = Spring::new(0i64, SpringMotion::bouncy());
    spring.set_target(UNIT);
    spring.tick(30);
    assert!(!spring.has_settled());
    spring.settle(3 * UNIT);
    assert!(spring.has_settled());
}
