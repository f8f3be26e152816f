use zelda_rs::physics::{Damping, MovementAcceleration, MovementBundle};
use zelda_rs::player::{movement, update_player_sprite_transform, FootstepSound, PlayerDir, SLIDE_SPEED};
use zelda_rs::units::{blend, isqrt, length, length_squared, scale, Blend, Vec2, Vec3, BLEND_ONE, UNIT};
use zelda_rs::utils::{decay_exponent, SmoothNudge};

fn weight_of(rate: i32, delta_micros: u32) -> Blend {
    let exponent = decay_exponent(rate, delta_micros) as f64 / 1e9;
    Blend::from_ppm(((1.0 - (-exponent).exp()) * 1e6) as u32)
}

const PROFILE: MovementAcceleration = MovementAcceleration { acceleration: 1_000, max_speed: 500_000 };

#[test]
fn blend_weight_saturates_at_one() {
    assert_eq!(BLEND_ONE, 1_000_000);
    assert_eq!(Blend::from_ppm(0).ppm(), 0);
    assert_eq!(Blend::from_ppm(250_000).ppm(), 250_000);
    assert_eq!(Blend::from_ppm(1_000_000).ppm(), 1_000_000);
    assert_eq!(Blend::from_ppm(1_000_001).ppm(), 1_000_000);
    assert_eq!(Blend::from_ppm(u32::MAX).ppm(), 1_000_000);
}

#[test]
fn blend_rounds_toward_zero() {
    assert_eq!(blend(0, 500_000, Blend::from_ppm(16_528)), 8_264);
    assert_eq!(blend(-500_000, 0, Blend::from_ppm(45_789)), -477_105);
    assert_eq!(blend(1_000, -1_000, Blend::from_ppm(250_000)), 500);
    assert_eq!(blend(10, 0, Blend::from_ppm(999_999)), 0);
    assert_eq!(blend(7, 8, Blend::from_ppm(500_000)), 7);
    assert_eq!(blend(8, 7, Blend::from_ppm(500_000)), 7);
    assert_eq!(blend(-7, -8, Blend::from_ppm(500_000)), -7);
    assert_eq!(blend(-8, -7, Blend::from_ppm(500_000)), -7);
    assert_eq!(blend(-4, 4, Blend::from_ppm(500_000)), 0);
}

#[test]
fn blend_ends_are_exact() {
    for (a, b) in [(0, 500_000), (-3, 9), (i32::MIN, i32::MAX), (i32::MAX, i32::MIN), (5, 5)] {
        assert_eq!(blend(a, b, Blend::from_ppm(0)), a);
        assert_eq!(blend(a, b, Blend::from_ppm(1_000_000)), b);
    }
}

#[test]
fn smoothing_step_stays_between_the_ends() {
    let ends = [(0, 500_000), (500_000, 0), (-250_000, 250_000), (i32::MIN, i32::MAX), (3, 3)];
    for (from, to) in ends {
        for ppm in [0, 1, 16_528, 500_000, 999_999, 1_000_000] {
            let r = blend(from, to, Blend::from_ppm(ppm));
            assert!(from.min(to) <= r && r <= from.max(to));
            let mut v = Vec2 { x: from, y: to };
            v.smooth_nudge(&Vec2 { x: to, y: from }, Blend::from_ppm(ppm));
            assert!(from.min(to) <= v.x && v.x <= from.max(to));
            assert!(from.min(to) <= v.y && v.y <= from.max(to));
        }
    }
}

#[test]
fn smoothing_moves_each_kind_of_value() {
    let half = Blend::from_ppm(500_000);
    let mut s: i32 = 100;
    s.smooth_nudge(&200, half);
    assert_eq!(s, 150);
    let mut v = Vec2 { x: 0, y: 10 };
    v.smooth_nudge(&Vec2 { x: 10, y: 0 }, half);
    assert_eq!(v, Vec2 { x: 5, y: 5 });
    let mut p = Vec3 { x: 0, y: 10, z: -4 };
    p.smooth_nudge(&Vec3 { x: 10, y: 0, z: 4 }, half);
    assert_eq!(p, Vec3 { x: 5, y: 5, z: 0 });
}

#[test]
fn decay_exponent_is_rate_times_time() {
    assert_eq!(decay_exponent(1_000, 16_667), 16_667_000);
    assert_eq!(decay_exponent(5_000, 15_625), 78_125_000);
    assert_eq!(decay_exponent(0, 15_625), 0);
    assert_eq!(decay_exponent(-3, 15_625), 0);
    assert_eq!(decay_exponent(i32::MAX, u32::MAX), i32::MAX as u64 * u32::MAX as u64);
}

#[test]
fn scale_rounds_toward_zero() {
    assert_eq!(UNIT, 1000);
    assert_eq!(scale(1000, 500_000), 500_000);
    assert_eq!(scale(-1000, 500_000), -500_000);
    assert_eq!(scale(707, 500_000), 353_500);
    assert_eq!(scale(707, 3), 2);
    assert_eq!(scale(-707, 3), -2);
    assert_eq!(scale(0, 500_000), 0);
    assert_eq!(scale(1000, i32::MAX), i32::MAX);
}

#[test]
fn square_root_is_rounded_down() {
    assert_eq!(isqrt(0), 0);
    assert_eq!(isqrt(1), 1);
    assert_eq!(isqrt(3), 1);
    assert_eq!(isqrt(4), 2);
    assert_eq!(isqrt(89_999_999_999), 299_999);
    assert_eq!(isqrt(90_000_000_000), 300_000);
    assert_eq!(isqrt(u64::MAX), u32::MAX);
    assert_eq!(length_squared(Vec2 { x: 3, y: -4 }), 25);
    assert_eq!(length(Vec2 { x: 3, y: -4 }), 5);
    assert_eq!(length(Vec2 { x: 707, y: 707 }), 999);
    assert_eq!(length_squared(Vec2 { x: i32::MIN, y: i32::MIN }), 1 << 63);
}

#[test]
fn velocity_converges_on_the_target() {
    let accel = weight_of(PROFILE.acceleration, 16_667);
    assert_eq!(accel.ppm(), 16_528);
    let mut velocity = Vec2 { x: 0, y: 0 };
    let mut steps = FootstepSound::default().with_interval(20_000);
    let dir = PlayerDir(Vec2 { x: 1000, y: 0 });
    let mut trace = vec![];
    for _ in 0..300 {
        let before = velocity;
        movement(&PROFILE, &mut velocity, None, &dir, &mut steps, accel, 16_667);
        assert!(before.x <= velocity.x && velocity.x <= 500_000);
        assert_eq!(velocity.y, 0);
        trace.push(velocity.x);
    }
    assert_eq!(&trace[..3], &[8_264, 16_391, 24_384]);
    assert_eq!(velocity, Vec2 { x: 496_603, y: 0 });
    assert!((500_000 - velocity.x) * 100 <= 500_000);
}

#[test]
fn speed_never_exceeds_the_maximum() {
    let profile = MovementAcceleration { acceleration: 1_000, max_speed: 1_000 };
    let cap = 1_000u64 * 1_000;
    let mut steps = FootstepSound(0, i32::MAX);
    for ppm in [1, 20_000, 500_000, 999_999, 1_000_000] {
        let accel = Blend::from_ppm(ppm);
        let mut velocity = Vec2 { x: 1_000, y: 0 };
        let turns = [(0, 1000), (-1000, 0), (0, -1000), (1000, 0), (707, 707), (-707, 707), (600, 800)];
        for (x, y) in turns {
            let dir = PlayerDir(Vec2 { x, y });
            for _ in 0..400 {
                movement(&profile, &mut velocity, None, &dir, &mut steps, accel, 15_625);
                assert!(length_squared(velocity) <= cap);
            }
        }
    }
    let mut velocity = Vec2 { x: 1_000, y: 0 };
    let dir = PlayerDir(Vec2 { x: 960, y: 280 });
    movement(&profile, &mut velocity, None, &dir, &mut steps, Blend::from_ppm(20_000), 15_625);
    assert_eq!(velocity, Vec2 { x: 999, y: 5 });
}

#[test]
fn body_without_intent_slides_to_a_stop() {
    let accel = weight_of(1_000, 15_625);
    let damp = weight_of(3_000, 15_625);
    assert_eq!(damp.ppm(), 45_793);
    let mut velocity = Vec2 { x: 200_000, y: -100_000 };
    let mut steps = FootstepSound(0, i32::MAX);
    let rest = PlayerDir(Vec2 { x: 0, y: 0 });
    movement(&PROFILE, &mut velocity, Some(damp), &rest, &mut steps, accel, 15_625);
    let approached = Vec2 { x: blend(200_000, 0, accel), y: blend(-100_000, 0, accel) };
    assert_eq!(velocity, Vec2 { x: blend(approached.x, 0, damp), y: blend(approached.y, 0, damp) });
    assert_eq!(velocity, Vec2 { x: 187_882, y: -93_940 });
    let mut ticks = 0;
    while velocity != (Vec2 { x: 0, y: 0 }) {
        let before = velocity;
        movement(&PROFILE, &mut velocity, Some(damp), &rest, &mut steps, accel, 15_625);
        assert!(velocity.x.abs() < before.x.abs() || before.x == 0);
        assert!(velocity.y.abs() < before.y.abs() || before.y == 0);
        ticks += 1;
    }
    assert_eq!(ticks, 147);
}

#[test]
fn damping_waits_for_the_intent_to_end() {
    let accel = Blend::from_ppm(100_000);
    let damp = Blend::from_ppm(500_000);
    let mut with = Vec2 { x: 100_000, y: 0 };
    let mut without = with;
    let dir = PlayerDir(Vec2 { x: 0, y: 1000 });
    let mut steps = FootstepSound(0, i32::MAX);
    movement(&PROFILE, &mut with, Some(damp), &dir, &mut steps, accel, 15_625);
    movement(&PROFILE, &mut without, None, &dir, &mut steps, accel, 15_625);
    assert_eq!(with, without);
    assert_eq!(with, Vec2 { x: 90_000, y: 50_000 });
    let mut undamped = Vec2 { x: 100_000, y: 0 };
    let rest = PlayerDir(Vec2 { x: 0, y: 0 });
    movement(&PROFILE, &mut undamped, None, &rest, &mut steps, accel, 15_625);
    assert_eq!(undamped, Vec2 { x: 90_000, y: 0 });
}

#[test]
fn footsteps_accumulate_and_start_over() {
    let still = Blend::from_ppm(0);
    let dir = PlayerDir(Vec2 { x: 0, y: 0 });
    let mut velocity = Vec2 { x: 100_000, y: 0 };
    let mut steps = FootstepSound::default().with_interval(4_000);
    assert_eq!(steps, FootstepSound(0, 4_000));
    assert!(!movement(&PROFILE, &mut velocity, None, &dir, &mut steps, still, 15_625));
    assert_eq!(steps, FootstepSound(1_562, 4_000));
    assert!(!movement(&PROFILE, &mut velocity, None, &dir, &mut steps, still, 15_625));
    assert_eq!(steps, FootstepSound(3_124, 4_000));
    assert!(movement(&PROFILE, &mut velocity, None, &dir, &mut steps, still, 15_625));
    assert_eq!(steps, FootstepSound(0, 4_000));
    assert_eq!(velocity, Vec2 { x: 100_000, y: 0 });
}

#[test]
fn footsteps_sound_on_reaching_the_interval_exactly() {
    let still = Blend::from_ppm(0);
    let dir = PlayerDir(Vec2 { x: 0, y: 0 });
    let mut velocity = Vec2 { x: 100_000, y: 0 };
    let mut steps = FootstepSound(0, 1_562);
    assert!(movement(&PROFILE, &mut velocity, None, &dir, &mut steps, still, 15_625));
    assert_eq!(steps, FootstepSound(0, 1_562));
    let mut steps = FootstepSound(0, 1_563);
    assert!(!movement(&PROFILE, &mut velocity, None, &dir, &mut steps, still, 15_625));
    assert_eq!(steps, FootstepSound(1_562, 1_563));
}

#[test]
fn footsteps_freeze_from_sliding_speed_on() {
    assert_eq!(SLIDE_SPEED, 300_000);
    let still = Blend::from_ppm(0);
    let dir = PlayerDir(Vec2 { x: 0, y: 0 });
    let mut steps = FootstepSound(1_000, 20_000);
    let mut at = Vec2 { x: 300_000, y: 0 };
    assert!(!movement(&PROFILE, &mut at, None, &dir, &mut steps, still, 15_625));
    assert_eq!(steps, FootstepSound(1_000, 20_000));
    let mut above = Vec2 { x: 400_000, y: 300_000 };
    assert!(!movement(&PROFILE, &mut above, None, &dir, &mut steps, still, 15_625));
    assert_eq!(steps, FootstepSound(1_000, 20_000));
    let mut below = Vec2 { x: 299_999, y: 0 };
    assert!(!movement(&PROFILE, &mut below, None, &dir, &mut steps, still, 15_625));
    assert_eq!(steps, FootstepSound(1_000 + 4_687, 20_000));
}

#[test]
fn footsteps_do_not_overflow() {
    let still = Blend::from_ppm(0);
    let dir = PlayerDir(Vec2 { x: 0, y: 0 });
    let mut velocity = Vec2 { x: 299_999, y: 0 };
    let mut steps = FootstepSound(i32::MAX - 1, i32::MAX);
    assert!(movement(&PROFILE, &mut velocity, None, &dir, &mut steps, still, u32::MAX));
    assert_eq!(steps, FootstepSound(0, i32::MAX));
}

#[test]
fn movement_bundle_keeps_its_parts() {
    let bundle = MovementBundle::new(500_000, 1_000, 3_000);
    assert_eq!(bundle.acceleration(), MovementAcceleration { acceleration: 1_000, max_speed: 500_000 });
    assert_eq!(bundle.damping(), Damping(3_000));
    let usual = MovementBundle::default();
    assert_eq!(usual, MovementBundle::new(500_000, 1_000, 18_000));
}

#[test]
fn sprite_follows_the_player_in_the_plane() {
    let mut sprite = Vec3 { x: 1, y: 2, z: 3 };
    update_player_sprite_transform(&mut sprite, &Vec3 { x: 40, y: -50, z: 60 });
    assert_eq!(sprite, Vec3 { x: 40, y: -50, z: 3 });
}
