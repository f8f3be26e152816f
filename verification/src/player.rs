//! The player: what the input sampler asks for, the movement controller's
//! tick, and the footstep accumulator.

use crate::input::{any_held, just_pressed, struck};
use crate::physics::{MovementAcceleration, MovementAction};
use crate::units::{
    floor_sqrt, lemma_floor_sqrt_exists, lemma_scaled_stays_in_disc, length, length_sq,
    length_squared, scale, scaled, within_unit, Blend, Vec2, Vec3, UNIT,
};
use crate::utils::{get_vec, intent, lemma_nudge_stays_in_disc, SmoothNudge};
use bevy::input::keyboard::KeyCode;
use bevy::input::ButtonInput;
use vstd::prelude::*;

verus! {

/// The speed, in thousandths per second, from which a body slides rather
/// than walks: three hundred units per second.
pub const SLIDE_SPEED: i32 = 300_000;

/// The distance walked since the last footstep sound, and the distance
/// after which the next one is due.
#[derive(Clone, Copy, Debug, PartialEq, Eq, Structural)]
pub struct FootstepSound(pub i32, pub i32);

/// The direction that the player asks to move in.
#[derive(Clone, Copy, Debug, PartialEq, Eq, Structural)]
pub struct PlayerDir(pub Vec2);

impl FootstepSound {
    pub fn with_interval(self, interval: i32) -> (s: Self)
        ensures
            s == FootstepSound(self.0, interval),
    {
        FootstepSound(self.0, interval)
    }
}

impl Default for FootstepSound {
    fn default() -> (s: Self)
        ensures
            s == FootstepSound(0, 0),
    {
        FootstepSound(0, 0)
    }
}

impl Default for PlayerDir {
    fn default() -> (d: Self)
        ensures
            d == PlayerDir(Vec2 { x: 0, y: 0 }),
    {
        PlayerDir(Vec2 { x: 0, y: 0 })
    }
}

/// What the sampler emits in one frame: the intent if there is one, then a
/// jump if its key went down.
pub open spec fn sampled(left: bool, right: bool, up: bool, down: bool, jump: bool) -> Seq<
    MovementAction,
> {
    let direction = intent(left, right, up, down);
    let moves = if direction != (Vec2 { x: 0, y: 0 }) {
        seq![MovementAction::Move(direction)]
    } else {
        Seq::<MovementAction>::empty()
    };
    if jump {
        moves.push(MovementAction::Jump)
    } else {
        moves
    }
}

/// The direction of the last move among the actions, zero without one.
pub open spec fn last_move(actions: Seq<MovementAction>) -> Vec2
    decreases actions.len(),
{
    if actions.len() == 0 {
        Vec2 { x: 0, y: 0 }
    } else {
        match actions.last() {
            MovementAction::Move(direction) => direction,
            MovementAction::Jump => last_move(actions.drop_last()),
        }
    }
}

/// The actions of one frame: the intent of the keys bound to the four
/// directions, and a jump if the jump key went down in this frame.
pub fn keyboard_input(
    kb: &ButtonInput<KeyCode>,
    left: &[KeyCode],
    right: &[KeyCode],
    up: &[KeyCode],
    down: &[KeyCode],
    jump: KeyCode,
) -> (actions: Vec<MovementAction>)
    ensures
        actions@ == sampled(
            any_held(*kb, left@),
            any_held(*kb, right@),
            any_held(*kb, up@),
            any_held(*kb, down@),
            struck(*kb, jump),
        ),
{
    let mut actions: Vec<MovementAction> = Vec::new();
    let direction = get_vec(kb, left, right, up, down);
    if direction.x != 0 || direction.y != 0 {
        actions.push(MovementAction::Move(direction));
    }
    if just_pressed(kb, jump) {
        actions.push(MovementAction::Jump);
    }
    actions
}

/// The player's direction for this frame: that of the last move asked for,
/// zero when none was.
pub fn set_dir(actions: &Vec<MovementAction>) -> (dir: PlayerDir)
    ensures
        dir.0 == last_move(actions@),
{
    let mut dir = Vec2 { x: 0, y: 0 };
    let mut i: usize = 0;
    assert(actions@.take(0) == Seq::<MovementAction>::empty());
    while i < actions.len()
        invariant
            i <= actions.len(),
            dir == last_move(actions@.take(i as int)),
        decreases actions.len() - i,
    {
        proof {
            assert(actions@.take(i + 1).drop_last() == actions@.take(i as int));
        }
        match actions[i] {
            MovementAction::Move(direction) => {
                dir = direction;
            },
            MovementAction::Jump => {},
        }
        i += 1;
    }
    assert(actions@.take(actions.len() as int) == actions@);
    PlayerDir(dir)
}

/// The velocity that full intent in direction `dir` aims at.
pub open spec fn target_velocity(dir: Vec2, max_speed: i32) -> Vec2 {
    Vec2 { x: scaled(dir.x as int, max_speed as int) as i32, y: scaled(dir.y as int, max_speed as int) as i32 }
}

/// The velocity after one tick: it approaches the target by `accel`, and
/// without intent, where the body is damped, it then decays toward rest by
/// `damp`.
pub open spec fn velocity_after(
    velocity: Vec2,
    dir: Vec2,
    max_speed: i32,
    accel: Blend,
    damp: Option<Blend>,
) -> Vec2 {
    let approached = velocity.nudged(target_velocity(dir, max_speed), accel);
    match damp {
        Some(weight) if dir == (Vec2 { x: 0, y: 0 }) => approached.nudged(Vec2 { x: 0, y: 0 }, weight),
        _ => approached,
    }
}

/// The distance that counts toward the next footstep in one tick: the way
/// made at this velocity, and nothing from sliding speed on.
pub open spec fn walked(velocity: Vec2, delta_micros: int) -> int {
    if length_sq(velocity) < SLIDE_SPEED * SLIDE_SPEED {
        floor_sqrt(length_sq(velocity)) * delta_micros / 1_000_000
    } else {
        0
    }
}

/// The accumulator after one tick, and whether a footstep sounds: the
/// distance is added, and on reaching the interval the accumulator starts
/// again from zero.
pub open spec fn footsteps_after(steps: FootstepSound, velocity: Vec2, delta_micros: int) -> (
    FootstepSound,
    bool,
) {
    let total = steps.0 + walked(velocity, delta_micros);
    if total >= steps.1 {
        (FootstepSound(0, steps.1), true)
    } else {
        (FootstepSound(total as i32, steps.1), false)
    }
}

/// The square of the sliding speed.
pub fn slide_speed_squared() -> (r: u64)
    ensures
        r == SLIDE_SPEED * SLIDE_SPEED,
{
    let slide: u64 = SLIDE_SPEED as u64;
    slide * slide
}

/// One fixed tick of the movement controller for one body: the velocity
/// approaches its target, then decays if there is no intent, and the way
/// made at the velocity reached counts toward the next footstep.
///
/// `accel` is the weight of the approach to the target velocity and `damp`
/// that of the decay toward rest, absent for a body without damping; both
/// come from `decay_exponent` of the body's rates. The maximum speed is a
/// speed, so not negative, and the direction has length at most one. Returns
/// whether a footstep sound is due.
pub fn movement(
    profile: &MovementAcceleration,
    linear_velocity: &mut Vec2,
    damp: Option<Blend>,
    dir: &PlayerDir,
    footsteps: &mut FootstepSound,
    accel: Blend,
    delta_micros: u32,
) -> (step: bool)
    requires
        profile.max_speed >= 0,
        within_unit(dir.0),
    ensures
        *final(linear_velocity) == velocity_after(
            *old(linear_velocity),
            dir.0,
            profile.max_speed,
            accel,
            damp,
        ),
        (*final(footsteps), step) == footsteps_after(
            *old(footsteps),
            *final(linear_velocity),
            delta_micros as int,
        ),
{
    let target = Vec2 { x: scale(dir.0.x, profile.max_speed), y: scale(dir.0.y, profile.max_speed) };
    linear_velocity.smooth_nudge(&target, accel);
    match damp {
        Some(weight) => {
            if dir.0.x == 0 && dir.0.y == 0 {
                linear_velocity.smooth_nudge(&Vec2 { x: 0, y: 0 }, weight);
            }
        },
        None => {},
    }
    let mut total: i64 = footsteps.0 as i64;
    if length_squared(*linear_velocity) < slide_speed_squared() {
        let speed: u64 = length(*linear_velocity) as u64;
        let dt: u64 = delta_micros as u64;
        assert(speed < 300_000) by (nonlinear_arith)
            requires
                speed * speed < 90_000_000_000,
                0 <= speed,
        ;
        assert(speed * dt <= 300_000 * 0xFFFF_FFFF) by (nonlinear_arith)
            requires
                0 <= speed < 300_000,
                0 <= dt <= 0xFFFF_FFFF,
        ;
        total = total + (speed * dt / 1_000_000) as i64;
    }
    if total >= footsteps.1 as i64 {
        footsteps.0 = 0;
        true
    } else {
        footsteps.0 = total as i32;
        false
    }
}

/// The sprite is drawn where the player stands; its depth is its own.
pub fn update_player_sprite_transform(sprite: &mut Vec3, player: &Vec3)
    ensures
        *final(sprite) == (Vec3 { x: player.x, y: player.y, z: old(sprite).z }),
{
    sprite.x = player.x;
    sprite.y = player.y;
}

/// The footstep policy: from sliding speed on the accumulator freezes and
/// is not reset; a footstep sounds exactly when the accumulator has reached
/// the interval, and then it starts again from zero; otherwise it stays
/// below the interval.
pub proof fn lemma_footsteps_policy(steps: FootstepSound, velocity: Vec2, delta_micros: u32)
    ensures
        length_sq(velocity) >= SLIDE_SPEED * SLIDE_SPEED ==> walked(velocity, delta_micros as int)
            == 0,
        length_sq(velocity) >= SLIDE_SPEED * SLIDE_SPEED && steps.0 < steps.1 ==> footsteps_after(
            steps,
            velocity,
            delta_micros as int,
        ) == (steps, false),
        walked(velocity, delta_micros as int) >= 0,
        footsteps_after(steps, velocity, delta_micros as int).1 <==> steps.0 + walked(
            velocity,
            delta_micros as int,
        ) >= steps.1,
        footsteps_after(steps, velocity, delta_micros as int).1 ==> footsteps_after(
            steps,
            velocity,
            delta_micros as int,
        ).0 == FootstepSound(0, steps.1),
        !footsteps_after(steps, velocity, delta_micros as int).1 ==> steps.0 <= footsteps_after(
            steps,
            velocity,
            delta_micros as int,
        ).0.0 < steps.1,
{
    let square = length_sq(velocity);
    if square < SLIDE_SPEED * SLIDE_SPEED {
        assert(square >= 0) by (nonlinear_arith)
            requires
                square == velocity.x * velocity.x + velocity.y * velocity.y,
        ;
        lemma_floor_sqrt_exists(square);
        let speed = floor_sqrt(square);
        assert(speed * delta_micros >= 0) by (nonlinear_arith)
            requires
                speed >= 0,
                delta_micros >= 0,
        ;
    }
}

/// The speed never exceeds the maximum speed: a velocity that is at most
/// that fast is at most that fast after a tick, whatever the direction of
/// length at most one, the weights and the damping.
pub proof fn lemma_speed_stays_capped(
    velocity: Vec2,
    dir: Vec2,
    max_speed: i32,
    accel: Blend,
    damp: Option<Blend>,
)
    requires
        max_speed >= 0,
        length_sq(dir) <= UNIT * UNIT,
        accel.wf(),
        damp matches Some(weight) ==> weight.wf(),
        length_sq(velocity) <= max_speed * max_speed,
    ensures
        length_sq(target_velocity(dir, max_speed)) <= max_speed * max_speed,
        length_sq(velocity_after(velocity, dir, max_speed, accel, damp)) <= max_speed * max_speed,
{
    let target = target_velocity(dir, max_speed);
    let rest = Vec2 { x: 0, y: 0 };
    lemma_scaled_stays_in_disc(dir, max_speed as int);
    assert(-max_speed <= scaled(dir.x as int, max_speed as int) <= max_speed && -max_speed
        <= scaled(dir.y as int, max_speed as int) <= max_speed) by {
        let (c, d, f) = (dir.x as int, dir.y as int, max_speed as int);
        assert(-f * 1000 <= c * f <= f * 1000 && -f * 1000 <= d * f <= f * 1000)
            by (nonlinear_arith)
            requires
                -1000 <= c <= 1000,
                -1000 <= d <= 1000,
                f >= 0,
        ;
    }
    lemma_nudge_stays_in_disc(velocity, target, accel, max_speed as int);
    let approached = velocity.nudged(target, accel);
    assert(length_sq(rest) == 0);
    assert(max_speed * max_speed >= 0) by (nonlinear_arith);
    match damp {
        Some(weight) => {
            lemma_nudge_stays_in_disc(approached, rest, weight, max_speed as int);
        },
        None => {},
    }
}

} // verus!
