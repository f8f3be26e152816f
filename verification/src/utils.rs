//! The input sampler's arithmetic and the smoothing step that movement and
//! the camera share.

use crate::input::{any_held, any_pressed};
use crate::units::{
    blend, blend_scalar, is_floor_sqrt, length_sq, within_unit, Blend, Vec2, Vec3, BLEND_ONE, UNIT,
};
use bevy::input::keyboard::KeyCode;
use bevy::input::ButtonInput;
use vstd::prelude::*;

verus! {

/// Each component of a unit vector along a diagonal: a thousand over the
/// square root of two, rounded down.
pub const DIAGONAL: i32 = 707;

/// One axis of the intent: nothing when both sides or neither are held, one
/// unit toward the side that is held alone.
pub open spec fn axis(negative: bool, positive: bool) -> int {
    if negative == positive {
        0
    } else if negative {
        -UNIT
    } else {
        UNIT as int
    }
}

/// `size` with the sign of `side`.
pub open spec fn toward(side: int, size: i32) -> i32 {
    if side < 0 {
        (0 - size) as i32
    } else {
        size
    }
}

/// The intent of the four direction bindings, scaled to length one where
/// both axes are engaged, so that moving along a diagonal is no faster.
pub open spec fn intent(left: bool, right: bool, up: bool, down: bool) -> Vec2 {
    let x = axis(left, right);
    let y = axis(down, up);
    if x != 0 && y != 0 {
        Vec2 { x: toward(x, DIAGONAL), y: toward(y, DIAGONAL) }
    } else {
        Vec2 { x: x as i32, y: y as i32 }
    }
}

/// `DIAGONAL` is the largest component that keeps a diagonal within length
/// one.
pub proof fn lemma_diagonal_is_unit()
    ensures
        is_floor_sqrt(UNIT * UNIT / 2, DIAGONAL as int),
{
}

/// Every intent has length at most one, and exactly one along an axis.
pub proof fn lemma_intent_is_bounded(left: bool, right: bool, up: bool, down: bool)
    ensures
        within_unit(intent(left, right, up, down)),
        length_sq(intent(left, right, up, down)) <= UNIT * UNIT,
        (axis(left, right) == 0) != (axis(down, up) == 0) ==> length_sq(
            intent(left, right, up, down),
        ) == UNIT * UNIT,
{
    let v = intent(left, right, up, down);
    let (x, y) = (v.x as int, v.y as int);
    assert(x * x == if x == 0 {
        0int
    } else if x == 1000 || x == -1000 {
        1_000_000
    } else {
        499_849
    }) by (nonlinear_arith)
        requires
            x == 0 || x == 707 || x == -707 || x == 1000 || x == -1000,
    ;
    assert(y * y == if y == 0 {
        0int
    } else if y == 1000 || y == -1000 {
        1_000_000
    } else {
        499_849
    }) by (nonlinear_arith)
        requires
            y == 0 || y == 707 || y == -707 || y == 1000 || y == -1000,
    ;
}

/// One axis of the intent: `left` and `right` list the keys bound to its two
/// directions.
pub fn get_dir(kb: &ButtonInput<KeyCode>, left: &[KeyCode], right: &[KeyCode]) -> (r: i32)
    ensures
        r == axis(any_held(*kb, left@), any_held(*kb, right@)),
        any_held(*kb, left@) && any_held(*kb, right@) ==> r == 0,
{
    match (any_pressed(kb, left), any_pressed(kb, right)) {
        (true, true) | (false, false) => 0,
        (true, false) => -UNIT,
        (false, true) => UNIT,
    }
}

/// Both axes as they are, a diagonal reaching one unit on each.
pub fn get_axes(
    kb: &ButtonInput<KeyCode>,
    left: &[KeyCode],
    right: &[KeyCode],
    up: &[KeyCode],
    down: &[KeyCode],
) -> (v: Vec2)
    ensures
        v.x == axis(any_held(*kb, left@), any_held(*kb, right@)),
        v.y == axis(any_held(*kb, down@), any_held(*kb, up@)),
{
    Vec2 { x: get_dir(kb, left, right), y: get_dir(kb, down, up) }
}

/// The intent vector of the four direction bindings, of length one or zero.
pub fn get_vec(
    kb: &ButtonInput<KeyCode>,
    left: &[KeyCode],
    right: &[KeyCode],
    up: &[KeyCode],
    down: &[KeyCode],
) -> (v: Vec2)
    ensures
        v == intent(
            any_held(*kb, left@),
            any_held(*kb, right@),
            any_held(*kb, up@),
            any_held(*kb, down@),
        ),
        any_held(*kb, left@) && any_held(*kb, right@) ==> v.x == 0,
        any_held(*kb, up@) && any_held(*kb, down@) ==> v.y == 0,
        within_unit(v),
{
    let raw = get_axes(kb, left, right, up, down);
    if raw.x != 0 && raw.y != 0 {
        Vec2 {
            x: if raw.x < 0 {
                -DIAGONAL
            } else {
                DIAGONAL
            },
            y: if raw.y < 0 {
                -DIAGONAL
            } else {
                DIAGONAL
            },
        }
    } else {
        raw
    }
}

/// The exponent of a decay at `rate` thousandths per second over
/// `delta_micros` microseconds, in billionths. A rate below zero decays
/// nothing.
pub open spec fn decay_product(rate: int, delta_micros: int) -> int {
    if rate > 0 {
        rate * delta_micros
    } else {
        0
    }
}

/// The exponent `rate * dt` of one smoothing step, in billionths. The weight
/// of the step is one minus the exponential of its negative.
pub fn decay_exponent(rate: i32, delta_micros: u32) -> (e: u64)
    ensures
        e == decay_product(rate as int, delta_micros as int),
{
    if rate > 0 {
        let r: u64 = rate as u64;
        let d: u64 = delta_micros as u64;
        assert(r * d <= 0x7FFF_FFFF * 0xFFFF_FFFF) by (nonlinear_arith)
            requires
                0 <= r <= 0x7FFF_FFFF,
                0 <= d <= 0xFFFF_FFFF,
        ;
        r * d
    } else {
        0
    }
}

/// Exponential smoothing toward a target. The weight of one step is
/// `1 - exp(-rate * dt)`, which the caller evaluates; the step itself is a
/// blend by that weight.
pub trait SmoothNudge: Sized {
    /// Where a step from `self` toward `other` lands.
    spec fn nudged(self, other: Self, weight: Blend) -> Self;

    /// Moves `self` toward `other` by `weight`.
    fn smooth_nudge(&mut self, other: &Self, weight: Blend)
        ensures
            *final(self) == old(self).nudged(*other, weight),
    ;
}

impl SmoothNudge for i32 {
    open spec fn nudged(self, other: i32, weight: Blend) -> i32 {
        blend_scalar(self as int, other as int, weight@) as i32
    }

    fn smooth_nudge(&mut self, other: &i32, weight: Blend) {
        *self = blend(*self, *other, weight);
    }
}

impl SmoothNudge for Vec2 {
    open spec fn nudged(self, other: Vec2, weight: Blend) -> Vec2 {
        Vec2 { x: self.x.nudged(other.x, weight), y: self.y.nudged(other.y, weight) }
    }

    fn smooth_nudge(&mut self, other: &Vec2, weight: Blend) {
        *self = Vec2 { x: blend(self.x, other.x, weight), y: blend(self.y, other.y, weight) };
    }
}

impl SmoothNudge for Vec3 {
    open spec fn nudged(self, other: Vec3, weight: Blend) -> Vec3 {
        Vec3 {
            x: self.x.nudged(other.x, weight),
            y: self.y.nudged(other.y, weight),
            z: self.z.nudged(other.z, weight),
        }
    }

    fn smooth_nudge(&mut self, other: &Vec3, weight: Blend) {
        *self = Vec3 {
            x: blend(self.x, other.x, weight),
            y: blend(self.y, other.y, weight),
            z: blend(self.z, other.z, weight),
        };
    }
}

/// `r` lies between `a` and `b`, ends included.
pub open spec fn between(a: int, r: int, b: int) -> bool {
    (a <= r <= b) || (b <= r <= a)
}

/// One smoothing step never overshoots: the result lies between the old
/// value and the target. A weight of zero stays, a weight of one arrives.
pub proof fn lemma_nudge_stays_between(from: i32, to: i32, weight: Blend)
    requires
        weight.wf(),
    ensures
        from.nudged(to, weight) == blend_scalar(from as int, to as int, weight@),
        between(from as int, from.nudged(to, weight) as int, to as int),
        weight@ == 0 ==> from.nudged(to, weight) == from,
        weight@ == BLEND_ONE ==> from.nudged(to, weight) == to,
{
    crate::units::lemma_blend_between(from as int, to as int, weight@);
}

/// The same for a velocity: after one step it lies in the rectangle spanned
/// by the previous velocity and the target, each coordinate at the same
/// share of its way, rounded toward where it came from.
pub proof fn lemma_velocity_stays_between(from: Vec2, to: Vec2, weight: Blend)
    requires
        weight.wf(),
    ensures
        between(from.x as int, from.nudged(to, weight).x as int, to.x as int),
        between(from.y as int, from.nudged(to, weight).y as int, to.y as int),
        weight@ == 0 ==> from.nudged(to, weight) == from,
        weight@ == BLEND_ONE ==> from.nudged(to, weight) == to,
{
    lemma_nudge_stays_between(from.x, to.x, weight);
    lemma_nudge_stays_between(from.y, to.y, weight);
}

/// One smoothing step keeps a velocity within the speed that bounds both
/// the previous velocity and the target.
pub proof fn lemma_nudge_stays_in_disc(from: Vec2, to: Vec2, weight: Blend, radius: int)
    requires
        weight.wf(),
        length_sq(from) <= radius * radius,
        length_sq(to) <= radius * radius,
    ensures
        length_sq(from.nudged(to, weight)) <= radius * radius,
{
    lemma_nudge_stays_between(from.x, to.x, weight);
    lemma_nudge_stays_between(from.y, to.y, weight);
    crate::units::lemma_blend_stays_in_disc(from, to, weight@, radius);
}

} // verus!
