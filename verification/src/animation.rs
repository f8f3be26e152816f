//! The animation driver: which clip a velocity calls for, which way the
//! sprite faces, and how fast the clip plays.

use crate::player::{slide_speed_squared, SLIDE_SPEED};
use crate::units::{length_sq, length_squared, Vec2};
use vstd::prelude::*;

verus! {

/// The speed along an axis, in thousandths per second, below which the body
/// counts as not moving along it: two units per second.
pub const DEADZONE: i32 = 2_000;

/// The horizontal speed above which the sprite turns to face its motion: one
/// unit per second.
pub const FACING_DEADZONE: i32 = 1_000;

/// The five animation states.
#[derive(Clone, Copy, Debug, PartialEq, Eq, Structural)]
pub enum Clip {
    VerticalSlide,
    HorizontalSlide,
    VerticalWalk,
    HorizontalWalk,
    Idle,
}

/// How fast a clip plays. `Curve(e)` stands for the factor one tenth to the
/// power of `e` millionths.
#[derive(Clone, Copy, Debug, PartialEq, Eq, Structural)]
pub enum Playback {
    Full,
    Curve(u32),
}

/// What the driver asks of one sprite: the clip to switch to, if it is not
/// the one playing; the horizontal scale, whose sign is the facing; and the
/// playback speed.
#[derive(Clone, Copy, Debug, PartialEq, Eq, Structural)]
pub struct SpriteUpdate {
    pub clip: Option<Clip>,
    pub scale_x: i32,
    pub playback: Playback,
}

/// The body is faster than the sliding speed.
pub open spec fn is_fast(v: Vec2) -> bool {
    length_sq(v) > SLIDE_SPEED * SLIDE_SPEED
}

/// The vertical clips' condition: the vertical speed reaches the deadzone.
pub open spec fn moves_vertically(v: Vec2) -> bool {
    v.y >= DEADZONE
}

/// The horizontal clips' condition: the horizontal speed reaches the
/// deadzone on either side, or the vertical speed does on the opposite side.
pub open spec fn moves_horizontally(v: Vec2) -> bool {
    v.x >= DEADZONE || v.x <= -DEADZONE || v.y <= -DEADZONE
}

/// The clip for a velocity: the first rule that applies, in this order.
pub open spec fn clip_for(v: Vec2) -> Clip {
    if moves_vertically(v) && is_fast(v) {
        Clip::VerticalSlide
    } else if moves_horizontally(v) && is_fast(v) {
        Clip::HorizontalSlide
    } else if moves_vertically(v) {
        Clip::VerticalWalk
    } else if moves_horizontally(v) {
        Clip::HorizontalWalk
    } else {
        Clip::Idle
    }
}

/// The name under which the animation library knows a clip.
pub open spec fn name_of(clip: Clip) -> Seq<char> {
    match clip {
        Clip::VerticalSlide => "vertical_slide_player"@,
        Clip::HorizontalSlide => "horizontal_slide_player"@,
        Clip::VerticalWalk => "vertical_walk_player"@,
        Clip::HorizontalWalk => "horizontal_walk_player"@,
        Clip::Idle => "idle_player"@,
    }
}

/// The clip to switch to: the wanted one, unless it is playing already.
pub open spec fn switch_to(playing: Option<Clip>, wanted: Clip) -> Option<Clip> {
    if playing == Some(wanted) {
        None
    } else {
        Some(wanted)
    }
}

/// The horizontal scale after the facing rule: its size with the sign of the
/// horizontal speed where that exceeds the facing deadzone, else unchanged.
pub open spec fn faced(velocity_x: int, scale_x: int) -> int {
    let size = if scale_x < 0 {
        -scale_x
    } else {
        scale_x
    };
    if velocity_x > FACING_DEADZONE {
        size
    } else if velocity_x < -FACING_DEADZONE {
        -size
    } else {
        scale_x
    }
}

/// The eighth power of the ratio of the speed to the sliding speed, in
/// millionths, rounded down at each squaring.
pub open spec fn curve_exponent(v: Vec2) -> int {
    let second = length_sq(v) * 1_000_000 / (SLIDE_SPEED * SLIDE_SPEED);
    let fourth = second * second / 1_000_000;
    fourth * fourth / 1_000_000
}

/// The playback speed for a velocity: full above the sliding speed, on the
/// curve up to it.
pub open spec fn playback_for(v: Vec2) -> Playback {
    if is_fast(v) {
        Playback::Full
    } else {
        Playback::Curve(curve_exponent(v) as u32)
    }
}

/// The clip that a velocity calls for.
pub fn classify(velocity: Vec2) -> (clip: Clip)
    ensures
        clip == clip_for(velocity),
{
    let fast = length_squared(velocity) > slide_speed_squared();
    let vertical = velocity.y >= DEADZONE;
    let horizontal = velocity.x >= DEADZONE || velocity.x <= -DEADZONE || velocity.y <= -DEADZONE;
    if vertical && fast {
        Clip::VerticalSlide
    } else if horizontal && fast {
        Clip::HorizontalSlide
    } else if vertical {
        Clip::VerticalWalk
    } else if horizontal {
        Clip::HorizontalWalk
    } else {
        Clip::Idle
    }
}

/// The name under which the animation library knows a clip.
pub fn clip_name(clip: Clip) -> (name: &'static str)
    ensures
        name@ == name_of(clip),
{
    match clip {
        Clip::VerticalSlide => "vertical_slide_player",
        Clip::HorizontalSlide => "horizontal_slide_player",
        Clip::VerticalWalk => "vertical_walk_player",
        Clip::HorizontalWalk => "horizontal_walk_player",
        Clip::Idle => "idle_player",
    }
}

/// The horizontal scale of the sprite after the facing rule.
pub fn facing(velocity_x: i32, scale_x: i32) -> (r: i32)
    requires
        scale_x > i32::MIN,
    ensures
        r == faced(velocity_x as int, scale_x as int),
{
    let size = if scale_x < 0 {
        -scale_x
    } else {
        scale_x
    };
    if velocity_x > FACING_DEADZONE {
        size
    } else if velocity_x < -FACING_DEADZONE {
        -size
    } else {
        scale_x
    }
}

/// The playback speed for a velocity.
pub fn playback(velocity: Vec2) -> (p: Playback)
    ensures
        p == playback_for(velocity),
{
    let slide = slide_speed_squared();
    assert(slide == 90_000_000_000);
    let square = length_squared(velocity);
    if square > slide {
        Playback::Full
    } else {
        let second: u64 = square * 1_000_000 / slide;
        assert(second * second <= 1_000_000 * 1_000_000) by (nonlinear_arith)
            requires
                0 <= second <= 1_000_000,
        ;
        let fourth: u64 = second * second / 1_000_000;
        assert(fourth * fourth <= 1_000_000 * 1_000_000) by (nonlinear_arith)
            requires
                0 <= fourth <= 1_000_000,
        ;
        Playback::Curve((fourth * fourth / 1_000_000) as u32)
    }
}

/// One frame of the animation driver for one sprite that follows a body
/// moving at `velocity`: `playing` is the clip that the sprite plays, if it
/// is one of the five, and `scale_x` its horizontal scale.
pub fn update_anim_speed(velocity: Vec2, playing: Option<Clip>, scale_x: i32) -> (update: SpriteUpdate)
    requires
        scale_x > i32::MIN,
    ensures
        update.clip == switch_to(playing, clip_for(velocity)),
        update.scale_x == faced(velocity.x as int, scale_x as int),
        update.playback == playback_for(velocity),
{
    let wanted = classify(velocity);
    let same = match playing {
        Some(clip) => clip == wanted,
        None => false,
    };
    SpriteUpdate {
        clip: if same {
            None
        } else {
            Some(wanted)
        },
        scale_x: facing(velocity.x, scale_x),
        playback: playback(velocity),
    }
}

/// Every velocity has exactly one clip, each clip under its own condition:
/// the slides need a speed strictly above the sliding speed, the vertical
/// clips a vertical speed of at least the deadzone, and they come before the
/// horizontal ones.
pub proof fn lemma_classification_is_total(v: Vec2)
    ensures
        clip_for(v) == Clip::VerticalSlide <==> v.y >= DEADZONE && length_sq(v) > SLIDE_SPEED
            * SLIDE_SPEED,
        clip_for(v) == Clip::HorizontalSlide <==> v.y < DEADZONE && moves_horizontally(v)
            && length_sq(v) > SLIDE_SPEED * SLIDE_SPEED,
        clip_for(v) == Clip::VerticalWalk <==> v.y >= DEADZONE && length_sq(v) <= SLIDE_SPEED
            * SLIDE_SPEED,
        clip_for(v) == Clip::HorizontalWalk <==> v.y < DEADZONE && moves_horizontally(v)
            && length_sq(v) <= SLIDE_SPEED * SLIDE_SPEED,
        clip_for(v) == Clip::Idle <==> -DEADZONE < v.x < DEADZONE && -DEADZONE < v.y < DEADZONE,
        length_sq(v) == SLIDE_SPEED * SLIDE_SPEED ==> clip_for(v) != Clip::VerticalSlide && clip_for(
            v,
        ) != Clip::HorizontalSlide,
{
}

/// Selecting a clip again changes nothing: once the wanted clip plays, the
/// driver asks for no switch.
pub proof fn lemma_reselecting_is_a_no_op(playing: Option<Clip>, wanted: Clip)
    ensures
        switch_to(Some(wanted), wanted) is None,
        switch_to(playing, wanted) matches Some(clip) ==> clip == wanted && switch_to(
            Some(clip),
            wanted,
        ) is None,
{
}

/// The facing rule keeps the size of the scale, and below the facing
/// deadzone the scale itself.
pub proof fn lemma_facing_keeps_size(velocity_x: int, scale_x: int)
    ensures
        faced(velocity_x, scale_x) == scale_x || faced(velocity_x, scale_x) == -scale_x,
        -FACING_DEADZONE <= velocity_x <= FACING_DEADZONE ==> faced(velocity_x, scale_x) == scale_x,
        velocity_x > FACING_DEADZONE ==> faced(velocity_x, scale_x) >= 0,
        velocity_x < -FACING_DEADZONE ==> faced(velocity_x, scale_x) <= 0,
{
}

} // verus!
