//! The camera controller, which follows the player and steps its zoom, and
//! the depth sorter, which orders drawing by world height.

use crate::input::{just_pressed, struck};
use crate::units::{lemma_blend_of_equals, trunc_div, Blend, Vec2, Vec3};
use crate::utils::{decay_exponent, decay_product, SmoothNudge};
use bevy::input::keyboard::KeyCode;
use bevy::input::ButtonInput;
use vstd::prelude::*;

verus! {

/// The smallest zoom target: one hundredth.
pub const ZOOM_MIN: i32 = 10;

/// The largest zoom target: ten.
pub const ZOOM_MAX: i32 = 10_000;

/// The rate, in thousandths per second, at which the camera's position and
/// its projection scale approach their targets: five per second.
pub const FOLLOW_RATE: i32 = 5_000;

/// The camera's state: the position it follows, its zoom target, and whether
/// it follows at all.
#[derive(Clone, Copy, Debug, PartialEq, Eq, Structural)]
pub struct PrimaryCamera(pub Vec2, pub Vec3, pub bool);

/// What the depth sorter adds to an entity's height: a priority and an
/// offset, both in thousandths.
#[derive(Clone, Copy, Debug, PartialEq, Eq, Structural)]
pub struct YSorted {
    priority: i32,
    offset: i32,
}

/// One depth-sorted entity: its world height, its sorting terms, and the
/// depth derived from them, in millionths.
#[derive(Clone, Copy, Debug, PartialEq, Eq, Structural)]
pub struct DepthSorted {
    pub world_y: i32,
    pub sorted: YSorted,
    pub depth: i64,
}

impl YSorted {
    /// The priority term.
    pub closed spec fn rank(self) -> int {
        self.priority as int
    }

    /// The offset term.
    pub closed spec fn shift(self) -> int {
        self.offset as int
    }

    pub fn new(priority: i32, offset: i32) -> (s: Self)
        ensures
            s.rank() == priority,
            s.shift() == offset,
    {
        YSorted { priority, offset }
    }

    /// The depth of an entity at height `world_y`, in millionths: the
    /// thousandth part of the sum of the negated height, the priority and the
    /// offset.
    pub fn depth(&self, world_y: i32) -> (d: i64)
        ensures
            d == depth_of(world_y as int, *self),
    {
        -(world_y as i64) + self.priority as i64 + self.offset as i64
    }
}

impl Default for YSorted {
    fn default() -> (s: Self)
        ensures
            s.rank() == 0,
            s.shift() == 0,
    {
        YSorted { priority: 0, offset: 0 }
    }
}

impl Default for PrimaryCamera {
    fn default() -> (c: Self)
        ensures
            c == PrimaryCamera(Vec2 { x: 0, y: 0 }, Vec3 { x: 0, y: 0, z: 0 }, false),
    {
        PrimaryCamera(Vec2 { x: 0, y: 0 }, Vec3 { x: 0, y: 0, z: 0 }, false)
    }
}

/// The depth of an entity, in millionths of a unit. Heights and sorting terms
/// count thousandths, and the depth is a thousandth of their sum, so in
/// millionths it is that sum itself.
pub open spec fn depth_of(world_y: int, sorted: YSorted) -> int {
    -world_y + sorted.rank() + sorted.shift()
}

/// An entity with its depth derived anew.
pub open spec fn resorted(entity: DepthSorted) -> DepthSorted {
    DepthSorted { depth: depth_of(entity.world_y as int, entity.sorted) as i64, ..entity }
}

/// One pass of the depth sorter over all entities.
pub open spec fn sorted_pass(entities: Seq<DepthSorted>) -> Seq<DepthSorted> {
    Seq::new(entities.len(), |i: int| resorted(entities[i]))
}

/// `value` held within `[low, high]`.
pub open spec fn clamped(value: int, low: int, high: int) -> int {
    if value < low {
        low
    } else if value > high {
        high
    } else {
        value
    }
}

/// A zoom target after the keys of one frame: seven tenths of it on zooming
/// in, thirteen tenths on zooming out, both if both keys went down, each
/// rounded toward zero, and the result held within the zoom limits.
pub open spec fn zoomed(target: int, zoom_in: bool, zoom_out: bool) -> int {
    let nearer = if zoom_in {
        trunc_div(target * 7, 10)
    } else {
        target
    };
    let farther = if zoom_out {
        trunc_div(nearer * 13, 10)
    } else {
        nearer
    };
    clamped(farther, ZOOM_MIN as int, ZOOM_MAX as int)
}

/// The camera's position after one frame of following: the plane
/// coordinates move toward the followed position, the depth stays; a camera
/// that does not follow stays where it is.
pub open spec fn followed(position: Vec3, camera: PrimaryCamera, weight: Blend) -> Vec3 {
    if camera.2 {
        Vec3 {
            x: position.x.nudged(camera.0.x, weight),
            y: position.y.nudged(camera.0.y, weight),
            z: position.z,
        }
    } else {
        position
    }
}

/// The exponent of one smoothing step of the camera over `delta_micros`
/// microseconds, in billionths.
pub fn follow_exponent(delta_micros: u32) -> (e: u64)
    ensures
        e == decay_product(FOLLOW_RATE as int, delta_micros as int),
{
    decay_exponent(FOLLOW_RATE, delta_micros)
}

fn tenths(value: i64, count: i64) -> (r: i64)
    requires
        -0x1_0000_0000 <= value <= 0x1_0000_0000,
        0 <= count <= 13,
    ensures
        r == trunc_div(value * count, 10),
        count <= 10 ==> -0x1_0000_0000 <= r <= 0x1_0000_0000,
{
    assert(-0x1_0000_0000 * 13 <= value * count <= 0x1_0000_0000 * 13 && (count <= 10 ==> -0x1_0000_0000
        * 10 <= value * count <= 0x1_0000_0000 * 10)) by (nonlinear_arith)
        requires
            -0x1_0000_0000 <= value <= 0x1_0000_0000,
            0 <= count <= 13,
    ;
    let p: i64 = value * count;
    if p >= 0 {
        p / 10
    } else {
        -((-p) / 10)
    }
}

/// One zoom target after the keys of one frame.
pub fn zoom_step(target: i32, zoom_in: bool, zoom_out: bool) -> (r: i32)
    ensures
        r == zoomed(target as int, zoom_in, zoom_out),
        ZOOM_MIN <= r <= ZOOM_MAX,
{
    let nearer: i64 = if zoom_in {
        tenths(target as i64, 7)
    } else {
        target as i64
    };
    let farther: i64 = if zoom_out {
        tenths(nearer, 13)
    } else {
        nearer
    };
    if farther < ZOOM_MIN as i64 {
        ZOOM_MIN
    } else if farther > ZOOM_MAX as i64 {
        ZOOM_MAX
    } else {
        farther as i32
    }
}

/// One frame of the zoom and toggle keys, each of which acts in the frame in
/// which it went down. The zoom target is stepped and held within its
/// limits, the follow flag flips on `toggle`, and the projection scale moves
/// toward the zoom target by `weight`.
pub fn zoom_camera(
    camera: &mut PrimaryCamera,
    scale: &mut i32,
    kb: &ButtonInput<KeyCode>,
    zoom_in: KeyCode,
    zoom_out: KeyCode,
    toggle: KeyCode,
    weight: Blend,
)
    ensures
        final(camera).0 == old(camera).0,
        final(camera).1 == (Vec3 {
            x: zoomed(old(camera).1.x as int, struck(*kb, zoom_in), struck(*kb, zoom_out)) as i32,
            y: zoomed(old(camera).1.y as int, struck(*kb, zoom_in), struck(*kb, zoom_out)) as i32,
            z: zoomed(old(camera).1.z as int, struck(*kb, zoom_in), struck(*kb, zoom_out)) as i32,
        }),
        final(camera).2 == (old(camera).2 != struck(*kb, toggle)),
        *final(scale) == old(scale).nudged(final(camera).1.x, weight),
{
    let nearer = just_pressed(kb, zoom_in);
    let farther = just_pressed(kb, zoom_out);
    let target = camera.1;
    camera.1 = Vec3 {
        x: zoom_step(target.x, nearer, farther),
        y: zoom_step(target.y, nearer, farther),
        z: zoom_step(target.z, nearer, farther),
    };
    if just_pressed(kb, toggle) {
        camera.2 = !camera.2;
    }
    let goal = camera.1.x;
    scale.smooth_nudge(&goal, weight);
}

/// One frame of following: moves the camera's position toward the followed
/// one by `weight`, if the camera follows.
pub fn follow_player(position: &mut Vec3, camera: &PrimaryCamera, weight: Blend)
    ensures
        *final(position) == followed(*old(position), *camera, weight),
{
    if !camera.2 {
        return ;
    }
    let goal = Vec3 { x: camera.0.x, y: camera.0.y, z: position.z };
    proof {
        lemma_blend_of_equals(position.z as int, weight@);
    }
    position.smooth_nudge(&goal, weight);
}

/// The camera follows where the player stands in the plane.
pub fn update_target(camera: &mut PrimaryCamera, player: &Vec3)
    ensures
        *final(camera) == PrimaryCamera(
            Vec2 { x: player.x, y: player.y },
            old(camera).1,
            old(camera).2,
        ),
{
    camera.0 = Vec2 { x: player.x, y: player.y };
}

/// One pass of the depth sorter: every entity's depth is derived anew from
/// its height and its sorting terms.
pub fn y_sort_system(entities: &mut Vec<DepthSorted>)
    ensures
        final(entities)@ == sorted_pass(old(entities)@),
{
    let mut i: usize = 0;
    while i < entities.len()
        invariant
            i <= entities.len(),
            entities.len() == old(entities).len(),
            forall|k: int| 0 <= k < i ==> #[trigger] entities@[k] == resorted(old(entities)@[k]),
            forall|k: int| i <= k < entities.len() ==> #[trigger] entities@[k] == old(entities)@[k],
        decreases entities.len() - i,
    {
        let entity = entities[i];
        let renewed = DepthSorted { depth: entity.sorted.depth(entity.world_y), ..entity };
        entities.set(i, renewed);
        i += 1;
    }
}

/// The depth sorter is idempotent: a second pass over unchanged entities
/// changes nothing, and the depth depends on nothing but the height and the
/// sorting terms.
pub proof fn lemma_depth_sort_is_idempotent(entities: Seq<DepthSorted>)
    ensures
        sorted_pass(sorted_pass(entities)) == sorted_pass(entities),
        forall|k: int|
            0 <= k < entities.len() ==> (#[trigger] sorted_pass(entities)[k]).depth == depth_of(
                entities[k].world_y as int,
                entities[k].sorted,
            ),
{
    assert forall|k: int| 0 <= k < entities.len() implies (#[trigger] sorted_pass(
        entities,
    )[k]).depth == depth_of(entities[k].world_y as int, entities[k].sorted) by {
        lemma_depth_fits(entities[k].world_y, entities[k].sorted);
    }
    assert(sorted_pass(sorted_pass(entities)) =~= sorted_pass(entities));
}

/// Every depth fits the integer that holds it.
pub proof fn lemma_depth_fits(world_y: i32, sorted: YSorted)
    ensures
        i64::MIN <= depth_of(world_y as int, sorted) <= i64::MAX,
{
}

/// The zoom target stays within its limits whatever it was, and a value
/// within them that no key touches stays what it is.
pub proof fn lemma_zoom_stays_within_limits(target: int, zoom_in: bool, zoom_out: bool)
    ensures
        ZOOM_MIN <= zoomed(target, zoom_in, zoom_out) <= ZOOM_MAX,
        !zoom_in && !zoom_out && ZOOM_MIN <= target <= ZOOM_MAX ==> zoomed(target, zoom_in, zoom_out)
            == target,
        zoom_in && !zoom_out && target >= 0 ==> zoomed(target, zoom_in, zoom_out) == clamped(
            target * 7 / 10,
            ZOOM_MIN as int,
            ZOOM_MAX as int,
        ),
{
}

} // verus!
