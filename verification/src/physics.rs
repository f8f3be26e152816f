//! What a moving body carries: its acceleration profile, its damping, and
//! the actions and collision layers that movement speaks of.

use crate::units::Vec2;
use vstd::prelude::*;

verus! {

/// An action that the input sampler asks for.
#[derive(Clone, Copy, Debug, PartialEq, Eq, Structural)]
pub enum MovementAction {
    Move(Vec2),
    Jump,
}

/// The collision layers of the game.
#[derive(Clone, Copy, Debug, PartialEq, Eq, Structural)]
pub enum PhysicsLayers {
    World,
    Actor,
    Interactable,
    Weapon,
    No,
}

/// The acceleration used for character movement: the rate, in thousandths
/// per second, at which the velocity approaches its target, and the speed
/// that the target has at full intent.
#[derive(Clone, Copy, Debug, PartialEq, Eq, Structural)]
pub struct MovementAcceleration {
    pub acceleration: i32,
    pub max_speed: i32,
}

/// The rate, in thousandths per second, at which a body without intent
/// slides to a stop.
#[derive(Clone, Copy, Debug, PartialEq, Eq, Structural)]
pub struct Damping(pub i32);

/// The components needed for character movement.
#[derive(Clone, Copy, Debug, PartialEq, Eq, Structural)]
pub struct MovementBundle {
    acceleration: MovementAcceleration,
    damping: Damping,
}

impl MovementBundle {
    /// The acceleration profile of the bundle.
    pub closed spec fn profile(self) -> MovementAcceleration {
        self.acceleration
    }

    /// The damping of the bundle.
    pub closed spec fn slowdown(self) -> Damping {
        self.damping
    }

    pub fn new(max_speed: i32, acceleration: i32, damping: i32) -> (bundle: Self)
        ensures
            bundle.profile() == (MovementAcceleration { acceleration, max_speed }),
            bundle.slowdown() == Damping(damping),
    {
        Self { acceleration: MovementAcceleration { max_speed, acceleration }, damping: Damping(damping) }
    }

    /// The acceleration profile.
    pub fn acceleration(&self) -> (a: MovementAcceleration)
        ensures
            a == self.profile(),
    {
        self.acceleration
    }

    /// The damping.
    pub fn damping(&self) -> (d: Damping)
        ensures
            d == self.slowdown(),
    {
        self.damping
    }
}

impl Default for MovementBundle {
    /// Five hundred units per second at most, approached at rate one, damped
    /// at rate eighteen.
    fn default() -> (bundle: Self)
        ensures
            bundle.profile() == (MovementAcceleration { acceleration: 1_000, max_speed: 500_000 }),
            bundle.slowdown() == Damping(18_000),
    {
        Self::new(500_000, 1_000, 18_000)
    }
}

} // verus!
