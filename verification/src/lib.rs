//! Player movement, interaction and camera-follow core of a 2D top-down game.
//!
//! Every quantity is an integer. Lengths, positions and speeds count
//! thousandths of a world unit ([`units::UNIT`]); blend weights count
//! millionths ([`units::BLEND_ONE`]); time steps count microseconds. The
//! engine-facing shell converts at its edge and evaluates the exponential and
//! power functions that integers cannot express.
//!
//! The keyboard is read as the engine holds it ([`input`]), and the
//! interaction sensor keeps its ids in the engine's hash set ([`interact`]).
//! What those two do is stated, not proved; everything else is proved.

pub mod animation;
pub mod camera;
pub mod input;
pub mod interact;
pub mod physics;
pub mod player;
pub mod units;
pub mod utils;
