//! The keyboard as the engine reports it: which keys are held, and which
//! went down in the current frame.

use bevy::input::keyboard::KeyCode;
use bevy::input::ButtonInput;
use std::hash::Hash;
use vstd::prelude::*;

verus! {

/// The engine's key codes, which Verus carries without looking inside.
#[verifier::external_type_specification]
#[verifier::external_body]
pub struct ExKeyCode(KeyCode);

/// The engine's record of button states, which Verus carries without looking
/// inside.
#[verifier::external_type_specification]
#[verifier::external_body]
#[verifier::reject_recursive_types(T)]
pub struct ExButtonInput<T: Copy + Eq + Hash + Send + Sync + 'static>(ButtonInput<T>);

/// The keys that are held: what `ButtonInput` keeps as pressed.
pub uninterp spec fn held_keys(input: ButtonInput<KeyCode>) -> Set<KeyCode>;

/// The keys that went down in the current frame: what `ButtonInput` keeps as
/// just pressed.
pub uninterp spec fn struck_keys(input: ButtonInput<KeyCode>) -> Set<KeyCode>;

/// Whether any of the keys bound to one direction is held.
pub open spec fn any_held(input: ButtonInput<KeyCode>, keys: Seq<KeyCode>) -> bool {
    exists|i: int| 0 <= i < keys.len() && held_keys(input).contains(#[trigger] keys[i])
}

/// Whether a key went down in the current frame.
pub open spec fn struck(input: ButtonInput<KeyCode>, key: KeyCode) -> bool {
    struck_keys(input).contains(key)
}

/// Calls `ButtonInput::any_pressed`, which is true exactly when one of the
/// given keys is among the pressed ones.
#[verifier::external_body]
pub(crate) fn any_pressed(input: &ButtonInput<KeyCode>, keys: &[KeyCode]) -> (r: bool)
    ensures
        r == (exists|i: int|
            0 <= i < keys@.len() && held_keys(*input).contains(#[trigger] keys@[i])),
{
    input.any_pressed(keys.to_owned())
}

/// Calls `ButtonInput::just_pressed`, which is true exactly when the key is
/// among the just pressed ones.
#[verifier::external_body]
pub(crate) fn just_pressed(input: &ButtonInput<KeyCode>, key: KeyCode) -> (r: bool)
    ensures
        r == struck_keys(*input).contains(key),
{
    input.just_pressed(key)
}

} // verus!
