//! Marker and data components attached to entities of the world.

use vstd::prelude::*;

verus! {

/// Marks the camera that is used before a player exists.
#[derive(Debug, Clone, Copy, Default, PartialEq, Eq, Structural)]
pub struct TempCamera;

/// Marks the entity that the player controls.
#[derive(Debug, Clone, Copy, Default, PartialEq, Eq, Structural)]
pub struct Player;

/// An item that can be used up: how many uses it has left.
#[derive(Debug, Clone, Copy, Default, PartialEq, Eq, Structural)]
pub struct Consumable {
    pub uses: u32,
}

} // verus!
