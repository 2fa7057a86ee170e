//! The state of the 3D variant of the game.

use vstd::prelude::*;

verus! {

/// Where the 3D game is: in the main menu or being played.
#[derive(Debug, Clone, Copy, PartialEq, Eq, Structural)]
pub enum GameState {
    MainMenu,
    Playing,
}

impl Default for GameState {
    fn default() -> (r: Self)
        ensures
            r == GameState::MainMenu,
    {
        GameState::MainMenu
    }
}

impl GameState {
    pub fn is_playing(&self) -> (r: bool)
        ensures
            r == (*self == GameState::Playing),
    {
        matches!(self, GameState::Playing)
    }
}

/// Marks the camera that is used before a player exists.
#[derive(Debug, Clone, Copy, Default, PartialEq, Eq, Structural)]
pub struct TempCamera;

/// The shared data of the 3D game, of which it has none yet.
#[derive(Debug, Clone, Copy, Default, PartialEq, Eq, Structural)]
pub struct GameContext;

/// Sets up the shared data of the 3D game.
pub fn init() -> (r: GameContext)
    ensures
        r == GameContext,
{
    GameContext
}

} // verus!
