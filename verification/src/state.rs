//! The state of the game and how player input moves it.

use vstd::prelude::*;
use crate::registry::GameRegistry;

verus! {

/// Where the game is: in the main menu, being played or paused.
#[derive(Debug, Clone, Copy, PartialEq, Eq, Structural)]
pub enum GameState {
    MainMenu,
    Playing,
    Paused,
}

impl Default for GameState {
    fn default() -> (r: Self)
        ensures
            r == GameState::MainMenu,
    {
        GameState::MainMenu
    }
}

/// How the window treats the mouse cursor.
#[derive(Debug, Clone, Copy, PartialEq, Eq, Structural)]
pub enum MouseMode {
    /// The cursor is left as the system shows it.
    Noop,
    /// The cursor is hidden and held in the window.
    LockedInvisible,
}

/// The state after the pause key and the cursor mode to switch to, if any.
pub open spec fn pause_outcome(state: GameState, pause_pressed: bool) -> (GameState, Option<MouseMode>) {
    if !pause_pressed {
        (state, None)
    } else {
        match state {
            GameState::Playing => (GameState::Paused, Some(MouseMode::Noop)),
            GameState::Paused => (GameState::Playing, Some(MouseMode::LockedInvisible)),
            GameState::MainMenu => (GameState::MainMenu, None),
        }
    }
}

impl GameState {
    pub fn is_playing(&self) -> (r: bool)
        ensures
            r == (*self == GameState::Playing),
    {
        matches!(self, GameState::Playing)
    }

    pub fn is_main_menu(&self) -> (r: bool)
        ensures
            r == (*self == GameState::MainMenu),
    {
        matches!(self, GameState::MainMenu)
    }

    /// What the pause key does: it pauses a game being played and resumes a
    /// paused one, freeing or capturing the cursor; in the main menu it does
    /// nothing.
    pub fn on_pause_input(self, pause_pressed: bool) -> (r: (GameState, Option<MouseMode>))
        ensures
            r == pause_outcome(self, pause_pressed),
            !pause_pressed ==> r == (self, None::<MouseMode>),
    {
        if !pause_pressed {
            return (self, None);
        }
        match self {
            GameState::Playing => (GameState::Paused, Some(MouseMode::Noop)),
            GameState::Paused => (GameState::Playing, Some(MouseMode::LockedInvisible)),
            GameState::MainMenu => (GameState::MainMenu, None),
        }
    }
}

/// Pausing twice brings the game back to where it was, and the main menu is
/// left alone by the pause key.
pub proof fn lemma_pause_twice(state: GameState)
    ensures
        pause_outcome(pause_outcome(state, true).0, true).0 == state,
        state == GameState::MainMenu ==> pause_outcome(state, true) == (state, None::<MouseMode>),
        state == GameState::Playing ==> pause_outcome(pause_outcome(state, true).0, true).1 == Some(
            MouseMode::LockedInvisible,
        ),
{
}

/// Play starts once the state is `Playing` and the menu camera is still
/// there: the camera is taken out to be removed from the world. Otherwise
/// nothing happens.
pub fn begin_play<E>(state: GameState, menu_camera: &mut Option<E>) -> (r: Option<E>)
    ensures
        state == GameState::Playing ==> r == *old(menu_camera) && *final(menu_camera) is None,
        state != GameState::Playing ==> r is None && *final(menu_camera) == *old(menu_camera),
{
    if !state.is_playing() {
        return None;
    }
    menu_camera.take()
}

/// The game's shared data: the registry of item definitions.
#[derive(Debug, Default)]
pub struct GameContext {
    pub registry: GameRegistry,
}

/// Without the pause key nothing happens, in every state: the state stays as
/// it is and the cursor is left alone.
pub proof fn lemma_no_key_no_change(state: GameState)
    ensures
        pause_outcome(state, false) == (state, None::<MouseMode>),
{
}

} // verus!
