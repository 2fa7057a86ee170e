//! Game logic of the item, inventory and registry layer: item definitions,
//! the registry, inventory containers, the inventory grid and game state.

pub mod text;
pub mod item;
pub mod registry;
pub mod inventory;
pub mod container;
pub mod grid;
pub mod state;
pub mod components;
pub mod game_3d;
