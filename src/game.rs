//! The game-level states and the marker kinds that gameplay systems attach
//! to entities.
use vstd::prelude::*;

verus! {

/// The phase that the game is in.
#[derive(Clone, Copy, Debug, PartialEq, Eq, Hash, Structural)]
pub enum GameState {
    Loading,
    Playing,
    Hyperdrive,
    Home,
    GameOver,
    Retire,
}

impl Default for GameState {
    /// A game starts by loading its assets.
    fn default() -> (r: GameState)
        ensures
            r == GameState::Loading,
    {
        GameState::Loading
    }
}

/// Who fired a bullet.
#[derive(Clone, Copy, Debug, PartialEq, Eq, Structural)]
pub enum Bullet {
    Player,
    Enemy,
}

/// What a staged cover scene shows.
#[derive(Clone, Copy, Debug, PartialEq, Eq, Structural)]
pub enum Staged {
    Player,
    Cargo,
    Bullet,
}

/// Marks the home station of the current system.
#[derive(Clone, Copy, Debug, PartialEq, Eq, Structural)]
pub struct HomeInSystem;

/// Marks an entity that a jammer can jam.
#[derive(Clone, Copy, Debug, PartialEq, Eq, Structural)]
pub struct Jammable;

/// Marks an entity that a jammer currently jams.
#[derive(Clone, Copy, Debug, PartialEq, Eq, Structural)]
pub struct Jammed;

/// Marks the entity that plays the music.
#[derive(Clone, Copy, Debug, PartialEq, Eq, Structural)]
pub struct Music;

/// Marks the region of the system that the player is in.
#[derive(Clone, Copy, Debug, PartialEq, Eq, Structural)]
pub struct CurrentSystemRegion;

/// Marks an entity that belongs to the local region and leaves with it.
#[derive(Clone, Copy, Debug, PartialEq, Eq, Structural)]
pub struct Regional;

/// The number of cargo ships that a system holds.
#[derive(Clone, Copy, Debug, PartialEq, Eq, Structural)]
pub struct CargoShipsInSystem(pub usize);

/// The number of asteroid fields that a system holds.
#[derive(Clone, Copy, Debug, PartialEq, Eq, Structural)]
pub struct AsteroidsInSystem(pub usize);

} // verus!
