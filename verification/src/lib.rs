//! Core of a deterministic turn-based tactical simulation: an integer grid
//! with coordinate conversion, selection-gated movement with collision
//! avoidance, a two-phase turn state machine, and a greedy pursuit policy for
//! enemy units.
//!
//! The crate holds only the simulation rules, on plain state structs; input
//! handling and rendering live with the caller, which feeds the core one
//! resolved grid click and one time delta per tick.

use vstd::prelude::*;

pub mod components;
pub mod constants;
pub mod resources;
pub mod systems;

verus! {

/// Overall application flow: the menu screen, then active play.
#[derive(Debug, Clone, Copy, PartialEq, Eq, Structural)]
pub enum AppState {
    MainMenu,
    GamePlay,
}

impl Default for AppState {
    /// The application starts on the main menu.
    fn default() -> (r: Self)
        ensures
            r == AppState::MainMenu,
    {
        AppState::MainMenu
    }
}

/// Whose turn it is: the two states of the turn state machine.
#[derive(Debug, Clone, Copy, PartialEq, Eq, Structural)]
pub enum TurnState {
    PlayerTurn,
    EnemyTurn,
}

impl Default for TurnState {
    /// A simulation begins on the player's turn.
    fn default() -> (r: Self)
        ensures
            r == TurnState::PlayerTurn,
    {
        TurnState::PlayerTurn
    }
}

impl TurnState {
    /// On-screen label for the current phase.
    pub fn label(&self) -> (s: &'static str)
        ensures
            *self == TurnState::PlayerTurn ==> s@ == "Player Turn"@,
            *self == TurnState::EnemyTurn ==> s@ == "Enemy Turn"@,
    {
        match self {
            TurnState::PlayerTurn => "Player Turn",
            TurnState::EnemyTurn => "Enemy Turn",
        }
    }
}

} // verus!
