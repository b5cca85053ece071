//! The states that drive the application and the game's turn cycle.

use vstd::prelude::*;

verus! {

/// The states of the whole application: loading, playing, leaving.
#[derive(Debug, Clone, Copy, PartialEq, Eq, Structural, Hash)]
pub enum AppState {
    /// The assets are loaded and the game's resources are created.
    LoadingAssets,
    /// The game runs.
    InGame,
    /// The application is about to exit.
    Finished,
}

impl Default for AppState {
    fn default() -> (state: Self)
        ensures
            state == AppState::LoadingAssets,
    {
        AppState::LoadingAssets
    }
}

/// Ends the application where the key for leaving is pressed: the state that
/// comes next is `Finished`, and the result says that the application is to
/// exit. Nothing changes where the key is not pressed.
pub fn check_app_exit_via_keys(exit_pressed: bool, app_next_state: &mut AppState) -> (exiting: bool)
    ensures
        exiting == exit_pressed,
        *final(app_next_state) == if exit_pressed {
            AppState::Finished
        } else {
            *old(app_next_state)
        },
{
    if exit_pressed {
        *app_next_state = AppState::Finished;
    }
    exit_pressed
}

/// The states of the game itself, from the creation of a map to its removal.
///
/// A game goes from `Uninitialized` to `InitializingMap`, on to
/// `InitializingActors` and to `PlayerTurn`. From then on `PlayerTurn` and
/// `EnemyTurn` take turns, until the player stands on an exit in its turn:
/// that leads to `CleanupActors`, to `CleanupMap`, and back to
/// `InitializingMap`.
#[derive(Debug, Clone, Copy, PartialEq, Eq, Structural, Hash)]
pub enum GameState {
    /// Before the game runs.
    Uninitialized,
    /// The map is created.
    InitializingMap,
    /// The map's actors are placed.
    InitializingActors,
    /// The player can move or skip.
    PlayerTurn,
    /// The mobs move.
    EnemyTurn,
    /// The map is removed.
    CleanupMap,
    /// The map's mobs are removed.
    CleanupActors,
}

impl Default for GameState {
    fn default() -> (state: Self)
        ensures
            state == GameState::Uninitialized,
    {
        GameState::Uninitialized
    }
}

/// What can end a state of the game.
#[derive(Debug, Clone, Copy, PartialEq, Eq, Structural)]
pub enum GameEvent {
    /// The game starts.
    GameStarted,
    /// The map and its tiles are complete.
    MapInitialized,
    /// The player and the mobs are placed.
    ActorsInitialized,
    /// The player has moved or skipped.
    PlayerActed,
    /// The player stands on an exit.
    ExitReached,
    /// All mobs had their turn.
    EnemiesActed,
    /// All mobs are removed.
    ActorsCleanedUp,
    /// The map is removed.
    MapCleanedUp,
}

impl GameState {
    /// The state that follows this one on `event`, or `None` where the event
    /// has no meaning in this state.
    pub open spec fn after(self, event: GameEvent) -> Option<GameState> {
        match (self, event) {
            (GameState::Uninitialized, GameEvent::GameStarted) => Some(GameState::InitializingMap),
            (GameState::InitializingMap, GameEvent::MapInitialized) => Some(
                GameState::InitializingActors,
            ),
            (GameState::InitializingActors, GameEvent::ActorsInitialized) => Some(
                GameState::PlayerTurn,
            ),
            (GameState::PlayerTurn, GameEvent::PlayerActed) => Some(GameState::EnemyTurn),
            (GameState::PlayerTurn, GameEvent::ExitReached) => Some(GameState::CleanupActors),
            (GameState::EnemyTurn, GameEvent::EnemiesActed) => Some(GameState::PlayerTurn),
            (GameState::CleanupActors, GameEvent::ActorsCleanedUp) => Some(GameState::CleanupMap),
            (GameState::CleanupMap, GameEvent::MapCleanedUp) => Some(GameState::InitializingMap),
            _ => None,
        }
    }

    /// The state that follows this one on `event`, or `None` where the event
    /// has no meaning in this state.
    pub fn next(self, event: GameEvent) -> (next: Option<GameState>)
        ensures
            next == self.after(event),
    {
        match (self, event) {
            (GameState::Uninitialized, GameEvent::GameStarted) => Some(GameState::InitializingMap),
            (GameState::InitializingMap, GameEvent::MapInitialized) => Some(
                GameState::InitializingActors,
            ),
            (GameState::InitializingActors, GameEvent::ActorsInitialized) => Some(
                GameState::PlayerTurn,
            ),
            (GameState::PlayerTurn, GameEvent::PlayerActed) => Some(GameState::EnemyTurn),
            (GameState::PlayerTurn, GameEvent::ExitReached) => Some(GameState::CleanupActors),
            (GameState::EnemyTurn, GameEvent::EnemiesActed) => Some(GameState::PlayerTurn),
            (GameState::CleanupActors, GameEvent::ActorsCleanedUp) => Some(GameState::CleanupMap),
            (GameState::CleanupMap, GameEvent::MapCleanedUp) => Some(GameState::InitializingMap),
            _ => None,
        }
    }
}

/// Whether the game runs as released or with the developer's overlays.
#[derive(Debug, Clone, Copy, PartialEq, Eq, Structural, Hash)]
pub enum ExecutionMode {
    /// The mode intended to be played.
    Release,
    /// The mode with the debugging overlays.
    Debug,
}

impl Default for ExecutionMode {
    fn default() -> (mode: Self)
        ensures
            mode == ExecutionMode::Release,
    {
        ExecutionMode::Release
    }
}

impl ExecutionMode {
    /// The other mode.
    pub open spec fn flipped(self) -> ExecutionMode {
        match self {
            ExecutionMode::Release => ExecutionMode::Debug,
            ExecutionMode::Debug => ExecutionMode::Release,
        }
    }

    /// Flips the current mode: `Debug` becomes `Release` and `Release` becomes `Debug`.
    pub fn flip(&mut self)
        ensures
            *final(self) == old(self).flipped(),
    {
        *self = match *self {
            ExecutionMode::Release => ExecutionMode::Debug,
            ExecutionMode::Debug => ExecutionMode::Release,
        }
    }
}

} // verus!
