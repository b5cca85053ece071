//! The game as a whole: one map, the actors on it, the counters, and the
//! state of the turn cycle, advanced one step at a time.
//!
//! Each step runs only in the state that it belongs to and leaves the game
//! untouched in any other, so that the map and the actors change in no other
//! way than the turn cycle allows.

use crate::actors::ActorBundle;
use crate::actors::ActorKind;
use crate::actors::actors_after_step;
use crate::actors::in_lock_step;
use crate::actors::is_vacant;
use crate::actors::lemma_find_player;
use crate::actors::mobs_to_place;
use crate::actors::occupant_of;
use crate::actors::only_mobs;
use crate::actors::only_players;
use crate::actors::place_actors;
use crate::actors::player_place;
use crate::actors::positions_of;
use crate::actors::requested_kinds;
use crate::map::MapError;
use crate::map::MapPosition;
use crate::map::NoiseLevel;
use crate::map::same_ground;
use crate::map::TileGrid;
use crate::movement::can_step;
use crate::movement::Direction;
use crate::movement::has_acted;
use crate::movement::have_taken_turns;
use crate::movement::move_mob;
use crate::movement::stepped;
use crate::states::GameEvent;
use crate::states::GameState;
use crate::turn::check_if_player_exit_map;
use crate::turn::check_player_move_via_keys;
use crate::turn::check_player_skip_turn_via_keys;
use crate::turn::cleanup_map;
use crate::turn::counted_on;
use crate::turn::CurrentMapNumber;
use crate::turn::CurrentTurnNumber;
use crate::turn::despawn_mobs_on_current_map;
use crate::turn::increase_game_turn;
use crate::turn::initialize_map;
use crate::turn::is_error_of;
use crate::turn::is_map_of;
use crate::turn::map_comes;
use crate::turn::MapSettings;
use crate::turn::player_is_on_exit;
use crate::turn::players_among;
use vstd::prelude::*;

verus! {

/// What the player asks for in its turn.
#[derive(Clone, Copy, Debug, PartialEq, Eq, Structural)]
pub enum PlayerIntent {
    MoveLeft,
    MoveRight,
    MoveUp,
    MoveDown,
    Skip,
}

impl PlayerIntent {
    /// The direction of the step that the player asks for, if it asks for one.
    pub open spec fn direction(self) -> Option<Direction> {
        match self {
            PlayerIntent::MoveLeft => Some(Direction::Left),
            PlayerIntent::MoveRight => Some(Direction::Right),
            PlayerIntent::MoveUp => Some(Direction::Up),
            PlayerIntent::MoveDown => Some(Direction::Down),
            PlayerIntent::Skip => None,
        }
    }
}

/// The actor at `place` is a player, and the only one.
pub open spec fn is_the_player(actors: Seq<ActorBundle>, place: int) -> bool {
    &&& 0 <= place < actors.len()
    &&& forall|i: int|
        0 <= i < actors.len() ==> ((#[trigger] actors[i]).actor.kind == ActorKind::Player <==> i
            == place)
}

/// One of the actors is a player, and no other is.
pub open spec fn has_one_player(actors: Seq<ActorBundle>) -> bool {
    exists|place: int| is_the_player(actors, place)
}

/// The one player among the actors is where the player is looked for.
pub proof fn lemma_one_player_is_found(actors: Seq<ActorBundle>)
    requires
        has_one_player(actors),
    ensures
        player_place(actors) is Some,
        is_the_player(actors, player_place(actors)->0),
{
    let place = choose|place: int| is_the_player(actors, place);
    lemma_find_player(actors, actors.len() as int);
    assert(actors[place].actor.kind == ActorKind::Player);
    if player_place(actors) is Some {
        let found = player_place(actors)->0;
        assert(actors[found].actor.kind == ActorKind::Player);
    }
}

/// Actors that stay who they are keep their one player, at its place.
pub proof fn lemma_same_actors_same_player(before: Seq<ActorBundle>, after: Seq<ActorBundle>)
    requires
        has_one_player(before),
        after.len() == before.len(),
        forall|i: int| 0 <= i < before.len() ==> (#[trigger] after[i]).actor == before[i].actor,
    ensures
        has_one_player(after),
        player_place(after) == player_place(before),
{
    let place = choose|place: int| is_the_player(before, place);
    assert(is_the_player(after, place)) by {
        assert forall|i: int| 0 <= i < after.len() implies ((#[trigger] after[i]).actor.kind
            == ActorKind::Player <==> i == place) by {
            assert(before[i].actor.kind == ActorKind::Player <==> i == place);
        }
    }
    lemma_one_player_is_found(before);
    lemma_one_player_is_found(after);
    assert(before[place].actor.kind == ActorKind::Player);
    assert(after[place].actor.kind == ActorKind::Player);
}

/// Where one of the actors is a player and no other is, the players among
/// them are that one.
pub proof fn lemma_players_among_one(actors: Seq<ActorBundle>, place: int, count: int)
    requires
        is_the_player(actors, place),
        0 <= count <= actors.len(),
    ensures
        players_among(actors, count) == if place < count {
            seq![actors[place]]
        } else {
            Seq::<ActorBundle>::empty()
        },
    decreases count,
{
    if count > 0 {
        lemma_players_among_one(actors, place, count - 1);
        assert(actors[count - 1].actor.kind == ActorKind::Player <==> count - 1 == place);
        if count - 1 == place {
            assert(Seq::<ActorBundle>::empty().push(actors[place]) =~= seq![actors[place]]);
        }
    }
}

/// The map has exactly one exit, and it lies in the rightmost column.
pub open spec fn has_one_exit(map: &TileGrid) -> bool {
    map.exits@.len() == 1 && map.exits@[0].x == map.width - 1
}

/// The game: its state, its map, its actors and its counters.
pub struct TurnCoordinator {
    state: GameState,
    map: TileGrid,
    actors: Vec<ActorBundle>,
    current_turn_number: CurrentTurnNumber,
    current_map_number: CurrentMapNumber,
    map_settings: MapSettings,
    spawn_counts: Vec<(ActorKind, usize)>,
}

impl TurnCoordinator {
    #[verifier::type_invariant]
    spec fn is_consistent(self) -> bool {
        self.is_sound()
    }

    /// What holds of every game, whatever steps it has taken: its map is well
    /// formed and its mobs are no players; while there is no map, or nobody
    /// is placed on it yet, the actors are players and nobody stands on the
    /// map; from the moment a map is generated until the player leaves it,
    /// the map has its one exit, in the rightmost column; while the game is
    /// played the tiles and the actors are in lock-step and one actor is the
    /// player; once the mobs are removed, only players are left.
    pub open spec fn is_sound(&self) -> bool {
        &&& self.grid().wf()
        &&& only_mobs(self.counts())
        &&& match self.game_state() {
            GameState::Uninitialized | GameState::InitializingMap => only_players(self.roster())
                && is_vacant(self.grid()),
            GameState::InitializingActors => only_players(self.roster()) && is_vacant(self.grid())
                && has_one_exit(self.grid()),
            GameState::PlayerTurn | GameState::EnemyTurn | GameState::CleanupActors => in_lock_step(
                self.grid(),
                self.roster(),
            ) && has_one_player(self.roster()) && has_one_exit(self.grid()),
            GameState::CleanupMap => only_players(self.roster()),
        }
    }

    /// The state of the turn cycle.
    pub closed spec fn game_state(&self) -> GameState {
        self.state
    }

    /// The current map.
    pub closed spec fn grid(&self) -> &TileGrid {
        &self.map
    }

    /// The actors of the game.
    pub closed spec fn roster(&self) -> Seq<ActorBundle> {
        self.actors@
    }

    /// The number of turns that have been played.
    pub closed spec fn turn_number(&self) -> usize {
        self.current_turn_number.0
    }

    /// The number of maps that have been left.
    pub closed spec fn map_number(&self) -> usize {
        self.current_map_number.0
    }

    /// The settings that maps are generated from.
    pub closed spec fn settings(&self) -> &MapSettings {
        &self.map_settings
    }

    /// How many mobs of each kind a map is populated with.
    pub closed spec fn counts(&self) -> Seq<(ActorKind, usize)> {
        self.spawn_counts@
    }

    /// A game that has not started: no map, no actors, both counters at zero.
    /// `None` where `spawn_counts` asks for players, of which a game has one.
    pub fn new(map_settings: MapSettings, spawn_counts: Vec<(ActorKind, usize)>) -> (game: Option<
        Self,
    >)
        ensures
            game is Some <==> only_mobs(spawn_counts@),
            game matches Some(game) ==> {
                &&& game.game_state() == GameState::Uninitialized
                &&& game.roster().len() == 0
                &&& game.grid().tiles@.len() == 0
                &&& game.turn_number() == 0
                &&& game.map_number() == 0
                &&& *game.settings() == map_settings
                &&& game.counts() == spawn_counts@
            },
    {
        let mut group: usize = 0;
        while group < spawn_counts.len()
            invariant
                group <= spawn_counts@.len(),
                forall|earlier: int|
                    0 <= earlier < group ==> (#[trigger] spawn_counts@[earlier]).0
                        != ActorKind::Player,
            decreases spawn_counts@.len() - group,
        {
            if spawn_counts[group].0 == ActorKind::Player {
                return None;
            }
            group += 1;
        }
        Some(
            TurnCoordinator {
                state: GameState::Uninitialized,
                map: TileGrid { width: 0, height: 0, tiles: Vec::new(), exits: Vec::new() },
                actors: Vec::new(),
                current_turn_number: CurrentTurnNumber(0),
                current_map_number: CurrentMapNumber(0),
                map_settings,
                spawn_counts,
            },
        )
    }

    /// Takes the game out of its place and leaves a game that has not started.
    fn take(&mut self) -> (taken: Self)
        ensures
            taken == *old(self),
    {
        let mut taken = TurnCoordinator {
            state: GameState::Uninitialized,
            map: TileGrid { width: 0, height: 0, tiles: Vec::new(), exits: Vec::new() },
            actors: Vec::new(),
            current_turn_number: CurrentTurnNumber(0),
            current_map_number: CurrentMapNumber(0),
            map_settings: self.map_settings,
            spawn_counts: Vec::new(),
        };
        core::mem::swap(self, &mut taken);
        taken
    }

    /// The state of the turn cycle.
    pub fn state(&self) -> (state: GameState)
        ensures
            state == self.game_state(),
            self.is_sound(),
    {
        proof {
            use_type_invariant(self);
        }
        self.state
    }

    /// The current map.
    pub fn map(&self) -> (map: &TileGrid)
        ensures
            map == self.grid(),
            self.is_sound(),
    {
        proof {
            use_type_invariant(self);
        }
        &self.map
    }

    /// The actors of the game.
    pub fn actors(&self) -> (actors: &Vec<ActorBundle>)
        ensures
            actors@ == self.roster(),
            self.is_sound(),
    {
        proof {
            use_type_invariant(self);
        }
        &self.actors
    }

    /// The number of turns that have been played.
    pub fn current_turn_number(&self) -> (number: CurrentTurnNumber)
        ensures
            number.0 == self.turn_number(),
    {
        self.current_turn_number
    }

    /// The number of maps that have been left.
    pub fn current_map_number(&self) -> (number: CurrentMapNumber)
        ensures
            number.0 == self.map_number(),
    {
        self.current_map_number
    }

    /// The map, the actors and the counters are as they were before a step.
    pub open spec fn is_untouched_since(&self, before: &TurnCoordinator) -> bool {
        &&& self.game_state() == before.game_state()
        &&& self.grid().width == before.grid().width
        &&& self.grid().height == before.grid().height
        &&& self.grid().tiles@ == before.grid().tiles@
        &&& self.grid().exits@ == before.grid().exits@
        &&& self.roster() == before.roster()
        &&& self.turn_number() == before.turn_number()
        &&& self.map_number() == before.map_number()
    }

    /// Starts the game: asks for the first map. Does nothing in a game that
    /// has started.
    pub fn start(&mut self) -> (started: bool)
        ensures
            started == (old(self).game_state() == GameState::Uninitialized),
            started ==> old(self).game_state().after(GameEvent::GameStarted) == Some(
                final(self).game_state(),
            ),
            !started ==> final(self).game_state() == old(self).game_state(),
            final(self).grid() == old(self).grid(),
            final(self).roster() == old(self).roster(),
            final(self).turn_number() == old(self).turn_number(),
            final(self).map_number() == old(self).map_number(),
    {
        proof {
            use_type_invariant(&*self);
        }
        if self.state == GameState::Uninitialized {
            self.state = GameState::InitializingMap;
            true
        } else {
            false
        }
    }

    /// Generates the next map, from the levels of the noise where they are
    /// given and with the cellular automaton otherwise, and asks for its
    /// actors to be placed. Where no map comes of it the game is untouched
    /// and the map can be asked for again. Does nothing, and says so with
    /// `Ok(false)`, in any state but `InitializingMap`.
    pub fn initialize_map(&mut self, noise_levels: Option<Vec<NoiseLevel>>) -> (generated: Result<
        bool,
        MapError,
    >)
        ensures
            generated == Ok::<bool, MapError>(false) <==> old(self).game_state()
                != GameState::InitializingMap,
            match generated {
                Ok(true) => {
                    &&& old(self).game_state().after(GameEvent::MapInitialized) == Some(
                        final(self).game_state(),
                    )
                    &&& is_map_of(final(self).grid(), noise_levels, old(self).settings())
                    &&& final(self).roster() == old(self).roster()
                    &&& final(self).turn_number() == old(self).turn_number()
                    &&& final(self).map_number() == old(self).map_number()
                },
                Ok(false) => final(self).is_untouched_since(old(self)),
                Err(error) => {
                    &&& is_error_of(error, noise_levels, old(self).settings())
                    &&& final(self).is_untouched_since(old(self))
                },
            },
            old(self).game_state() == GameState::InitializingMap ==> map_comes(
                noise_levels,
                old(self).settings(),
                generated is Ok,
            ),
            final(self).settings() == old(self).settings(),
            final(self).counts() == old(self).counts(),
    {
        proof {
            use_type_invariant(&*self);
        }
        if self.state != GameState::InitializingMap {
            return Ok(false);
        }
        let mut next_state = self.state;
        match initialize_map(&self.map_settings, noise_levels, &mut next_state) {
            Ok(map) => {
                self.map = map;
                self.state = next_state;
                Ok(true)
            },
            Err(error) => Err(error),
        }
    }

    /// Populates the map with the mobs that the game was set up with, then with
    /// the player, as `place_actors` does, and hands over to the player.
    /// Where no tile is left for the player the game is untouched. Does
    /// nothing, and says so with `Ok(false)`, in any state but
    /// `InitializingActors`.
    pub fn spawn_mobs_on_current_map(&mut self) -> (placed: Result<bool, MapError>)
        ensures
            placed == Ok::<bool, MapError>(false) <==> old(self).game_state()
                != GameState::InitializingActors,
            old(self).game_state() == GameState::InitializingActors ==> (placed is Ok
                <==> old(self).grid().spawnable_positions(Seq::empty()).len() > mobs_to_place(
                old(self).grid(),
                positions_of(old(self).roster()),
                old(self).counts(),
            )),
            match placed {
                Ok(true) => {
                    let mobs = mobs_to_place(
                        old(self).grid(),
                        positions_of(old(self).roster()),
                        old(self).counts(),
                    );
                    &&& old(self).game_state().after(GameEvent::ActorsInitialized) == Some(
                        final(self).game_state(),
                    )
                    &&& final(self).grid().width == old(self).grid().width
                    &&& final(self).grid().height == old(self).grid().height
                    &&& final(self).grid().exits@ == old(self).grid().exits@
                    &&& same_ground(old(self).grid().tiles@, final(self).grid().tiles@)
                    &&& final(self).roster().len() == mobs + 1
                    &&& is_the_player(final(self).roster(), mobs)
                    &&& forall|k: int|
                        0 <= k < mobs ==> (#[trigger] final(self).roster()[k]).actor.kind
                            == requested_kinds(old(self).counts())[k]
                    &&& forall|k: int|
                        0 <= k <= mobs ==> old(self).grid().is_free(
                            Seq::empty(),
                            (#[trigger] final(self).roster()[k]).map_position,
                        )
                    &&& in_lock_step(final(self).grid(), final(self).roster())
                    &&& final(self).turn_number() == old(self).turn_number()
                    &&& final(self).map_number() == old(self).map_number()
                },
                _ => final(self).is_untouched_since(old(self)),
            },
            placed matches Err(error) ==> error == MapError::NoSpawnablePositions,
            final(self).settings() == old(self).settings(),
            final(self).counts() == old(self).counts(),
    {
        proof {
            use_type_invariant(&*self);
        }
        if self.state != GameState::InitializingActors {
            return Ok(false);
        }
        let TurnCoordinator {
            state,
            mut map,
            mut actors,
            current_turn_number,
            current_map_number,
            map_settings,
            spawn_counts,
        } = self.take();
        let placed = place_actors(&mut map, &mut actors, &spawn_counts);
        let next_state = match placed {
            Ok(mobs) => {
                proof {
                    assert(is_the_player(actors@, mobs as int));
                    assert forall|k: int| 0 <= k <= mobs implies old(self).map.is_free(
                        Seq::empty(),
                        (#[trigger] actors@[k]).map_position,
                    ) by {
                        if k < mobs {
                            assert(old(self).map.is_free(
                                positions_of(old(self).actors@),
                                actors@[k].map_position,
                            ));
                            assert(!Seq::<MapPosition>::empty().contains(
                                actors@[k].map_position,
                            ));
                        }
                    }
                }
                GameState::PlayerTurn
            },
            Err(_) => {
                proof {
                    assert(is_vacant(&map)) by {
                        assert forall|index: int|
                            0 <= index < map.tiles@.len() implies #[trigger] occupant_of(
                            &map,
                            index,
                        ) is None by {
                            assert(occupant_of(&old(self).map, index) is None);
                        }
                    }
                }
                state
            },
        };
        *self = TurnCoordinator {
            state: next_state,
            map,
            actors,
            current_turn_number,
            current_map_number,
            map_settings,
            spawn_counts,
        };
        match placed {
            Ok(_) => Ok(true),
            Err(error) => Err(error),
        }
    }

    /// Checks whether the player stands on an exit of the map, and where it
    /// does, asks for the removal of the mobs. Nothing else changes. Does
    /// nothing, and returns `false`, in any state but `PlayerTurn`.
    pub fn check_if_player_exit_map(&mut self) -> (leaving: bool)
        ensures
            leaving == (old(self).game_state() == GameState::PlayerTurn && player_is_on_exit(
                old(self).grid(),
                old(self).roster(),
            )),
            final(self).game_state() == if leaving {
                old(self).game_state().after(GameEvent::ExitReached)->0
            } else {
                old(self).game_state()
            },
            final(self).grid() == old(self).grid(),
            final(self).roster() == old(self).roster(),
            final(self).turn_number() == old(self).turn_number(),
            final(self).map_number() == old(self).map_number(),
            final(self).settings() == old(self).settings(),
            final(self).counts() == old(self).counts(),
    {
        proof {
            use_type_invariant(&*self);
        }
        if self.state != GameState::PlayerTurn {
            return false;
        }
        let mut next_state = self.state;
        let leaving = check_if_player_exit_map(&self.map, &self.actors, &mut next_state);
        self.state = next_state;
        leaving
    }

    /// Carries out what the player asks for, and says whether that used up the
    /// player's turn. A step that is allowed moves the player and hands over
    /// to the mobs, and so does skipping. A step that is not allowed changes
    /// nothing: the player may try again. Does nothing, and returns `false`,
    /// in any state but `PlayerTurn`.
    pub fn handle_player_intent(&mut self, intent: PlayerIntent) -> (consumed: bool)
        ensures
            consumed == (old(self).game_state() == GameState::PlayerTurn && match intent.direction() {
                Some(direction) => can_step(
                    old(self).roster()[player_place(old(self).roster())->0].map_position,
                    direction,
                    old(self).grid(),
                    Seq::empty(),
                ),
                None => true,
            }),
            consumed ==> {
                &&& old(self).game_state().after(GameEvent::PlayerActed) == Some(
                    final(self).game_state(),
                )
                &&& match intent.direction() {
                    Some(direction) => {
                        let place = player_place(old(self).roster())->0;
                        &&& final(self).roster() == actors_after_step(
                            old(self).roster(),
                            place,
                            direction,
                        )
                        &&& stepped(
                            old(self).grid(),
                            final(self).grid(),
                            old(self).roster()[place].map_position,
                            final(self).roster()[place].map_position,
                            direction,
                        )
                    },
                    None => final(self).roster() == old(self).roster() && final(self).grid().tiles@
                        == old(self).grid().tiles@,
                }
                &&& final(self).grid().width == old(self).grid().width
                &&& final(self).grid().height == old(self).grid().height
                &&& final(self).grid().exits@ == old(self).grid().exits@
                &&& final(self).turn_number() == old(self).turn_number()
                &&& final(self).map_number() == old(self).map_number()
            },
            !consumed ==> final(self).is_untouched_since(old(self)),
            final(self).settings() == old(self).settings(),
            final(self).counts() == old(self).counts(),
    {
        proof {
            use_type_invariant(&*self);
        }
        if self.state != GameState::PlayerTurn {
            return false;
        }
        proof {
            lemma_one_player_is_found(self.actors@);
        }
        let direction = match intent {
            PlayerIntent::MoveLeft => Direction::Left,
            PlayerIntent::MoveRight => Direction::Right,
            PlayerIntent::MoveUp => Direction::Up,
            PlayerIntent::MoveDown => Direction::Down,
            PlayerIntent::Skip => {
                let mut next_state = self.state;
                check_player_skip_turn_via_keys(&mut next_state);
                self.state = next_state;
                return true;
            },
        };
        let TurnCoordinator {
            state,
            mut map,
            mut actors,
            current_turn_number,
            current_map_number,
            map_settings,
            spawn_counts,
        } = self.take();
        let mut next_state = state;
        let moved = check_player_move_via_keys(&mut next_state, &mut actors, &mut map, direction);
        proof {
            if moved {
                lemma_same_actors_same_player(old(self).actors@, actors@);
            }
        }
        *self = TurnCoordinator {
            state: next_state,
            map,
            actors,
            current_turn_number,
            current_map_number,
            map_settings,
            spawn_counts,
        };
        moved
    }

    /// Lets every mob act once, as `move_mob` does: one after the other, each
    /// on the map as the one before left it, and each moving wherever it can.
    /// Then counts the turn and hands over to the player. Does nothing, and
    /// returns `false`, in any state but `EnemyTurn`.
    pub fn move_mobs_and_end_turn(&mut self) -> (done: bool)
        ensures
            done == (old(self).game_state() == GameState::EnemyTurn),
            done ==> {
                let place = player_place(old(self).roster())->0;
                &&& old(self).game_state().after(GameEvent::EnemiesActed) == Some(
                    final(self).game_state(),
                )
                &&& final(self).turn_number() == counted_on(old(self).turn_number())
                &&& final(self).map_number() == old(self).map_number()
                &&& final(self).grid().width == old(self).grid().width
                &&& final(self).grid().height == old(self).grid().height
                &&& final(self).grid().exits@ == old(self).grid().exits@
                &&& same_ground(old(self).grid().tiles@, final(self).grid().tiles@)
                &&& in_lock_step(final(self).grid(), final(self).roster())
                &&& final(self).roster().len() == old(self).roster().len()
                &&& is_the_player(old(self).roster(), place)
                &&& forall|i: int|
                    0 <= i < old(self).roster().len() ==> has_acted(
                        old(self).roster()[i],
                        #[trigger] final(self).roster()[i],
                        old(self).roster()[place].map_position,
                    )
                &&& exists|trail: Seq<TileGrid>|
                    {
                        &&& #[trigger] have_taken_turns(
                            trail,
                            old(self).roster(),
                            final(self).roster(),
                            old(self).roster()[place].map_position,
                        )
                        &&& trail[0] == *old(self).grid()
                        &&& trail[old(self).roster().len() as int] == *final(self).grid()
                    }
            },
            !done ==> final(self).is_untouched_since(old(self)),
            final(self).settings() == old(self).settings(),
            final(self).counts() == old(self).counts(),
    {
        proof {
            use_type_invariant(&*self);
        }
        if self.state != GameState::EnemyTurn {
            return false;
        }
        proof {
            lemma_one_player_is_found(self.actors@);
        }
        let TurnCoordinator {
            state,
            mut map,
            mut actors,
            current_turn_number,
            current_map_number,
            map_settings,
            spawn_counts,
        } = self.take();
        move_mob(&mut actors, &mut map);
        proof {
            lemma_same_actors_same_player(old(self).actors@, actors@);
        }
        let mut next_state = state;
        let mut game_turn = current_turn_number;
        increase_game_turn(&mut next_state, &mut game_turn);
        *self = TurnCoordinator {
            state: next_state,
            map,
            actors,
            current_turn_number: game_turn,
            current_map_number,
            map_settings,
            spawn_counts,
        };
        true
    }

    /// Removes the mobs, so that of the actors only the player is left, and
    /// asks for the removal of the map. Does nothing, and returns `false`, in
    /// any state but `CleanupActors`.
    pub fn despawn_mobs_on_current_map(&mut self) -> (done: bool)
        ensures
            done == (old(self).game_state() == GameState::CleanupActors),
            done ==> {
                let place = player_place(old(self).roster())->0;
                &&& old(self).game_state().after(GameEvent::ActorsCleanedUp) == Some(
                    final(self).game_state(),
                )
                &&& is_the_player(old(self).roster(), place)
                &&& final(self).roster() == seq![old(self).roster()[place]]
                &&& final(self).grid() == old(self).grid()
                &&& final(self).turn_number() == old(self).turn_number()
                &&& final(self).map_number() == old(self).map_number()
            },
            !done ==> final(self).is_untouched_since(old(self)),
            final(self).settings() == old(self).settings(),
            final(self).counts() == old(self).counts(),
    {
        proof {
            use_type_invariant(&*self);
        }
        if self.state != GameState::CleanupActors {
            return false;
        }
        proof {
            lemma_one_player_is_found(self.actors@);
            lemma_players_among_one(
                self.actors@,
                player_place(self.actors@)->0,
                self.actors@.len() as int,
            );
        }
        let TurnCoordinator {
            state,
            map,
            mut actors,
            current_turn_number,
            current_map_number,
            map_settings,
            spawn_counts,
        } = self.take();
        let mut next_state = state;
        despawn_mobs_on_current_map(&mut actors, &mut next_state);
        *self = TurnCoordinator {
            state: next_state,
            map,
            actors,
            current_turn_number,
            current_map_number,
            map_settings,
            spawn_counts,
        };
        true
    }

    /// Removes the map, counts it, and asks for the next one. The player stays
    /// among the actors. Does nothing, and returns `false`, in any state but
    /// `CleanupMap`.
    pub fn cleanup_map(&mut self) -> (done: bool)
        ensures
            done == (old(self).game_state() == GameState::CleanupMap),
            done ==> {
                &&& old(self).game_state().after(GameEvent::MapCleanedUp) == Some(
                    final(self).game_state(),
                )
                &&& final(self).grid().tiles@.len() == 0
                &&& final(self).grid().exits@.len() == 0
                &&& final(self).roster() == old(self).roster()
                &&& final(self).turn_number() == old(self).turn_number()
                &&& final(self).map_number() == counted_on(old(self).map_number())
            },
            !done ==> final(self).is_untouched_since(old(self)),
            final(self).settings() == old(self).settings(),
            final(self).counts() == old(self).counts(),
    {
        proof {
            use_type_invariant(&*self);
        }
        if self.state != GameState::CleanupMap {
            return false;
        }
        let TurnCoordinator {
            state,
            mut map,
            actors,
            current_turn_number,
            current_map_number,
            map_settings,
            spawn_counts,
        } = self.take();
        let mut next_state = state;
        let mut map_number = current_map_number;
        cleanup_map(&mut map, &mut next_state, &mut map_number);
        proof {
            assert(is_vacant(&map));
        }
        *self = TurnCoordinator {
            state: next_state,
            map,
            actors,
            current_turn_number,
            current_map_number: map_number,
            map_settings,
            spawn_counts,
        };
        true
    }
}

} // verus!
