//! The steps of the game's turn cycle, each on the parts of the game that it
//! reads and changes: the map, the actors, the counters, and the state that
//! comes next.

use crate::actors::ActorBundle;
use crate::actors::ActorKind;
use crate::actors::actors_after_step;
use crate::actors::find_player;
use crate::actors::generate_spawn_counts;
use crate::actors::has_stepped;
use crate::actors::in_lock_step;
use crate::actors::is_vacant;
use crate::actors::lemma_lock_step_of_same_tiles;
use crate::actors::lemma_step_keeps_lock_step;
use crate::actors::mobs_to_place;
use crate::actors::occupant_of;
use crate::actors::only_players;
use crate::actors::place_actors;
use crate::actors::player_place;
use crate::actors::positions_of;
use crate::actors::requested_kinds;
use crate::cellular_automaton::all_alive;
use crate::cellular_automaton::all_dead;
use crate::cellular_automaton::CellularAutomaton;
use crate::cellular_automaton::CellularState;
use crate::cellular_automaton::covers;
use crate::cellular_automaton::generation_after;
use crate::cellular_automaton::is_smoothing_of;
use crate::cellular_automaton::lemma_dead_grid_stays_dead;
use crate::cellular_automaton::next_generation;
use crate::grid::cell_index;
use crate::grid::column_of;
use crate::grid::lemma_index_of_coordinates;
use crate::map::contains_position;
use crate::map::follows_cell;
use crate::map::follows_noise;
use crate::map::MapError;
use crate::map::MapPosition;
use crate::map::NoiseLevel;
use crate::map::same_ground;
use crate::map::TileGrid;
use crate::movement::can_step;
use crate::movement::Direction;
use crate::movement::lemma_step_keeps_ground;
use crate::movement::move_toward;
use crate::movement::stepped;
use crate::random::Probability;
use crate::states::GameState;
use crate::tile::TileKind;
use vstd::prelude::*;

verus! {

/// The number of the current map. It grows each time the player leaves a map.
#[derive(Clone, Copy, Debug, PartialEq, Eq, Structural)]
pub struct CurrentMapNumber(pub usize);

/// The number of the current turn. It grows each time all actors have acted.
#[derive(Clone, Copy, Debug, PartialEq, Eq, Structural)]
pub struct CurrentTurnNumber(pub usize);

/// The number that follows `number`, which is `number` itself where it is the
/// largest that can be counted.
pub open spec fn counted_on(number: usize) -> usize {
    if number < usize::MAX {
        (number + 1) as usize
    } else {
        number
    }
}

/// Ends the turn of the mobs: counts the turn and hands over to the player.
pub fn increase_game_turn(next_state: &mut GameState, game_turn: &mut CurrentTurnNumber)
    ensures
        *final(next_state) == GameState::PlayerTurn,
        final(game_turn).0 == counted_on(old(game_turn).0),
{
    if game_turn.0 < usize::MAX {
        game_turn.0 = game_turn.0 + 1;
    }
    *next_state = GameState::PlayerTurn;
}

/// Removes the map with all its tiles, counts the map, and asks for the next
/// one.
pub fn cleanup_map(
    map: &mut TileGrid,
    next_game_state: &mut GameState,
    current_map_number: &mut CurrentMapNumber,
)
    ensures
        final(map).width == 0,
        final(map).height == 0,
        final(map).tiles@.len() == 0,
        final(map).exits@.len() == 0,
        final(map).wf(),
        *final(next_game_state) == GameState::InitializingMap,
        final(current_map_number).0 == counted_on(old(current_map_number).0),
{
    *map = TileGrid { width: 0, height: 0, tiles: Vec::new(), exits: Vec::new() };
    if current_map_number.0 < usize::MAX {
        current_map_number.0 = current_map_number.0 + 1;
    }
    *next_game_state = GameState::InitializingMap;
}

/// The players among the first `count` actors, in their order.
pub open spec fn players_among(actors: Seq<ActorBundle>, count: int) -> Seq<ActorBundle>
    decreases count,
{
    if count <= 0 {
        Seq::empty()
    } else if actors[count - 1].actor.kind == ActorKind::Player {
        players_among(actors, count - 1).push(actors[count - 1])
    } else {
        players_among(actors, count - 1)
    }
}

/// Removes the mobs from the actors, so that only the player is left, and asks
/// for the removal of the map.
pub fn despawn_mobs_on_current_map(
    actors: &mut Vec<ActorBundle>,
    next_game_state: &mut GameState,
)
    ensures
        final(actors)@ == players_among(old(actors)@, old(actors)@.len() as int),
        *final(next_game_state) == GameState::CleanupMap,
{
    let mut players: Vec<ActorBundle> = Vec::new();
    let mut i: usize = 0;
    while i < actors.len()
        invariant
            i <= actors@.len(),
            actors@ == old(actors)@,
            players@ == players_among(actors@, i as int),
        decreases actors@.len() - i,
    {
        if actors[i].actor.is_player() {
            players.push(actors[i]);
        }
        i += 1;
    }
    *actors = players;
    *next_game_state = GameState::CleanupMap;
}

/// The player stands on an exit of the map.
pub open spec fn player_is_on_exit(map: &TileGrid, actors: Seq<ActorBundle>) -> bool {
    match player_place(actors) {
        Some(place) => map.exits@.contains(actors[place].map_position),
        None => false,
    }
}

/// Checks whether the player stands on an exit of the map, and where it does,
/// asks for the removal of the mobs. Otherwise the state stays as it is.
pub fn check_if_player_exit_map(
    map: &TileGrid,
    actors: &Vec<ActorBundle>,
    next_game_state: &mut GameState,
) -> (leaving: bool)
    ensures
        leaving == player_is_on_exit(map, actors@),
        *final(next_game_state) == if leaving {
            GameState::CleanupActors
        } else {
            *old(next_game_state)
        },
{
    match find_player(actors) {
        Some(place) => {
            if contains_position(map.exits.as_slice(), &actors[place].map_position) {
                *next_game_state = GameState::CleanupActors;
                true
            } else {
                false
            }
        },
        None => false,
    }
}

/// Populates the current map, on which nobody stands yet, with three blobs,
/// three rabbits and the player, as `place_actors` does, and hands over to
/// the player. Where no tile is left for the player the state stays as it is.
pub fn spawn_mobs_on_current_map(
    map: &mut TileGrid,
    actors: &mut Vec<ActorBundle>,
    next_game_state: &mut GameState,
) -> (placed: Result<usize, MapError>)
    requires
        old(map).wf(),
        is_vacant(old(map)),
        only_players(old(actors)@),
    ensures
        final(map).wf(),
        final(map).width == old(map).width,
        final(map).height == old(map).height,
        final(map).exits@ == old(map).exits@,
        same_ground(old(map).tiles@, final(map).tiles@),
        placed is Ok <==> old(map).spawnable_positions(Seq::empty()).len() > mobs_to_place(
            old(map),
            positions_of(old(actors)@),
            seq![(ActorKind::Blob, 3usize), (ActorKind::Rabbit, 3usize)],
        ),
        match placed {
            Ok(mobs) => {
                &&& *final(next_game_state) == GameState::PlayerTurn
                &&& mobs == mobs_to_place(
                    old(map),
                    positions_of(old(actors)@),
                    seq![(ActorKind::Blob, 3usize), (ActorKind::Rabbit, 3usize)],
                )
                &&& final(actors)@.len() == mobs + 1
                &&& forall|k: int|
                    0 <= k < mobs ==> {
                        &&& (#[trigger] final(actors)@[k]).actor.kind == requested_kinds(
                            seq![(ActorKind::Blob, 3usize), (ActorKind::Rabbit, 3usize)],
                        )[k]
                        &&& final(actors)@[k].actor.kind != ActorKind::Player
                        &&& old(map).is_free(
                            positions_of(old(actors)@),
                            final(actors)@[k].map_position,
                        )
                    }
                &&& final(actors)@[mobs as int].actor.kind == ActorKind::Player
                &&& old(map).is_free(Seq::empty(), final(actors)@[mobs as int].map_position)
                &&& in_lock_step(final(map), final(actors)@)
            },
            Err(error) => {
                &&& *final(next_game_state) == *old(next_game_state)
                &&& error == MapError::NoSpawnablePositions
                &&& final(map).tiles@ == old(map).tiles@
                &&& final(actors)@ == old(actors)@
            },
        },
{
    let spawn_counts = generate_spawn_counts(map);
    let placed = place_actors(map, actors, &spawn_counts);
    if placed.is_ok() {
        *next_game_state = GameState::PlayerTurn;
    }
    placed
}

/// Moves the player one step in `direction` where that step is allowed, and
/// then hands over to the mobs. A step that is not allowed changes nothing,
/// the state included: the player may try again.
pub fn check_player_move_via_keys(
    next_state: &mut GameState,
    actors: &mut Vec<ActorBundle>,
    map: &mut TileGrid,
    direction: Direction,
) -> (moved: bool)
    requires
        old(map).wf(),
        in_lock_step(old(map), old(actors)@),
    ensures
        final(map).wf(),
        final(map).width == old(map).width,
        final(map).height == old(map).height,
        final(map).exits@ == old(map).exits@,
        same_ground(old(map).tiles@, final(map).tiles@),
        in_lock_step(final(map), final(actors)@),
        moved == match player_place(old(actors)@) {
            Some(place) => can_step(
                old(actors)@[place].map_position,
                direction,
                old(map),
                Seq::empty(),
            ),
            None => false,
        },
        moved ==> {
            &&& *final(next_state) == GameState::EnemyTurn
            &&& final(actors)@ == actors_after_step(
                old(actors)@,
                player_place(old(actors)@)->0,
                direction,
            )
            &&& stepped(
                old(map),
                final(map),
                old(actors)@[player_place(old(actors)@)->0].map_position,
                final(actors)@[player_place(old(actors)@)->0].map_position,
                direction,
            )
        },
        !moved ==> {
            &&& *final(next_state) == *old(next_state)
            &&& final(actors)@ == old(actors)@
            &&& final(map).tiles@ == old(map).tiles@
        },
{
    let place: usize = match find_player(actors) {
        Some(place) => place,
        None => {
            return false;
        },
    };
    let nobody: Vec<MapPosition> = Vec::new();
    let bundle = actors[place];
    let mut position = bundle.map_position;
    let moved = move_toward(map, &mut position, direction, nobody.as_slice());
    if moved {
        actors.set(place, ActorBundle { actor: bundle.actor, map_position: position });
        *next_state = GameState::EnemyTurn;
        proof {
            assert(nobody@ =~= Seq::<MapPosition>::empty());
            assert(has_stepped(old(map), map, old(actors)@, place as int, direction, nobody@));
            lemma_step_keeps_lock_step(old(map), map, old(actors)@, place as int, direction, nobody@);
            lemma_step_keeps_ground(
                old(map),
                map,
                bundle.map_position,
                direction,
                nobody@,
            );
        }
    } else {
        proof {
            assert(nobody@ =~= Seq::<MapPosition>::empty());
            lemma_lock_step_of_same_tiles(old(map), map, actors@);
        }
    }
    moved
}

/// Lets the player skip its turn: hands over to the mobs.
pub fn check_player_skip_turn_via_keys(next_state: &mut GameState)
    ensures
        *final(next_state) == GameState::EnemyTurn,
{
    *next_state = GameState::EnemyTurn;
}

/// What a map is generated from.
#[derive(Clone, Copy, Debug)]
pub struct MapSettings {
    /// The number of columns of the map.
    pub width: usize,
    /// The number of rows of the map.
    pub height: usize,
    /// The probability with which a cell of the automaton lives at the start.
    pub alive_probability: Probability,
    /// The number of generations that the automaton runs through.
    pub iterations: usize,
    /// The probability with which a stone is damaged.
    pub stone_damaged: Probability,
}

/// The two ways of generating a map.
#[derive(Clone, Copy, Debug, PartialEq, Eq, Structural)]
pub enum MapGenerator {
    PerlinNoise,
    CellularAutomaton,
}

/// The way of generating a map that a coin decides for: the noise on heads,
/// the cellular automaton on tails.
pub open spec fn generator_for(heads: bool) -> MapGenerator {
    if heads {
        MapGenerator::PerlinNoise
    } else {
        MapGenerator::CellularAutomaton
    }
}

/// The way of generating a map that a coin decides for.
pub fn map_generator_for(heads: bool) -> (generator: MapGenerator)
    ensures
        generator == generator_for(heads),
{
    if heads {
        MapGenerator::PerlinNoise
    } else {
        MapGenerator::CellularAutomaton
    }
}

/// Picks the way of generating the next map by the toss of a fair coin, as
/// `map_generator_for` reads it. Nothing is known of the outcome beforehand.
pub fn choose_map_generator() -> MapGenerator {
    map_generator_for(Probability::half().sample())
}

/// `map` is a new map of the given size: nobody stands on it, and it has one
/// exit, in its rightmost column.
pub open spec fn is_new_map(map: &TileGrid, width: usize, height: usize) -> bool {
    &&& map.wf()
    &&& is_vacant(map)
    &&& map.width == width
    &&& map.height == height
    &&& map.exits@.len() == 1
    &&& map.exits@[0].x == width - 1
    &&& map.tile_at(map.exits@[0]).kind == TileKind::LevelExit
}

/// The settings grow a map without a stone: no cell of the automaton lives at
/// the start, and the map has tiles, though no more than can be counted.
pub open spec fn grows_open_map(settings: &MapSettings) -> bool {
    &&& settings.alive_probability.is_never()
    &&& 0 < settings.width * settings.height <= usize::MAX
}

/// `cells` is what the automaton makes of the grid `start` under the
/// settings: `start` has a cell for each tile, all of them dead or all of
/// them alive where the settings leave no choice; it runs through the
/// generations that the settings ask for; and what has come of it is
/// smoothed.
pub open spec fn is_grown_from(
    cells: Seq<CellularState>,
    start: Seq<CellularState>,
    settings: &MapSettings,
) -> bool {
    &&& start.len() == settings.width * settings.height
    &&& settings.alive_probability.is_never() ==> all_dead(start)
    &&& settings.alive_probability.is_always() ==> all_alive(start)
    &&& is_smoothing_of(
        cells,
        generation_after(
            start,
            settings.width as int,
            settings.height as int,
            settings.iterations as nat,
        ),
        settings.width as int,
        settings.height as int,
    )
}

/// `cells` is what the automaton makes of some grid under the settings.
pub open spec fn is_grown(cells: Seq<CellularState>, settings: &MapSettings) -> bool {
    exists|start: Seq<CellularState>| #[trigger] is_grown_from(cells, start, settings)
}

/// The map shows `cells`: its exit lies on a dead cell, and every other tile
/// has the ground that its cell grows, with stones damaged as the
/// probability has it.
pub open spec fn shows_cells(
    map: &TileGrid,
    cells: Seq<CellularState>,
    stone_damaged: Probability,
) -> bool {
    &&& cells[map.index_of(map.exits@[0])] == CellularState::Dead
    &&& forall|index: int|
        0 <= index < map.tiles@.len() && index != map.index_of(map.exits@[0]) ==> follows_cell(
            (#[trigger] map.tiles@[index]).kind,
            cells[index],
            stone_damaged,
        )
}

/// The map shows `levels` of the noise: its exit lies where the noise is not
/// low, and every other tile has the ground that the noise at it draws,
/// with stones damaged as the probability has it.
pub open spec fn shows_noise(
    map: &TileGrid,
    levels: Seq<NoiseLevel>,
    stone_damaged: Probability,
) -> bool {
    &&& levels[map.index_of(map.exits@[0])] != NoiseLevel::Low
    &&& forall|index: int|
        0 <= index < map.tiles@.len() && index != map.index_of(map.exits@[0]) ==> follows_noise(
            (#[trigger] map.tiles@[index]).kind,
            levels[index],
            stone_damaged,
        )
}

/// The map is grown by the automaton under the settings: it shows cells that
/// the automaton makes of some grid.
pub open spec fn is_grown_map(map: &TileGrid, settings: &MapSettings) -> bool {
    exists|cells: Seq<CellularState>| #[trigger]
        is_grown(cells, settings) && shows_cells(map, cells, settings.stone_damaged)
}

/// The automaton has grown cells under the settings that leave no place for
/// an exit: every cell of the rightmost column lives.
pub open spec fn is_grown_shut(settings: &MapSettings) -> bool {
    exists|cells: Seq<CellularState>| #[trigger]
        is_grown(cells, settings) && forall|index: int|
            0 <= index < cells.len() && column_of(settings.width as int, index) == settings.width
                - 1 ==> #[trigger] cells[index] == CellularState::Alive
}

/// A map grown by a cellular automaton that starts at random, runs through
/// the generations that the settings ask for, and is smoothed at the end.
///
/// The error is `OutOfBounds` where the map would have more tiles than can be
/// counted, and `NoExitPositions` where the rightmost column came out all
/// stone. An automaton without a living cell at the start grows a map
/// without a stone.
pub fn generate_map_with_automaton(settings: &MapSettings) -> (map: Result<TileGrid, MapError>)
    ensures
        match map {
            Ok(map) => is_new_map(&map, settings.width, settings.height) && is_grown_map(
                &map,
                settings,
            ),
            Err(error) => if settings.width * settings.height > usize::MAX {
                error == MapError::OutOfBounds
            } else {
                error == MapError::NoExitPositions && is_grown_shut(settings)
            },
        },
        grows_open_map(settings) ==> map is Ok && forall|index: int|
            0 <= index < map->Ok_0.tiles@.len() && index != map->Ok_0.index_of(
                map->Ok_0.exits@[0],
            ) ==> (#[trigger] map->Ok_0.tiles@[index]).kind == TileKind::Grass,
{
    if settings.width.checked_mul(settings.height).is_none() {
        return Err(MapError::OutOfBounds);
    }
    let mut ca = CellularAutomaton::new(settings.width, settings.height, settings.alive_probability);
    let ghost start = ca.cells@;
    let ghost w = settings.width as int;
    let ghost h = settings.height as int;
    let mut generation: usize = 0;
    while generation < settings.iterations
        invariant
            generation <= settings.iterations,
            ca.wf(),
            ca.width == settings.width,
            ca.height == settings.height,
            w == settings.width,
            h == settings.height,
            ca.cells@ == generation_after(start, w, h, generation as nat),
            settings.alive_probability.is_never() ==> all_dead(ca.cells@),
        decreases settings.iterations - generation,
    {
        proof {
            if settings.alive_probability.is_never() {
                lemma_dead_grid_stays_dead(ca.cells@, ca.width as int, ca.height as int);
            }
        }
        ca.transition();
        generation += 1;
        proof {
            assert(generation_after(start, w, h, generation as nat) == next_generation(
                generation_after(start, w, h, (generation - 1) as nat),
                w,
                h,
            ));
        }
    }
    let ghost unsmoothed = ca.cells@;
    ca.smooth();
    let ghost cells = ca.cells@;
    proof {
        assert(is_grown_from(cells, start, settings));
        assert(is_grown(cells, settings));
        if settings.alive_probability.is_never() {
            lemma_dead_grid_stays_dead(unsmoothed, ca.width as int, ca.height as int);
            assert(covers(unsmoothed, unsmoothed));
            assert(covers(unsmoothed, cells));
            assert(all_dead(cells)) by {
                assert forall|i: int| 0 <= i < cells.len() implies cells[i]
                    == CellularState::Dead by {
                    if cells[i] == CellularState::Alive {
                        assert(unsmoothed[i] == CellularState::Alive);
                    }
                }
            }
            if settings.width * settings.height > 0 {
                let corner = settings.width - 1;
                assert(0 < settings.height) by (nonlinear_arith)
                    requires
                        settings.width * settings.height > 0,
                        0 <= settings.width,
                ;
                lemma_index_of_coordinates(settings.width as int, settings.height as int, corner, 0);
                assert(cell_index(settings.width as int, corner, 0) == corner) by {
                    reveal(cell_index);
                }
                assert(cells[corner] == CellularState::Dead);
            }
        }
    }
    match TileGrid::from_cellular_automaton(ca, settings.stone_damaged) {
        Ok(map) => {
            proof {
                assert(is_vacant(&map)) by {
                    assert forall|index: int| 0 <= index < map.tiles@.len() implies #[trigger] occupant_of(
                        &map,
                        index,
                    ) is None by {
                        assert(map.tiles@[index].actor is None);
                    }
                }
                let exit = map.index_of(map.exits@[0]);
                assert(map.holds(map.exits@[0]));
                assert(map.tiles@[exit].kind == TileKind::LevelExit);
                assert(shows_cells(&map, cells, settings.stone_damaged));
            }
            Ok(map)
        },
        Err(error) => {
            proof {
                assert forall|index: int|
                    0 <= index < cells.len() && column_of(w, index) == settings.width
                        - 1 implies #[trigger] cells[index] == CellularState::Alive by {
                    if cells[index] == CellularState::Dead {
                        assert(false);
                    }
                }
            }
            Err(error)
        },
    }
}

/// The map is what its generation owes: a new map of the size that the
/// settings ask for, which shows the levels of the noise where they are
/// given, and is grown by the automaton otherwise.
pub open spec fn is_map_of(
    map: &TileGrid,
    noise_levels: Option<Vec<NoiseLevel>>,
    settings: &MapSettings,
) -> bool {
    &&& is_new_map(map, settings.width, settings.height)
    &&& match noise_levels {
        Some(levels) => shows_noise(map, levels@, settings.stone_damaged),
        None => is_grown_map(map, settings),
    }
}

/// The error is the one that the generation of a map ends with where no map
/// comes of it: `OutOfBounds` where the levels of the noise are not one for
/// each tile, or the automaton would have more cells than can be counted,
/// and `NoExitPositions` where the rightmost column is all stone.
pub open spec fn is_error_of(
    error: MapError,
    noise_levels: Option<Vec<NoiseLevel>>,
    settings: &MapSettings,
) -> bool {
    match noise_levels {
        Some(levels) => error == if levels@.len() != settings.width * settings.height {
            MapError::OutOfBounds
        } else {
            MapError::NoExitPositions
        },
        None => if settings.width * settings.height > usize::MAX {
            error == MapError::OutOfBounds
        } else {
            error == MapError::NoExitPositions && is_grown_shut(settings)
        },
    }
}

/// Whether a map comes of its generation, as far as that is settled before
/// anything is drawn at random. From levels of the noise a map is drawn
/// exactly where there is one level for each tile and one in the rightmost
/// column that is not low. The automaton grows none where the map would have
/// more tiles than can be counted, and one where no cell lives at the start.
pub open spec fn map_comes(
    noise_levels: Option<Vec<NoiseLevel>>,
    settings: &MapSettings,
    drawn: bool,
) -> bool {
    match noise_levels {
        Some(levels) => drawn <==> levels@.len() == settings.width * settings.height
            && exists|index: int|
            0 <= index < levels@.len() && #[trigger] levels@[index] != NoiseLevel::Low
                && column_of(settings.width as int, index) == settings.width - 1,
        None => {
            &&& settings.width * settings.height > usize::MAX ==> !drawn
            &&& grows_open_map(settings) ==> drawn
        },
    }
}

/// Whether the generation of a map is tried again after it has ended with
/// `error`: only a map without a place for the exit is generated anew, and
/// only while fewer attempts have failed before this one than are allowed.
pub fn retries_map_generation(
    error: MapError,
    earlier_failures: usize,
    allowed_failures: usize,
) -> (again: bool)
    ensures
        again == (error == MapError::NoExitPositions && earlier_failures < allowed_failures),
{
    error == MapError::NoExitPositions && earlier_failures < allowed_failures
}

/// Generates the next map and asks for its actors to be placed: from the
/// levels of the noise where they are given, and with the cellular automaton
/// otherwise. Where no map comes of it the state stays as it is.
pub fn initialize_map(
    settings: &MapSettings,
    noise_levels: Option<Vec<NoiseLevel>>,
    game_next_state: &mut GameState,
) -> (map: Result<TileGrid, MapError>)
    ensures
        match map {
            Ok(map) => {
                &&& is_map_of(&map, noise_levels, settings)
                &&& *final(game_next_state) == GameState::InitializingActors
            },
            Err(error) => {
                &&& is_error_of(error, noise_levels, settings)
                &&& *final(game_next_state) == *old(game_next_state)
            },
        },
        map_comes(noise_levels, settings, map is Ok),
{
    let generated = match noise_levels {
        Some(levels) => {
            match TileGrid::from_noise_levels(
                levels,
                settings.width,
                settings.height,
                settings.stone_damaged,
            ) {
                Ok(map) => {
                    proof {
                        assert(is_vacant(&map)) by {
                            assert forall|index: int|
                                0 <= index < map.tiles@.len() implies #[trigger] occupant_of(
                                &map,
                                index,
                            ) is None by {
                                assert(map.tiles@[index].actor is None);
                            }
                        }
                        assert(map.holds(map.exits@[0]));
                        assert(map.tiles@[map.index_of(map.exits@[0])].kind == TileKind::LevelExit);
                    }
                    Ok(map)
                },
                Err(error) => Err(error),
            }
        },
        None => generate_map_with_automaton(settings),
    };
    if generated.is_ok() {
        *game_next_state = GameState::InitializingActors;
    }
    generated
}

} // verus!
