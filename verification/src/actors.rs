//! The actors of the game: the player and the mobs that share the map with it.

use crate::map::MapError;
use crate::map::MapPosition;
use crate::map::same_ground;
use crate::map::TileGrid;
use crate::map::tiles_after_move;
use crate::movement::can_step;
use crate::movement::Direction;
use crate::tile::Tile;
use crate::tile::TileKind;
use vstd::prelude::*;

verus! {

/// The number of rows in the actors' tileset image.
pub const TILESET_ACTOR_ROWS: usize = 1;

/// The number of columns in the actors' tileset image.
pub const TILESET_ACTOR_COLUMNS: usize = 3;

/// The index in the tileset image where the player's sprite is.
pub const TILESET_ACTOR_IDX_PLAYER: usize = 0;

/// The index in the tileset image where the rabbit's sprite is.
pub const TILESET_ACTOR_IDX_RABBIT: usize = 1;

/// The index in the tileset image where the blob's sprite is.
pub const TILESET_ACTOR_IDX_BLOB: usize = 2;

/// What an actor is.
#[derive(Clone, Copy, Debug, Eq, Hash, PartialEq, Structural)]
pub enum ActorKind {
    Blob,
    Rabbit,
    Player,
}

/// How an actor stands towards the player.
#[derive(Clone, Copy, Debug, Eq, PartialEq, Structural)]
pub enum ActorHostility {
    Enemy,
    Friend,
}

impl ActorKind {
    /// How actors of this kind stand towards the player: blobs are enemies,
    /// rabbits and the player are friends.
    pub open spec fn hostility(self) -> ActorHostility {
        match self {
            ActorKind::Blob => ActorHostility::Enemy,
            ActorKind::Rabbit => ActorHostility::Friend,
            ActorKind::Player => ActorHostility::Friend,
        }
    }

    /// How actors of this kind stand towards the player.
    pub fn get_hostility(&self) -> (hostility: ActorHostility)
        ensures
            hostility == self.hostility(),
    {
        match self {
            ActorKind::Blob => ActorHostility::Enemy,
            ActorKind::Rabbit => ActorHostility::Friend,
            ActorKind::Player => ActorHostility::Friend,
        }
    }
}

/// An actor as it stands on a tile. Its hostility follows from its kind and is
/// stored nowhere.
#[derive(Clone, Copy, Debug, Eq, PartialEq, Structural)]
pub struct Actor {
    pub kind: ActorKind,
}

impl Actor {
    /// An actor of the given kind.
    pub fn new(kind: ActorKind) -> (actor: Self)
        ensures
            actor.kind == kind,
    {
        Self { kind }
    }

    /// The index in the tileset image where the actor's sprite is.
    pub fn get_tileset_index(&self) -> (index: usize)
        ensures
            index == match self.kind {
                ActorKind::Blob => TILESET_ACTOR_IDX_BLOB,
                ActorKind::Player => TILESET_ACTOR_IDX_PLAYER,
                ActorKind::Rabbit => TILESET_ACTOR_IDX_RABBIT,
            },
            index < TILESET_ACTOR_ROWS * TILESET_ACTOR_COLUMNS,
    {
        match self.kind {
            ActorKind::Blob => TILESET_ACTOR_IDX_BLOB,
            ActorKind::Player => TILESET_ACTOR_IDX_PLAYER,
            ActorKind::Rabbit => TILESET_ACTOR_IDX_RABBIT,
        }
    }

    /// The actor is the player.
    pub fn is_player(&self) -> (player: bool)
        ensures
            player == (self.kind == ActorKind::Player),
    {
        self.kind == ActorKind::Player
    }

    /// The actor is an enemy of the player.
    pub fn is_hostile(&self) -> (hostile: bool)
        ensures
            hostile == (self.kind.hostility() == ActorHostility::Enemy),
    {
        self.kind.get_hostility() == ActorHostility::Enemy
    }

    /// The actor is a friend of the player, or the player.
    pub fn is_friendly(&self) -> (friendly: bool)
        ensures
            friendly == (self.kind.hostility() == ActorHostility::Friend),
            friendly != (self.kind.hostility() == ActorHostility::Enemy),
    {
        self.kind.get_hostility() == ActorHostility::Friend
    }
}

/// An actor of the game together with the position that it carries.
#[derive(Clone, Copy, Debug, Eq, PartialEq, Structural)]
pub struct ActorBundle {
    /// Who the actor is.
    pub actor: Actor,
    /// The position on the map where the actor stands.
    pub map_position: MapPosition,
}

impl ActorBundle {
    /// The actor `actor` at `map_position`.
    pub fn new(actor: Actor, map_position: MapPosition) -> (bundle: Self)
        ensures
            bundle == (ActorBundle { actor, map_position }),
    {
        Self { actor, map_position }
    }
}

/// The position that the actor at place `i` carries.
pub open spec fn stands_at(actors: Seq<ActorBundle>, i: int) -> MapPosition {
    actors[i].map_position
}

/// Who stands on the tile at place `index`.
pub open spec fn occupant_of(map: &TileGrid, index: int) -> Option<Actor> {
    map.tiles@[index].actor
}

/// Each actor stands on a tile of the map, and that tile holds it.
pub open spec fn all_stand(map: &TileGrid, actors: Seq<ActorBundle>) -> bool {
    forall|i: int|
        0 <= i < actors.len() ==> map.holds(#[trigger] stands_at(actors, i)) && map.tile_at(
            stands_at(actors, i),
        ).actor == Some(actors[i].actor)
}

/// No two actors carry the same position.
pub open spec fn all_apart(actors: Seq<ActorBundle>) -> bool {
    forall|i: int, j: int|
        0 <= i < j < actors.len() ==> #[trigger] stands_at(actors, i) != #[trigger] stands_at(
            actors,
            j,
        )
}

/// Whoever stands on a tile of the map is one of the actors.
pub open spec fn all_known(map: &TileGrid, actors: Seq<ActorBundle>) -> bool {
    forall|index: int|
        0 <= index < map.tiles@.len() && #[trigger] occupant_of(map, index) is Some ==> exists|
            i: int,
        |
            0 <= i < actors.len() && map.index_of(#[trigger] stands_at(actors, i)) == index
}

/// The tiles and the actors agree on who stands where: each actor stands on a
/// tile of the map that holds it, no two actors share a tile, and nobody
/// stands on a tile but the actors.
pub open spec fn in_lock_step(map: &TileGrid, actors: Seq<ActorBundle>) -> bool {
    &&& all_stand(map, actors)
    &&& all_apart(actors)
    &&& all_known(map, actors)
}

/// Lock-step is a matter of the tiles and the width of the map alone: a map
/// with the same tiles in rows of the same width is in lock-step with the
/// same actors.
pub proof fn lemma_lock_step_of_same_tiles(
    before: &TileGrid,
    after: &TileGrid,
    actors: Seq<ActorBundle>,
)
    requires
        in_lock_step(before, actors),
        after.width == before.width,
        after.tiles@ == before.tiles@,
    ensures
        in_lock_step(after, actors),
{
    assert(after.tiles.len() == before.tiles.len());
    assert forall|i: int| 0 <= i < actors.len() implies after.holds(
        #[trigger] stands_at(actors, i),
    ) && after.tile_at(stands_at(actors, i)).actor == Some(actors[i].actor) by {
        assert(before.holds(stands_at(actors, i)));
    }
    assert forall|index: int|
        0 <= index < after.tiles@.len() && #[trigger] occupant_of(after, index) is Some implies exists|
        i: int,
    |
        0 <= i < actors.len() && after.index_of(#[trigger] stands_at(actors, i)) == index by {
        assert(occupant_of(before, index) is Some);
        let i = choose|i: int|
            0 <= i < actors.len() && before.index_of(#[trigger] stands_at(actors, i)) == index;
        assert(after.index_of(stands_at(actors, i)) == index);
    }
}

/// The actors after the one at place `mover` has taken a step in `direction`.
pub open spec fn actors_after_step(
    actors: Seq<ActorBundle>,
    mover: int,
    direction: Direction,
) -> Seq<ActorBundle> {
    actors.update(
        mover,
        ActorBundle {
            actor: actors[mover].actor,
            map_position: direction.from(actors[mover].map_position),
        },
    )
}

/// Where actors stand in lock-step with the tiles, another actor's tile is
/// neither the tile that a stepping actor leaves nor a tile where nobody
/// stands.
proof fn lemma_others_are_elsewhere(
    before: &TileGrid,
    actors: Seq<ActorBundle>,
    mover: int,
    other: int,
    to: MapPosition,
)
    requires
        before.wf(),
        all_stand(before, actors),
        all_apart(actors),
        0 <= mover < actors.len(),
        0 <= other < actors.len(),
        other != mover,
        before.holds(to),
        before.tile_at(to).actor is None,
    ensures
        actors[other].map_position != actors[mover].map_position,
        actors[other].map_position != to,
        before.index_of(actors[other].map_position) != before.index_of(actors[mover].map_position),
        before.index_of(actors[other].map_position) != before.index_of(to),
        0 <= before.index_of(actors[other].map_position) < before.tiles@.len(),
        before.holds(actors[other].map_position),
        before.tile_at(actors[other].map_position).actor == Some(actors[other].actor),
{
    let from = stands_at(actors, mover);
    let there = stands_at(actors, other);
    assert(before.holds(there) && before.tile_at(there).actor is Some);
    assert(before.holds(from));
    if before.index_of(there) == before.index_of(from) {
        before.lemma_same_tile(there, from);
    }
}

/// The actor at place `mover` has taken an allowed step in `direction`, which
/// led from the map `before` to the map `after`.
pub open spec fn has_stepped(
    before: &TileGrid,
    after: &TileGrid,
    actors: Seq<ActorBundle>,
    mover: int,
    direction: Direction,
    occupied: Seq<MapPosition>,
) -> bool {
    &&& 0 <= mover < actors.len()
    &&& can_step(actors[mover].map_position, direction, before, occupied)
    &&& after.width == before.width
    &&& after.height == before.height
    &&& after.tiles@ == tiles_after_move(
        before.tiles@,
        before.index_of(actors[mover].map_position),
        before.index_of(direction.from(actors[mover].map_position)),
    )
}

proof fn lemma_step_places(
    before: &TileGrid,
    after: &TileGrid,
    actors: Seq<ActorBundle>,
    mover: int,
    direction: Direction,
    occupied: Seq<MapPosition>,
)
    requires
        before.wf(),
        all_stand(before, actors),
        has_stepped(before, after, actors, mover, direction, occupied),
    ensures
        ({
            let from = actors[mover].map_position;
            let to = direction.from(from);
            let a = before.index_of(from);
            let b = before.index_of(to);
            &&& 0 <= a < before.tiles@.len()
            &&& 0 <= b < before.tiles@.len()
            &&& a != b
            &&& before.holds(to)
            &&& before.tile_at(to).actor is None
            &&& before.tiles@[a].actor == Some(actors[mover].actor)
            &&& after.tiles@.len() == before.tiles@.len()
            &&& after.tiles@[a].actor is None
            &&& after.tiles@[b].actor == Some(actors[mover].actor)
            &&& forall|index: int|
                0 <= index < before.tiles@.len() && index != a && index != b
                    ==> #[trigger] after.tiles@[index] == before.tiles@[index]
        }),
{
    let from = stands_at(actors, mover);
    let to = direction.from(from);
    assert(before.holds(from));
    assert(from != to);
    if before.index_of(from) == before.index_of(to) {
        before.lemma_same_tile(from, to);
    }
}

proof fn lemma_step_keeps_all_stand(
    before: &TileGrid,
    after: &TileGrid,
    actors: Seq<ActorBundle>,
    mover: int,
    direction: Direction,
    occupied: Seq<MapPosition>,
)
    requires
        before.wf(),
        all_stand(before, actors),
        all_apart(actors),
        has_stepped(before, after, actors, mover, direction, occupied),
    ensures
        all_stand(after, actors_after_step(actors, mover, direction)),
{
    let to = direction.from(actors[mover].map_position);
    let moved = actors_after_step(actors, mover, direction);
    lemma_step_places(before, after, actors, mover, direction, occupied);
    assert forall|i: int| 0 <= i < moved.len() implies after.holds(
        #[trigger] stands_at(moved, i),
    ) && after.tile_at(stands_at(moved, i)).actor == Some(moved[i].actor) by {
        if i != mover {
            lemma_others_are_elsewhere(before, actors, mover, i, to);
            assert(moved[i] == actors[i]);
            assert(after.tiles@[before.index_of(actors[i].map_position)]
                == before.tiles@[before.index_of(actors[i].map_position)]);
        }
    }
}

proof fn lemma_step_keeps_all_apart(
    before: &TileGrid,
    after: &TileGrid,
    actors: Seq<ActorBundle>,
    mover: int,
    direction: Direction,
    occupied: Seq<MapPosition>,
)
    requires
        before.wf(),
        all_stand(before, actors),
        all_apart(actors),
        has_stepped(before, after, actors, mover, direction, occupied),
    ensures
        all_apart(actors_after_step(actors, mover, direction)),
{
    let to = direction.from(actors[mover].map_position);
    let moved = actors_after_step(actors, mover, direction);
    assert forall|i: int, j: int| 0 <= i < j < moved.len() implies #[trigger] stands_at(moved, i)
        != #[trigger] stands_at(moved, j) by {
        if i == mover {
            lemma_others_are_elsewhere(before, actors, mover, j, to);
        } else if j == mover {
            lemma_others_are_elsewhere(before, actors, mover, i, to);
        } else {
            assert(stands_at(actors, i) != stands_at(actors, j));
        }
    }
}

proof fn lemma_step_keeps_all_known(
    before: &TileGrid,
    after: &TileGrid,
    actors: Seq<ActorBundle>,
    mover: int,
    direction: Direction,
    occupied: Seq<MapPosition>,
)
    requires
        before.wf(),
        all_stand(before, actors),
        all_known(before, actors),
        has_stepped(before, after, actors, mover, direction, occupied),
    ensures
        all_known(after, actors_after_step(actors, mover, direction)),
{
    let from = actors[mover].map_position;
    let to = direction.from(from);
    let a = before.index_of(from);
    let b = before.index_of(to);
    let moved = actors_after_step(actors, mover, direction);
    lemma_step_places(before, after, actors, mover, direction, occupied);
    assert forall|index: int|
        0 <= index < after.tiles@.len() && #[trigger] occupant_of(after, index) is Some implies exists|
        i: int,
    |
        0 <= i < moved.len() && after.index_of(#[trigger] stands_at(moved, i)) == index by {
        if index == b {
            assert(after.index_of(stands_at(moved, mover)) == index);
        } else {
            assert(index != a);
            assert(after.tiles@[index] == before.tiles@[index]);
            assert(occupant_of(before, index) is Some);
            let i = choose|i: int|
                0 <= i < actors.len() && before.index_of(#[trigger] stands_at(actors, i)) == index;
            assert(i != mover);
            assert(moved[i] == actors[i]);
            assert(after.index_of(stands_at(moved, i)) == index);
        }
    }
}

/// An allowed step of one actor keeps the tiles and the actors in lock-step.
pub proof fn lemma_step_keeps_lock_step(
    before: &TileGrid,
    after: &TileGrid,
    actors: Seq<ActorBundle>,
    mover: int,
    direction: Direction,
    occupied: Seq<MapPosition>,
)
    requires
        before.wf(),
        in_lock_step(before, actors),
        has_stepped(before, after, actors, mover, direction, occupied),
    ensures
        in_lock_step(after, actors_after_step(actors, mover, direction)),
{
    lemma_step_keeps_all_stand(before, after, actors, mover, direction, occupied);
    lemma_step_keeps_all_apart(before, after, actors, mover, direction, occupied);
    lemma_step_keeps_all_known(before, after, actors, mover, direction, occupied);
}

/// The tiles after `actor` was put on the tile at place `index`.
pub open spec fn tiles_after_spawn(tiles: Seq<Tile>, index: int, actor: Actor) -> Seq<Tile> {
    tiles.update(index, Tile { kind: tiles[index].kind, actor: Some(actor) })
}

/// Putting an actor on a tile where nobody stands keeps the tiles and the
/// actors in lock-step.
pub proof fn lemma_spawn_keeps_lock_step(
    before: &TileGrid,
    after: &TileGrid,
    actors: Seq<ActorBundle>,
    bundle: ActorBundle,
)
    requires
        before.wf(),
        in_lock_step(before, actors),
        before.holds(bundle.map_position),
        before.tile_at(bundle.map_position).actor is None,
        after.width == before.width,
        after.height == before.height,
        after.tiles@ == tiles_after_spawn(
            before.tiles@,
            before.index_of(bundle.map_position),
            bundle.actor,
        ),
    ensures
        in_lock_step(after, actors.push(bundle)),
{
    let spot = before.index_of(bundle.map_position);
    let grown = actors.push(bundle);
    assert(all_stand(after, grown)) by {
        assert forall|i: int| 0 <= i < grown.len() implies after.holds(
            #[trigger] stands_at(grown, i),
        ) && after.tile_at(stands_at(grown, i)).actor == Some(grown[i].actor) by {
            if i < actors.len() {
                assert(grown[i] == actors[i]);
                assert(before.holds(stands_at(actors, i)));
                assert(before.tile_at(stands_at(actors, i)).actor is Some);
            }
        }
    }
    assert(all_apart(grown)) by {
        assert forall|i: int, j: int| 0 <= i < j < grown.len() implies #[trigger] stands_at(grown, i)
            != #[trigger] stands_at(grown, j) by {
            assert(grown[i] == actors[i]);
            if j < actors.len() {
                assert(grown[j] == actors[j]);
                assert(stands_at(actors, i) != stands_at(actors, j));
            } else {
                assert(before.tile_at(stands_at(actors, i)).actor is Some);
            }
        }
    }
    assert(all_known(after, grown)) by {
        assert forall|index: int|
            0 <= index < after.tiles@.len() && #[trigger] occupant_of(after, index) is Some implies exists|
            i: int,
        |
            0 <= i < grown.len() && after.index_of(#[trigger] stands_at(grown, i)) == index by {
            if index == spot {
                assert(after.index_of(stands_at(grown, actors.len() as int)) == index);
            } else {
                assert(occupant_of(before, index) is Some);
                let i = choose|i: int|
                    0 <= i < actors.len() && before.index_of(#[trigger] stands_at(actors, i))
                        == index;
                assert(grown[i] == actors[i]);
                assert(after.index_of(stands_at(grown, i)) == index);
            }
        }
    }
}

/// The place of the player among the first `count` actors: the last of them
/// that is a player, or `None` where none is.
pub open spec fn player_place_among(actors: Seq<ActorBundle>, count: int) -> Option<int>
    decreases count,
{
    if count <= 0 {
        None
    } else if actors[count - 1].actor.kind == ActorKind::Player {
        Some(count - 1)
    } else {
        player_place_among(actors, count - 1)
    }
}

/// The place of the player among the actors: the last of them that is a
/// player, or `None` where none is.
pub open spec fn player_place(actors: Seq<ActorBundle>) -> Option<int> {
    player_place_among(actors, actors.len() as int)
}

/// The place of the player is the place of a player, and no player comes
/// after it; where there is none, no actor is a player.
pub proof fn lemma_find_player(actors: Seq<ActorBundle>, count: int)
    requires
        0 <= count <= actors.len(),
    ensures
        match player_place_among(actors, count) {
            Some(place) => {
                &&& 0 <= place < count
                &&& actors[place].actor.kind == ActorKind::Player
                &&& forall|later: int|
                    place < later < count ==> (#[trigger] actors[later]).actor.kind
                        != ActorKind::Player
            },
            None => forall|i: int|
                0 <= i < count ==> (#[trigger] actors[i]).actor.kind != ActorKind::Player,
        },
    decreases count,
{
    if count > 0 && actors[count - 1].actor.kind != ActorKind::Player {
        lemma_find_player(actors, count - 1);
    }
}

/// The place of the player among the actors: the last of them that is a
/// player, or `None` where none is.
pub fn find_player(actors: &Vec<ActorBundle>) -> (place: Option<usize>)
    ensures
        match place {
            Some(place) => player_place(actors@) == Some(place as int) && place < actors@.len(),
            None => player_place(actors@) is None,
        },
{
    let mut i: usize = actors.len();
    while i > 0
        invariant
            i <= actors@.len(),
            player_place(actors@) == player_place_among(actors@, i as int),
        decreases i,
    {
        i -= 1;
        if actors[i].actor.is_player() {
            return Some(i);
        }
    }
    None
}

/// Each kind of actor has at most one entry in `counts`.
pub open spec fn has_each_kind_once(counts: Seq<(ActorKind, usize)>) -> bool {
    forall|first: int, second: int|
        0 <= first < second < counts.len() ==> (#[trigger] counts[first]).0
            != (#[trigger] counts[second]).0
}

/// How many mobs of each kind a map is populated with: three blobs, then three
/// rabbits. Each kind has one entry, and the entries are walked in the order
/// in which they stand.
pub fn generate_spawn_counts(_map: &TileGrid) -> (counts: Vec<(ActorKind, usize)>)
    ensures
        counts@ == seq![(ActorKind::Blob, 3usize), (ActorKind::Rabbit, 3usize)],
        has_each_kind_once(counts@),
        only_mobs(counts@),
{
    let mut result: Vec<(ActorKind, usize)> = Vec::new();
    result.push((ActorKind::Blob, 3));
    result.push((ActorKind::Rabbit, 3));
    assert(result@ =~= seq![(ActorKind::Blob, 3usize), (ActorKind::Rabbit, 3usize)]);
    result
}

/// Puts `actor` on the tile at `position`, where nobody stands, and adds it to
/// the actors.
fn spawn_at(actor: Actor, map: &mut TileGrid, position: MapPosition, actors: &mut Vec<ActorBundle>)
    requires
        old(map).wf(),
        old(map).holds(position),
        old(map).tile_at(position).actor is None,
    ensures
        final(map).wf(),
        final(map).width == old(map).width,
        final(map).height == old(map).height,
        final(map).exits@ == old(map).exits@,
        final(map).tiles@ == tiles_after_spawn(
            old(map).tiles@,
            old(map).index_of(position),
            actor,
        ),
        final(actors)@ == old(actors)@.push(ActorBundle { actor, map_position: position }),
        in_lock_step(old(map), old(actors)@) ==> in_lock_step(final(map), final(actors)@),
{
    let tile_pos: usize = match map.as_tile_index(&position) {
        Ok(index) => index,
        Err(_) => {
            proof {
                assert(false);
            }
            return ;
        },
    };
    let tile = map.tiles[tile_pos];
    map.tiles.set(tile_pos, Tile { kind: tile.kind, actor: Some(actor) });
    actors.push(ActorBundle::new(actor, position));
    proof {
        assert forall|k: int| 0 <= k < map.exits@.len() implies map.holds(
            #[trigger] map.exits@[k],
        ) && map.tile_at(map.exits@[k]).kind == TileKind::LevelExit by {
            assert(old(map).holds(old(map).exits@[k]));
        }
        if in_lock_step(old(map), old(actors)@) {
            lemma_spawn_keeps_lock_step(
                old(map),
                map,
                old(actors)@,
                ActorBundle { actor, map_position: position },
            );
        }
    }
}

/// The tiles after `actor` was put on the first `count` of `positions`, one
/// after the other.
pub open spec fn tiles_after_spawns(
    map: &TileGrid,
    positions: Seq<MapPosition>,
    actor: Actor,
    count: int,
) -> Seq<Tile>
    decreases count,
{
    if count <= 0 {
        map.tiles@
    } else {
        tiles_after_spawn(
            tiles_after_spawns(map, positions, actor, count - 1),
            map.index_of(positions[count - 1]),
            actor,
        )
    }
}

/// An actor can be put on `positions[count]` once the `count` positions before
/// it are taken: it names a tile of the map, and nobody stands there yet.
pub open spec fn can_spawn_next(
    map: &TileGrid,
    positions: Seq<MapPosition>,
    actor: Actor,
    count: int,
) -> bool {
    &&& map.holds(positions[count])
    &&& tiles_after_spawns(map, positions, actor, count)[map.index_of(positions[count])].actor
        is None
}

/// The bundles of `actor` at the first `count` of `positions`.
pub open spec fn spawned_at(positions: Seq<MapPosition>, actor: Actor, count: int) -> Seq<
    ActorBundle,
> {
    Seq::new(count as nat, |k: int| ActorBundle { actor, map_position: positions[k] })
}

/// Puts an actor of the given kind on each of `positions`, in their order, and
/// adds it to the actors.
///
/// The first position that names no tile of the map, or a tile where somebody
/// stands already, ends the call with `OutOfBounds` or `TileOccupied`; the
/// actors placed before it stay.
pub fn spawn_creature(
    actor_kind: ActorKind,
    map: &mut TileGrid,
    positions: &[MapPosition],
    actors: &mut Vec<ActorBundle>,
) -> (spawned: Result<(), MapError>)
    requires
        old(map).wf(),
    ensures
        final(map).wf(),
        final(map).width == old(map).width,
        final(map).height == old(map).height,
        final(map).exits@ == old(map).exits@,
        exists|placed: int|
            {
                &&& 0 <= placed <= positions@.len()
                &&& forall|k: int|
                    0 <= k < placed ==> #[trigger] can_spawn_next(
                        old(map),
                        positions@,
                        Actor { kind: actor_kind },
                        k,
                    )
                &&& final(map).tiles@ == #[trigger] tiles_after_spawns(
                    old(map),
                    positions@,
                    Actor { kind: actor_kind },
                    placed,
                )
                &&& final(actors)@ == old(actors)@ + spawned_at(
                    positions@,
                    Actor { kind: actor_kind },
                    placed,
                )
                &&& match spawned {
                    Ok(_) => placed == positions@.len(),
                    Err(error) => {
                        &&& placed < positions@.len()
                        &&& !can_spawn_next(old(map), positions@, Actor { kind: actor_kind }, placed)
                        &&& error == if old(map).holds(positions@[placed]) {
                            MapError::TileOccupied
                        } else {
                            MapError::OutOfBounds
                        }
                    },
                }
            },
        in_lock_step(old(map), old(actors)@) ==> in_lock_step(final(map), final(actors)@),
{
    let actor = Actor::new(actor_kind);
    let mut placed: usize = 0;
    while placed < positions.len()
        invariant
            placed <= positions@.len(),
            actor == (Actor { kind: actor_kind }),
            old(map).wf(),
            map.wf(),
            map.width == old(map).width,
            map.height == old(map).height,
            map.exits@ == old(map).exits@,
            forall|k: int| 0 <= k < placed ==> #[trigger] can_spawn_next(old(map), positions@, actor, k),
            map.tiles@ == tiles_after_spawns(old(map), positions@, actor, placed as int),
            actors@ == old(actors)@ + spawned_at(positions@, actor, placed as int),
            in_lock_step(old(map), old(actors)@) ==> in_lock_step(map, actors@),
        decreases positions@.len() - placed,
    {
        let position = positions[placed];
        let tile_pos: usize = match map.as_tile_index(&position) {
            Ok(index) => index,
            Err(error) => {
                return Err(error);
            },
        };
        let tile = map.tiles[tile_pos];
        if tile.actor.is_some() {
            return Err(MapError::TileOccupied);
        }
        spawn_at(actor, map, position, actors);
        proof {
            assert(actors@ =~= old(actors)@ + spawned_at(positions@, actor, placed + 1));
        }
        placed += 1;
    }
    Ok(())
}

/// The kinds of the mobs that the first `groups` entries of `counts` ask for:
/// as many of each kind as its entry says, in the order of the entries.
pub open spec fn kinds_among(counts: Seq<(ActorKind, usize)>, groups: int) -> Seq<ActorKind>
    decreases groups,
{
    if groups <= 0 {
        Seq::empty()
    } else {
        kinds_among(counts, groups - 1) + Seq::new(
            counts[groups - 1].1 as nat,
            |k: int| counts[groups - 1].0,
        )
    }
}

/// The kinds of all the mobs that `counts` asks for.
pub open spec fn requested_kinds(counts: Seq<(ActorKind, usize)>) -> Seq<ActorKind> {
    kinds_among(counts, counts.len() as int)
}

/// The positions that the actors carry.
pub open spec fn positions_of(actors: Seq<ActorBundle>) -> Seq<MapPosition> {
    Seq::new(actors.len(), |i: int| actors[i].map_position)
}

/// How many mobs are placed on `map`: all that `counts` asks for, or none
/// where the map has not enough free tiles for all of them.
pub open spec fn mobs_to_place(
    map: &TileGrid,
    excluded: Seq<MapPosition>,
    counts: Seq<(ActorKind, usize)>,
) -> int {
    if requested_kinds(counts).len() <= map.spawnable_positions(excluded).len() {
        requested_kinds(counts).len() as int
    } else {
        0
    }
}

/// Every actor is a player.
pub open spec fn only_players(actors: Seq<ActorBundle>) -> bool {
    forall|i: int| 0 <= i < actors.len() ==> (#[trigger] actors[i]).actor.kind == ActorKind::Player
}

/// No entry of `counts` asks for players.
pub open spec fn only_mobs(counts: Seq<(ActorKind, usize)>) -> bool {
    forall|group: int| 0 <= group < counts.len() ==> (#[trigger] counts[group]).0 != ActorKind::Player
}

/// Nobody stands on any tile of the map.
pub open spec fn is_vacant(map: &TileGrid) -> bool {
    forall|index: int| 0 <= index < map.tiles@.len() ==> #[trigger] occupant_of(map, index) is None
}

/// The number of mobs that `counts` asks for, or `None` where it is too large
/// to count.
fn total_requested(counts: &Vec<(ActorKind, usize)>) -> (total: Option<usize>)
    ensures
        match total {
            Some(total) => total == requested_kinds(counts@).len(),
            None => requested_kinds(counts@).len() > usize::MAX,
        },
{
    let mut total: usize = 0;
    let mut group: usize = 0;
    while group < counts.len()
        invariant
            group <= counts@.len(),
            total == kinds_among(counts@, group as int).len(),
        decreases counts@.len() - group,
    {
        match total.checked_add(counts[group].1) {
            Some(sum) => {
                total = sum;
            },
            None => {
                proof {
                    lemma_kinds_among_grows(counts@, group + 1, counts@.len() as int);
                }
                return None;
            },
        }
        group += 1;
    }
    Some(total)
}

/// More entries ask for no fewer mobs.
proof fn lemma_kinds_among_grows(counts: Seq<(ActorKind, usize)>, fewer: int, more: int)
    requires
        0 <= fewer <= more,
    ensures
        kinds_among(counts, fewer).len() <= kinds_among(counts, more).len(),
    decreases more - fewer,
{
    if fewer < more {
        lemma_kinds_among_grows(counts, fewer, more - 1);
    }
}

/// Populates a map that nobody stands on: places the mobs that `counts` asks
/// for, then the player, each on a free tile of its own.
///
/// The mobs get random free tiles in one batch, none of them a position that
/// an actor carries from before; where the map has not enough such tiles, no
/// mob is placed. The player then gets a random tile among those still free.
/// Of the actors from before the call, who are players that come from
/// another map, nothing but the player is left, with its position assigned
/// anew. On success the mobs come first among the actors, in the order of
/// `counts`, and the player last, and the result is the number of mobs.
///
/// Where no tile is left for the player the error is `NoSpawnablePositions`,
/// and the map and the actors are as they were before the call.
pub fn place_actors(
    map: &mut TileGrid,
    actors: &mut Vec<ActorBundle>,
    counts: &Vec<(ActorKind, usize)>,
) -> (placed: Result<usize, MapError>)
    requires
        old(map).wf(),
        is_vacant(old(map)),
        only_players(old(actors)@),
        only_mobs(counts@),
    ensures
        final(map).wf(),
        final(map).width == old(map).width,
        final(map).height == old(map).height,
        final(map).exits@ == old(map).exits@,
        same_ground(old(map).tiles@, final(map).tiles@),
        placed is Ok <==> old(map).spawnable_positions(Seq::empty()).len() > mobs_to_place(
            old(map),
            positions_of(old(actors)@),
            counts@,
        ),
        match placed {
            Ok(mobs) => {
                &&& mobs == mobs_to_place(old(map), positions_of(old(actors)@), counts@)
                &&& final(actors)@.len() == mobs + 1
                &&& forall|k: int|
                    0 <= k < mobs ==> {
                        &&& (#[trigger] final(actors)@[k]).actor.kind == requested_kinds(counts@)[k]
                        &&& final(actors)@[k].actor.kind != ActorKind::Player
                        &&& old(map).is_free(
                            positions_of(old(actors)@),
                            final(actors)@[k].map_position,
                        )
                    }
                &&& final(actors)@[mobs as int].actor.kind == ActorKind::Player
                &&& old(map).is_free(Seq::empty(), final(actors)@[mobs as int].map_position)
                &&& in_lock_step(final(map), final(actors)@)
            },
            Err(error) => {
                &&& error == MapError::NoSpawnablePositions
                &&& final(map).tiles@ == old(map).tiles@
                &&& final(actors)@ == old(actors)@
            },
        },
{
    let mut stale: Vec<MapPosition> = Vec::new();
    let mut returning: Vec<ActorBundle> = Vec::new();
    let mut i: usize = 0;
    while i < actors.len()
        invariant
            i <= actors@.len(),
            actors@ == old(actors)@,
            stale@ == positions_of(actors@).take(i as int),
            returning@ == actors@.take(i as int),
        decreases actors@.len() - i,
    {
        stale.push(actors[i].map_position);
        returning.push(actors[i]);
        i += 1;
        proof {
            assert(stale@ =~= positions_of(actors@).take(i as int));
            assert(returning@ =~= actors@.take(i as int));
        }
    }
    proof {
        assert(stale@ =~= positions_of(old(actors)@));
        assert(returning@ =~= old(actors)@);
    }
    actors.clear();
    let requested = total_requested(counts);
    let positions: Vec<MapPosition> = match requested {
        Some(total) => {
            match map.generate_random_positions(total, stale.as_slice()) {
                Ok(positions) => positions,
                Err(_) => Vec::new(),
            }
        },
        None => {
            proof {
                map.lemma_spawnable_count(stale@, map.tiles.len() as int);
            }
            Vec::new()
        },
    };
    let ghost mobs = mobs_to_place(old(map), stale@, counts@);
    assert(positions@.len() == mobs);
    assert(in_lock_step(map, actors@)) by {
        assert(all_known(map, actors@));
    }
    let mut spawned: usize = 0;
    if positions.len() > 0 {
        let mut group: usize = 0;
        while group < counts.len()
            invariant
                group <= counts@.len(),
                old(map).wf(),
                map.wf(),
                map.width == old(map).width,
                map.height == old(map).height,
                map.exits@ == old(map).exits@,
                map.tiles@.len() == old(map).tiles@.len(),
                same_ground(old(map).tiles@, map.tiles@),
                in_lock_step(map, actors@),
                positions@.len() == requested_kinds(counts@).len(),
                positions@.no_duplicates(),
                forall|k: int|
                    0 <= k < positions@.len() ==> old(map).is_free(
                        stale@,
                        #[trigger] positions@[k],
                    ),
                spawned == kinds_among(counts@, group as int).len(),
                spawned <= positions@.len(),
                actors@.len() == spawned,
                forall|other: int|
                    0 <= other < counts@.len() ==> (#[trigger] counts@[other]).0
                        != ActorKind::Player,
                forall|k: int|
                    0 <= k < spawned ==> (#[trigger] actors@[k]).actor.kind == kinds_among(
                        counts@,
                        group as int,
                    )[k] && actors@[k].map_position == positions@[k] && actors@[k].actor.kind
                        != ActorKind::Player,
            decreases counts@.len() - group,
        {
            let kind = counts[group].0;
            let quantity: usize = counts[group].1;
            let ghost base = spawned as int;
            let ghost earlier = kinds_among(counts@, group as int);
            let ghost wanted = kinds_among(counts@, group + 1);
            proof {
                lemma_kinds_among_grows(counts@, group + 1, counts@.len() as int);
                assert(wanted =~= earlier + Seq::new(quantity as nat, |k: int| kind));
            }
            let mut done: usize = 0;
            while done < quantity
                invariant
                    done <= quantity,
                    spawned == base + done,
                    base + quantity == wanted.len(),
                    wanted.len() <= positions.len(),
                    wanted =~= earlier + Seq::new(quantity as nat, |k: int| kind),
                    earlier.len() == base,
                    old(map).wf(),
                    map.wf(),
                    map.width == old(map).width,
                    map.height == old(map).height,
                    map.exits@ == old(map).exits@,
                    map.tiles@.len() == old(map).tiles@.len(),
                    same_ground(old(map).tiles@, map.tiles@),
                    in_lock_step(map, actors@),
                    positions@.no_duplicates(),
                    forall|k: int|
                        0 <= k < positions@.len() ==> old(map).is_free(
                            stale@,
                            #[trigger] positions@[k],
                        ),
                    actors@.len() == spawned,
                    kind != ActorKind::Player,
                    forall|k: int|
                        0 <= k < spawned ==> (#[trigger] actors@[k]).actor.kind == wanted[k]
                            && actors@[k].map_position == positions@[k] && actors@[k].actor.kind
                            != ActorKind::Player,
                decreases quantity - done,
            {
                let position = positions[spawned];
                proof {
                    assert(old(map).is_free(stale@, position));
                    assert(map.holds(position));
                    if map.tile_at(position).actor is Some {
                        assert(occupant_of(map, map.index_of(position)) is Some);
                        let other = choose|other: int|
                            0 <= other < actors@.len() && map.index_of(
                                #[trigger] stands_at(actors@, other),
                            ) == map.index_of(position);
                        assert(map.holds(stands_at(actors@, other)));
                        map.lemma_same_tile(stands_at(actors@, other), position);
                        assert(positions@[other] == positions@[spawned as int]);
                    }
                }
                spawn_at(Actor::new(kind), map, position, actors);
                spawned += 1;
                done += 1;
            }
            group += 1;
        }
    }
    proof {
        assert(spawned == mobs);
        assert forall|k: int| 0 <= k < positions@.len() implies !map.is_free(
            Seq::empty(),
            #[trigger] positions@[k],
        ) by {
            assert(stands_at(actors@, k) == positions@[k]);
        }
    }
    let ghost free = old(map).spawnable_positions(Seq::empty());
    proof {
        old(map).lemma_spawnable_positions(Seq::empty());
        assert forall|k: int| 0 <= k < positions@.len() implies free.contains(
            #[trigger] positions@[k],
        ) by {
            assert(old(map).is_free(stale@, positions@[k]));
            assert(!Seq::<MapPosition>::empty().contains(positions@[k]));
            assert(old(map).is_free(Seq::empty(), positions@[k]));
        }
    }
    match map.generate_random_positions(1, positions.as_slice()) {
        Ok(chosen) => {
            let position = chosen[0];
            proof {
                assert(map.is_free(positions@, position));
                assert(occupant_of(old(map), old(map).index_of(position)) is None);
                assert(!Seq::<MapPosition>::empty().contains(position));
                assert(old(map).is_free(Seq::empty(), position));
                let taken = positions@.push(position);
                assert(taken.no_duplicates());
                assert forall|k: int| 0 <= k < taken.len() implies free.contains(
                    #[trigger] taken[k],
                ) by {
                    if k < positions@.len() {
                        assert(taken[k] == positions@[k]);
                    }
                }
                lemma_distinct_positions_fit(taken, free);
            }
            spawn_at(Actor::new(ActorKind::Player), map, position, actors);
            Ok(spawned)
        },
        Err(error) => {
            proof {
                map.lemma_spawnable_positions(positions@);
                assert forall|k: int| 0 <= k < free.len() implies positions@.contains(
                    #[trigger] free[k],
                ) by {
                    let position = free[k];
                    assert(free.contains(position));
                    assert(old(map).is_free(Seq::empty(), position));
                    if !positions@.contains(position) {
                        if map.is_free(positions@, position) {
                            assert(map.spawnable_positions(positions@).contains(position));
                        }
                        assert(map.holds(position));
                        assert(map.tile_at(position).kind == old(map).tile_at(position).kind);
                        assert(occupant_of(map, map.index_of(position)) is Some);
                        let other = choose|other: int|
                            0 <= other < actors@.len() && map.index_of(
                                #[trigger] stands_at(actors@, other),
                            ) == map.index_of(position);
                        assert(map.holds(stands_at(actors@, other)));
                        map.lemma_same_tile(stands_at(actors@, other), position);
                        assert(positions@[other] == position);
                    }
                }
                lemma_distinct_positions_fit(free, positions@);
            }
            let total: usize = map.tiles.len();
            let mut index: usize = 0;
            while index < total
                invariant
                    index <= total,
                    total == map.tiles@.len(),
                    old(map).wf(),
                    is_vacant(old(map)),
                    map.width == old(map).width,
                    map.height == old(map).height,
                    map.exits@ == old(map).exits@,
                    same_ground(old(map).tiles@, map.tiles@),
                    forall|cleared: int|
                        0 <= cleared < index ==> #[trigger] map.tiles@[cleared] == old(
                            map,
                        ).tiles@[cleared],
                decreases total - index,
            {
                let tile = map.tiles[index];
                proof {
                    assert(occupant_of(old(map), index as int) is None);
                }
                map.tiles.set(index, Tile { kind: tile.kind, actor: None });
                index += 1;
            }
            proof {
                assert(map.tiles@ =~= old(map).tiles@);
                assert forall|k: int| 0 <= k < map.exits@.len() implies map.holds(
                    #[trigger] map.exits@[k],
                ) && map.tile_at(map.exits@[k]).kind == TileKind::LevelExit by {
                    assert(old(map).holds(old(map).exits@[k]));
                }
            }
            actors.clear();
            actors.append(&mut returning);
            assert(actors@ =~= old(actors)@);
            Err(MapError::NoSpawnablePositions)
        },
    }
}

/// Distinct positions that are all among some others are no more than those.
pub proof fn lemma_distinct_positions_fit(distinct: Seq<MapPosition>, others: Seq<MapPosition>)
    requires
        distinct.no_duplicates(),
        forall|k: int| 0 <= k < distinct.len() ==> others.contains(#[trigger] distinct[k]),
    ensures
        distinct.len() <= others.len(),
{
    broadcast use vstd::seq_lib::seq_to_set_is_finite;

    distinct.unique_seq_to_set();
    others.lemma_cardinality_of_set();
    assert(distinct.to_set().subset_of(others.to_set())) by {
        assert forall|position: MapPosition| distinct.to_set().contains(position) implies others.to_set().contains(
            position,
        ) by {
            let k = choose|k: int| 0 <= k < distinct.len() && distinct[k] == position;
            assert(others.contains(distinct[k]));
        }
    }
    vstd::set_lib::lemma_len_subset(distinct.to_set(), others.to_set());
}

} // verus!
