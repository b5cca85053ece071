//! Single steps on the map: which are allowed, and how they are carried out.
//!
//! An actor steps onto a neighbouring tile where that tile belongs to the
//! map, can be walked on, has nobody on it, and is none of the positions
//! that the caller rules out. A step that is not allowed changes nothing.

use crate::actors::ActorBundle;
use crate::actors::ActorHostility;
use crate::actors::ActorKind;
use crate::actors::actors_after_step;
use crate::actors::find_player;
use crate::actors::has_stepped;
use crate::actors::in_lock_step;
use crate::actors::lemma_lock_step_of_same_tiles;
use crate::actors::lemma_step_keeps_lock_step;
use crate::actors::player_place;
use crate::map::manhattan_distance;
use crate::map::MapPosition;
use crate::map::same_ground;
use crate::map::TileGrid;
use crate::map::tiles_after_move;
use crate::random::random_index;
use vstd::prelude::*;

verus! {

/// The four directions of a step.
#[derive(Clone, Copy, Debug, Eq, PartialEq, Structural)]
pub enum Direction {
    Left,
    Right,
    Up,
    Down,
}

impl Direction {
    /// A step from `position` in this direction stays among the positions that
    /// can be counted: it neither falls below zero nor runs past the largest
    /// number.
    pub open spec fn leads_on(self, position: MapPosition) -> bool {
        match self {
            Direction::Left => position.x > 0,
            Direction::Right => position.x < usize::MAX,
            Direction::Up => position.y > 0,
            Direction::Down => position.y < usize::MAX,
        }
    }

    /// The position one step from `position` in this direction.
    pub open spec fn from(self, position: MapPosition) -> MapPosition {
        match self {
            Direction::Left => MapPosition { x: (position.x - 1) as usize, y: position.y },
            Direction::Right => MapPosition { x: (position.x + 1) as usize, y: position.y },
            Direction::Up => MapPosition { x: position.x, y: (position.y - 1) as usize },
            Direction::Down => MapPosition { x: position.x, y: (position.y + 1) as usize },
        }
    }
}

/// An actor at `position` can take a step in `direction`: it stands on the
/// map, and the tile it would reach is free.
pub open spec fn can_step(
    position: MapPosition,
    direction: Direction,
    map: &TileGrid,
    occupied: Seq<MapPosition>,
) -> bool {
    &&& map.holds(position)
    &&& direction.leads_on(position)
    &&& map.is_free(occupied, direction.from(position))
}

/// The positions that an actor at `position` can step to: left, right, up and
/// down, as far as each step is allowed, in that order.
pub open spec fn reachable_positions(
    position: MapPosition,
    map: &TileGrid,
    occupied: Seq<MapPosition>,
) -> Seq<MapPosition> {
    let none = Seq::<MapPosition>::empty();
    let left = if can_step(position, Direction::Left, map, occupied) {
        none.push(Direction::Left.from(position))
    } else {
        none
    };
    let right = if can_step(position, Direction::Right, map, occupied) {
        left.push(Direction::Right.from(position))
    } else {
        left
    };
    let up = if can_step(position, Direction::Up, map, occupied) {
        right.push(Direction::Up.from(position))
    } else {
        right
    };
    if can_step(position, Direction::Down, map, occupied) {
        up.push(Direction::Down.from(position))
    } else {
        up
    }
}

/// The step that brings a mob closer to the player along the row or the
/// column they share, and none where they share neither or stand on the
/// same tile.
pub open spec fn approach(mob: MapPosition, player: MapPosition) -> Option<Direction> {
    if mob.y == player.y && mob.x < player.x {
        Some(Direction::Right)
    } else if mob.y == player.y && mob.x > player.x {
        Some(Direction::Left)
    } else if mob.x == player.x && mob.y > player.y {
        Some(Direction::Up)
    } else if mob.x == player.x && mob.y < player.y {
        Some(Direction::Down)
    } else {
        None
    }
}

/// The map and the actor's position are as they were before the call.
pub open spec fn stayed(
    before: &TileGrid,
    after: &TileGrid,
    position_before: MapPosition,
    position_after: MapPosition,
) -> bool {
    &&& after.tiles@ == before.tiles@
    &&& position_after == position_before
}

/// The actor has taken one step in `direction`, on the tiles and in the
/// position that it carries.
pub open spec fn stepped(
    before: &TileGrid,
    after: &TileGrid,
    position_before: MapPosition,
    position_after: MapPosition,
    direction: Direction,
) -> bool {
    &&& after.tiles@ == tiles_after_move(
        before.tiles@,
        before.index_of(position_before),
        before.index_of(direction.from(position_before)),
    )
    &&& position_after == direction.from(position_before)
}

/// Whether an actor at `pos` can take a step in `direction`.
pub fn can_move(
    pos: &MapPosition,
    direction: Direction,
    map: &TileGrid,
    occupied: &[MapPosition],
) -> (allowed: bool)
    ensures
        allowed == can_step(*pos, direction, map, occupied@),
{
    if !map.as_tile_index(pos).is_ok() {
        return false;
    }
    let destination = match direction {
        Direction::Left => pos.left(),
        Direction::Right => pos.right(),
        Direction::Up => pos.up(),
        Direction::Down => pos.down(),
    };
    match destination {
        Ok(destination) => map.is_position_free(&destination, occupied),
        Err(_) => false,
    }
}

/// Whether an actor at `pos` can step one column to the left.
pub fn can_move_left(pos: &MapPosition, map: &TileGrid, occupied: &[MapPosition]) -> (allowed:
    bool)
    ensures
        allowed == can_step(*pos, Direction::Left, map, occupied@),
{
    can_move(pos, Direction::Left, map, occupied)
}

/// Whether an actor at `pos` can step one column to the right.
pub fn can_move_right(pos: &MapPosition, map: &TileGrid, occupied: &[MapPosition]) -> (allowed:
    bool)
    ensures
        allowed == can_step(*pos, Direction::Right, map, occupied@),
{
    can_move(pos, Direction::Right, map, occupied)
}

/// Whether an actor at `pos` can step one row up.
pub fn can_move_up(pos: &MapPosition, map: &TileGrid, occupied: &[MapPosition]) -> (allowed: bool)
    ensures
        allowed == can_step(*pos, Direction::Up, map, occupied@),
{
    can_move(pos, Direction::Up, map, occupied)
}

/// Whether an actor at `pos` can step one row down.
pub fn can_move_down(pos: &MapPosition, map: &TileGrid, occupied: &[MapPosition]) -> (allowed:
    bool)
    ensures
        allowed == can_step(*pos, Direction::Down, map, occupied@),
{
    can_move(pos, Direction::Down, map, occupied)
}

/// Moves the actor at `position` one step in `direction` where that step is
/// allowed, and says whether it was. A step that is not allowed changes
/// nothing.
pub fn move_toward(
    map: &mut TileGrid,
    position: &mut MapPosition,
    direction: Direction,
    occupied: &[MapPosition],
) -> (moved: bool)
    ensures
        moved == can_step(*old(position), direction, old(map), occupied@),
        moved ==> stepped(old(map), final(map), *old(position), *final(position), direction),
        !moved ==> stayed(old(map), final(map), *old(position), *final(position)),
        final(map).width == old(map).width,
        final(map).height == old(map).height,
        final(map).exits@ == old(map).exits@,
        old(map).wf() ==> final(map).wf(),
{
    if !can_move(position, direction, map, occupied) {
        return false;
    }
    let destination = match direction {
        Direction::Left => MapPosition { x: position.x - 1, y: position.y },
        Direction::Right => MapPosition { x: position.x + 1, y: position.y },
        Direction::Up => MapPosition { x: position.x, y: position.y - 1 },
        Direction::Down => MapPosition { x: position.x, y: position.y + 1 },
    };
    let moved = map.move_actor(position, &destination);
    moved.is_ok()
}

/// Moves the actor at `position` one column to the left, where it can.
pub fn move_left(map: &mut TileGrid, position: &mut MapPosition, occupied: &[MapPosition]) -> (moved:
    bool)
    ensures
        moved == can_step(*old(position), Direction::Left, old(map), occupied@),
        moved ==> stepped(old(map), final(map), *old(position), *final(position), Direction::Left),
        !moved ==> stayed(old(map), final(map), *old(position), *final(position)),
        final(map).width == old(map).width,
        final(map).height == old(map).height,
        final(map).exits@ == old(map).exits@,
        old(map).wf() ==> final(map).wf(),
{
    move_toward(map, position, Direction::Left, occupied)
}

/// Moves the actor at `position` one column to the right, where it can.
pub fn move_right(map: &mut TileGrid, position: &mut MapPosition, occupied: &[MapPosition]) -> (moved:
    bool)
    ensures
        moved == can_step(*old(position), Direction::Right, old(map), occupied@),
        moved ==> stepped(old(map), final(map), *old(position), *final(position), Direction::Right),
        !moved ==> stayed(old(map), final(map), *old(position), *final(position)),
        final(map).width == old(map).width,
        final(map).height == old(map).height,
        final(map).exits@ == old(map).exits@,
        old(map).wf() ==> final(map).wf(),
{
    move_toward(map, position, Direction::Right, occupied)
}

/// Moves the actor at `position` one row up, where it can.
pub fn move_up(map: &mut TileGrid, position: &mut MapPosition, occupied: &[MapPosition]) -> (moved:
    bool)
    ensures
        moved == can_step(*old(position), Direction::Up, old(map), occupied@),
        moved ==> stepped(old(map), final(map), *old(position), *final(position), Direction::Up),
        !moved ==> stayed(old(map), final(map), *old(position), *final(position)),
        final(map).width == old(map).width,
        final(map).height == old(map).height,
        final(map).exits@ == old(map).exits@,
        old(map).wf() ==> final(map).wf(),
{
    move_toward(map, position, Direction::Up, occupied)
}

/// Moves the actor at `position` one row down, where it can.
pub fn move_down(map: &mut TileGrid, position: &mut MapPosition, occupied: &[MapPosition]) -> (moved:
    bool)
    ensures
        moved == can_step(*old(position), Direction::Down, old(map), occupied@),
        moved ==> stepped(old(map), final(map), *old(position), *final(position), Direction::Down),
        !moved ==> stayed(old(map), final(map), *old(position), *final(position)),
        final(map).width == old(map).width,
        final(map).height == old(map).height,
        final(map).exits@ == old(map).exits@,
        old(map).wf() ==> final(map).wf(),
{
    move_toward(map, position, Direction::Down, occupied)
}

/// The positions that an actor at `position` can step to.
pub fn enumerate_reachable_positions(
    position: &MapPosition,
    map: &TileGrid,
    occupied: &[MapPosition],
) -> (reachable: Vec<MapPosition>)
    ensures
        reachable@ == reachable_positions(*position, map, occupied@),
{
    let mut reachable_positions: Vec<MapPosition> = Vec::new();
    if can_move_left(position, map, occupied) {
        reachable_positions.push(MapPosition { x: position.x - 1, y: position.y });
    }
    if can_move_right(position, map, occupied) {
        reachable_positions.push(MapPosition { x: position.x + 1, y: position.y });
    }
    if can_move_up(position, map, occupied) {
        reachable_positions.push(MapPosition { x: position.x, y: position.y - 1 });
    }
    if can_move_down(position, map, occupied) {
        reachable_positions.push(MapPosition { x: position.x, y: position.y + 1 });
    }
    reachable_positions
}

/// Every position that an actor can step to is one allowed step away, and
/// each allowed step leads to one of them.
pub proof fn lemma_reachable_positions(
    position: MapPosition,
    map: &TileGrid,
    occupied: Seq<MapPosition>,
)
    ensures
        reachable_positions(position, map, occupied).len() <= 4,
        forall|destination: MapPosition|
            reachable_positions(position, map, occupied).contains(destination) <==> exists|
                direction: Direction,
            |
                can_step(position, direction, map, occupied) && #[trigger] direction.from(position)
                    == destination,
{
    broadcast use vstd::seq_lib::lemma_seq_contains_after_push;

    let reachable = reachable_positions(position, map, occupied);
    assert forall|destination: MapPosition| reachable.contains(destination) <==> exists|
        direction: Direction,
    |
        can_step(position, direction, map, occupied) && #[trigger] direction.from(position)
            == destination by {
        let none = Seq::<MapPosition>::empty();
        assert(!none.contains(destination));
        if reachable.contains(destination) {
            if can_step(position, Direction::Left, map, occupied) && Direction::Left.from(position)
                == destination {
            } else if can_step(position, Direction::Right, map, occupied)
                && Direction::Right.from(position) == destination {
            } else if can_step(position, Direction::Up, map, occupied) && Direction::Up.from(
                position,
            ) == destination {
            } else {
                assert(can_step(position, Direction::Down, map, occupied)
                    && Direction::Down.from(position) == destination);
            }
        }
        if exists|direction: Direction|
            can_step(position, direction, map, occupied) && #[trigger] direction.from(position)
                == destination {
            let direction = choose|direction: Direction|
                can_step(position, direction, map, occupied) && #[trigger] direction.from(position)
                    == destination;
            match direction {
                Direction::Left => {},
                Direction::Right => {},
                Direction::Up => {},
                Direction::Down => {},
            }
        }
    }
}

/// Moves the mob at `pos_mob` to one of the positions it can step to, picked at
/// random. A mob that can step nowhere stays where it is.
pub fn move_randomly(pos_mob: &mut MapPosition, map: &mut TileGrid, occupied: &[MapPosition])
    ensures
        final(map).width == old(map).width,
        final(map).height == old(map).height,
        final(map).exits@ == old(map).exits@,
        old(map).wf() ==> final(map).wf(),
        reachable_positions(*old(pos_mob), old(map), occupied@).len() == 0 ==> stayed(
            old(map),
            final(map),
            *old(pos_mob),
            *final(pos_mob),
        ),
        reachable_positions(*old(pos_mob), old(map), occupied@).len() > 0 ==> exists|
            direction: Direction,
        |
            can_step(*old(pos_mob), direction, old(map), occupied@) && #[trigger] stepped(
                old(map),
                final(map),
                *old(pos_mob),
                *final(pos_mob),
                direction,
            ),
{
    let pos_reachable = enumerate_reachable_positions(pos_mob, map, occupied);
    if pos_reachable.len() > 0 {
        let pos_random = pos_reachable[random_index(pos_reachable.len())];
        proof {
            lemma_reachable_positions(*pos_mob, map, occupied@);
            assert(pos_reachable@.contains(pos_random));
        }
        let ghost direction = choose|direction: Direction|
            can_step(*pos_mob, direction, map, occupied@) && #[trigger] direction.from(*pos_mob)
                == pos_random;
        let moved = map.move_actor(pos_mob, &pos_random);
        assert(stepped(old(map), map, *old(pos_mob), *pos_mob, direction));
    }
}

/// Moves the mob one step towards the player along the row or the column
/// that they share, where there is such a step and it is allowed. A mob that
/// shares neither with the player, or whose step is not allowed, stays
/// where it is; it never ends up further from the player than it was.
pub fn move_to_player(
    player: &MapPosition,
    mob: &mut MapPosition,
    map: &mut TileGrid,
    occupied: &[MapPosition],
)
    ensures
        final(map).width == old(map).width,
        final(map).height == old(map).height,
        final(map).exits@ == old(map).exits@,
        old(map).wf() ==> final(map).wf(),
        match approach(*old(mob), *player) {
            Some(direction) => if can_step(*old(mob), direction, old(map), occupied@) {
                stepped(old(map), final(map), *old(mob), *final(mob), direction)
            } else {
                stayed(old(map), final(map), *old(mob), *final(mob))
            },
            None => stayed(old(map), final(map), *old(mob), *final(mob)),
        },
        manhattan_distance(*final(mob), *player) <= manhattan_distance(*old(mob), *player),
{
    if mob.y == player.y && mob.x < player.x {
        move_right(map, mob, occupied);
    }
    if mob.y == player.y && mob.x > player.x {
        move_left(map, mob, occupied);
    }
    if mob.x == player.x && mob.y > player.y {
        move_up(map, mob, occupied);
    }
    if mob.x == player.x && mob.y < player.y {
        move_down(map, mob, occupied);
    }
}

/// A step on the tiles changes who stands where, and nothing of the ground.
pub proof fn lemma_step_keeps_ground(
    before: &TileGrid,
    after: &TileGrid,
    position: MapPosition,
    direction: Direction,
    occupied: Seq<MapPosition>,
)
    requires
        can_step(position, direction, before, occupied),
        after.tiles@ == tiles_after_move(
            before.tiles@,
            before.index_of(position),
            before.index_of(direction.from(position)),
        ),
    ensures
        same_ground(before.tiles@, after.tiles@),
        manhattan_distance(direction.from(position), position) == 1,
{
}

/// What a turn of the mobs leaves of one actor: who it is, and a position at
/// most one step from where it stood. The player stays. An enemy of the
/// player stays or takes the step that brings it closer to `player` along
/// the row or the column they share, so that it is no further from `player`
/// than it was.
pub open spec fn has_acted(before: ActorBundle, after: ActorBundle, player: MapPosition) -> bool {
    &&& after.actor == before.actor
    &&& manhattan_distance(after.map_position, before.map_position) <= 1
    &&& before.actor.kind == ActorKind::Player ==> after == before
    &&& before.actor.kind.hostility() == ActorHostility::Enemy ==> {
        &&& after.map_position == before.map_position || (approach(
            before.map_position,
            player,
        ) matches Some(direction) && after.map_position == direction.from(before.map_position))
        &&& manhattan_distance(after.map_position, player) <= manhattan_distance(
            before.map_position,
            player,
        )
    }
}

/// What the turn of one actor makes of the map and of the actor, with the
/// player at `player`. The actor stays who it is. The player stays where it
/// is. A friendly mob takes one of the steps that it can take on the map as
/// it finds it, and stays only where it can take none. An enemy of the
/// player takes the step that brings it closer to the player along the row
/// or the column they share, where there is such a step and it can take it
/// on the map as it finds it, and stays otherwise.
pub open spec fn has_taken_turn(
    before: &TileGrid,
    after: &TileGrid,
    actor: ActorBundle,
    moved: ActorBundle,
    player: MapPosition,
) -> bool {
    let from = actor.map_position;
    let to = moved.map_position;
    &&& moved.actor == actor.actor
    &&& if actor.actor.kind == ActorKind::Player {
        stayed(before, after, from, to)
    } else if actor.actor.kind.hostility() == ActorHostility::Friend {
        if reachable_positions(from, before, Seq::empty()).len() == 0 {
            stayed(before, after, from, to)
        } else {
            exists|direction: Direction|
                can_step(from, direction, before, Seq::empty()) && #[trigger] stepped(
                    before,
                    after,
                    from,
                    to,
                    direction,
                )
        }
    } else {
        match approach(from, player) {
            Some(direction) => if can_step(from, direction, before, Seq::empty()) {
                stepped(before, after, from, to, direction)
            } else {
                stayed(before, after, from, to)
            },
            None => stayed(before, after, from, to),
        }
    }
}

/// The actors have taken their turns one after the other, each on the map as
/// the one before it left it: `trail` holds the map before the first turn,
/// the map after each turn, and so the map after the last.
pub open spec fn have_taken_turns(
    trail: Seq<TileGrid>,
    actors: Seq<ActorBundle>,
    moved: Seq<ActorBundle>,
    player: MapPosition,
) -> bool {
    &&& trail.len() == actors.len() + 1
    &&& moved.len() == actors.len()
    &&& forall|i: int|
        0 <= i < actors.len() ==> has_taken_turn(
            &#[trigger] trail[i],
            &trail[i + 1],
            actors[i],
            moved[i],
            player,
        )
}

/// Lets every mob act once, in the order of the actors: a friendly mob walks
/// at random, an enemy of the player steps towards the player. The player
/// stays where it is. Each mob sees the tiles as the mobs before it left
/// them, and moves wherever it can. Without a player among the actors nobody
/// moves.
pub fn move_mob(actors: &mut Vec<ActorBundle>, map: &mut TileGrid)
    requires
        old(map).wf(),
        in_lock_step(old(map), old(actors)@),
    ensures
        final(map).wf(),
        final(map).width == old(map).width,
        final(map).height == old(map).height,
        final(map).exits@ == old(map).exits@,
        same_ground(old(map).tiles@, final(map).tiles@),
        in_lock_step(final(map), final(actors)@),
        final(actors)@.len() == old(actors)@.len(),
        match player_place(old(actors)@) {
            Some(place) => {
                &&& forall|i: int|
                    0 <= i < old(actors)@.len() ==> has_acted(
                        old(actors)@[i],
                        #[trigger] final(actors)@[i],
                        old(actors)@[place].map_position,
                    )
                &&& exists|trail: Seq<TileGrid>|
                    {
                        &&& #[trigger] have_taken_turns(
                            trail,
                            old(actors)@,
                            final(actors)@,
                            old(actors)@[place].map_position,
                        )
                        &&& trail[0] == *old(map)
                        &&& trail[old(actors)@.len() as int] == *final(map)
                    }
            },
            None => final(actors)@ == old(actors)@ && final(map).tiles@ == old(map).tiles@,
        },
{
    let pos_player = match find_player(actors) {
        Some(place) => actors[place].map_position,
        None => {
            return ;
        },
    };
    let nobody: Vec<MapPosition> = Vec::new();
    let total: usize = actors.len();
    let ghost mut trail: Seq<TileGrid> = seq![*map];
    let mut i: usize = 0;
    while i < total
        invariant
            i <= total,
            total == actors@.len(),
            actors@.len() == old(actors)@.len(),
            nobody@ == Seq::<MapPosition>::empty(),
            map.wf(),
            map.width == old(map).width,
            map.height == old(map).height,
            map.exits@ == old(map).exits@,
            same_ground(old(map).tiles@, map.tiles@),
            in_lock_step(map, actors@),
            forall|k: int|
                0 <= k < i ==> has_acted(old(actors)@[k], #[trigger] actors@[k], pos_player),
            forall|k: int| i <= k < total ==> #[trigger] actors@[k] == old(actors)@[k],
            trail.len() == i + 1,
            trail[0] == *old(map),
            trail[i as int] == *map,
            forall|k: int|
                0 <= k < i ==> has_taken_turn(
                    &#[trigger] trail[k],
                    &trail[k + 1],
                    old(actors)@[k],
                    actors@[k],
                    pos_player,
                ),
        decreases total - i,
    {
        let bundle = actors[i];
        let ghost found = *map;
        let ghost trail_before = trail;
        let ghost moved_before = actors@;
        if !bundle.actor.is_player() {
            let ghost before = *map;
            let ghost actors_before = actors@;
            let mut position = bundle.map_position;
            if bundle.actor.is_friendly() {
                move_randomly(&mut position, map, nobody.as_slice());
            } else {
                move_to_player(&pos_player, &mut position, map, nobody.as_slice());
            }
            actors.set(i, ActorBundle { actor: bundle.actor, map_position: position });
            proof {
                assert(actors@[i as int].map_position == position);
                assert(bundle.actor.kind != ActorKind::Player);
                assert(has_taken_turn(&before, map, bundle, actors@[i as int], pos_player));
                if position != bundle.map_position {
                    let direction = choose|direction: Direction|
                        can_step(bundle.map_position, direction, &before, nobody@)
                            && #[trigger] stepped(
                            &before,
                            map,
                            bundle.map_position,
                            position,
                            direction,
                        );
                    assert(has_stepped(&before, map, actors_before, i as int, direction, nobody@));
                    lemma_step_keeps_lock_step(
                        &before,
                        map,
                        actors_before,
                        i as int,
                        direction,
                        nobody@,
                    );
                    lemma_step_keeps_ground(
                        &before,
                        map,
                        bundle.map_position,
                        direction,
                        nobody@,
                    );
                    assert(actors@ == actors_after_step(actors_before, i as int, direction));
                } else {
                    assert(map.tiles@ == before.tiles@);
                    assert(actors@ =~= actors_before);
                    lemma_lock_step_of_same_tiles(&before, map, actors_before);
                }
            }
        }
        proof {
            trail = trail.push(*map);
            assert(has_taken_turn(&found, map, bundle, actors@[i as int], pos_player));
            assert forall|k: int| 0 <= k < i + 1 implies has_taken_turn(
                &#[trigger] trail[k],
                &trail[k + 1],
                old(actors)@[k],
                actors@[k],
                pos_player,
            ) by {
                if k < i {
                    assert(trail[k] == trail_before[k]);
                    assert(trail[k + 1] == trail_before[k + 1]);
                    assert(actors@[k] == moved_before[k]);
                    assert(has_taken_turn(
                        &trail_before[k],
                        &trail_before[k + 1],
                        old(actors)@[k],
                        moved_before[k],
                        pos_player,
                    ));
                }
            }
        }
        i += 1;
    }
    proof {
        assert(have_taken_turns(trail, old(actors)@, actors@, pos_player));
    }
}

} // verus!
