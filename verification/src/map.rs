//! The map: a grid of tiles, the actors that stand on them, and the exits.
//!
//! A map is the one place where an actor's tile is recorded, and `move_actor`
//! the one way to change it, so that the tiles and the positions that the
//! actors carry cannot drift apart.

use crate::cellular_automaton::CellularAutomaton;
use crate::cellular_automaton::CellularState;
use crate::grid::cell_index;
use crate::grid::column_of;
use crate::grid::lemma_coordinates_of_index;
use crate::grid::lemma_index_of_coordinates;
use crate::grid::row_of;
use crate::random::choose_one;
use crate::random::Probability;
use crate::random::shuffle;
use crate::tile::Tile;
use crate::tile::TileKind;
use vstd::prelude::*;

verus! {

/// The width of the maps that the game generates, in tiles.
pub const MAP_WIDTH: usize = 20;

/// The height of the maps that the game generates, in tiles.
pub const MAP_HEIGHT: usize = 20;

/// The width of a tile's sprite, in pixels.
pub const SPRITE_TILE_WIDTH: i64 = 64;

/// The height of a tile's sprite, in pixels.
pub const SPRITE_TILE_HEIGHT: i64 = 64;

/// The largest column or row whose sprite still has pixel coordinates.
pub const SPRITE_COORDINATE_LIMIT: u64 = 144_115_188_075_855_871;

/// Why an operation on a map failed.
#[derive(Clone, Copy, Debug, Eq, PartialEq, Structural)]
pub enum MapError {
    /// A position lies outside the map.
    OutOfBounds,
    /// Fewer free tiles are left than actors were to be placed.
    NoSpawnablePositions,
    /// No tile of the rightmost column can take the exit.
    NoExitPositions,
    /// Somebody stands on the tile already.
    TileOccupied,
}

/// A position in a map: column `x`, row `y`, both counted from zero.
#[derive(Clone, Copy, Debug, Eq, PartialEq, Structural)]
pub struct MapPosition {
    pub x: usize,
    pub y: usize,
}

impl MapPosition {
    /// The position in column `x`, row `y`.
    pub fn new(x: usize, y: usize) -> (position: Self)
        ensures
            position == (MapPosition { x, y }),
    {
        Self { x, y }
    }

    /// Where the centre of the tile's sprite is drawn, in pixels: to the right
    /// of the origin by whole and half tiles, and below it. `None` where a
    /// coordinate is too large to count in pixels.
    pub fn as_sprite_coordinates(&self) -> (coordinates: Option<(i64, i64)>)
        ensures
            coordinates is Some <==> self.x * SPRITE_TILE_WIDTH + SPRITE_TILE_WIDTH / 2 <= i64::MAX
                && self.y * SPRITE_TILE_HEIGHT + SPRITE_TILE_HEIGHT / 2 <= i64::MAX,
            coordinates matches Some(at) ==> at.0 == self.x * SPRITE_TILE_WIDTH + SPRITE_TILE_WIDTH
                / 2 && at.1 == -(self.y * SPRITE_TILE_HEIGHT) - SPRITE_TILE_HEIGHT / 2,
    {
        if self.x as u64 > SPRITE_COORDINATE_LIMIT || self.y as u64 > SPRITE_COORDINATE_LIMIT {
            return None;
        }
        let x: i64 = self.x as i64;
        let y: i64 = self.y as i64;
        Some(
            (
                x * SPRITE_TILE_WIDTH + SPRITE_TILE_WIDTH / 2,
                -(y * SPRITE_TILE_HEIGHT) - SPRITE_TILE_HEIGHT / 2,
            ),
        )
    }

    /// The position one column to the left, which the leftmost column lacks.
    pub fn left(&self) -> (moved: Result<Self, MapError>)
        ensures
            self.x > 0 ==> moved == Ok::<MapPosition, MapError>(
                MapPosition { x: (self.x - 1) as usize, y: self.y },
            ),
            self.x == 0 ==> moved == Err::<MapPosition, MapError>(MapError::OutOfBounds),
    {
        if self.x == 0 {
            return Err(MapError::OutOfBounds);
        }
        Ok(Self::new(self.x - 1, self.y))
    }

    /// The position one column to the right, unless the column's number cannot
    /// be counted any further.
    pub fn right(&self) -> (moved: Result<Self, MapError>)
        ensures
            self.x < usize::MAX ==> moved == Ok::<MapPosition, MapError>(
                MapPosition { x: (self.x + 1) as usize, y: self.y },
            ),
            self.x == usize::MAX ==> moved == Err::<MapPosition, MapError>(MapError::OutOfBounds),
    {
        if self.x == usize::MAX {
            return Err(MapError::OutOfBounds);
        }
        Ok(Self::new(self.x + 1, self.y))
    }

    /// The position one row up, which the topmost row lacks.
    pub fn up(&self) -> (moved: Result<Self, MapError>)
        ensures
            self.y > 0 ==> moved == Ok::<MapPosition, MapError>(
                MapPosition { x: self.x, y: (self.y - 1) as usize },
            ),
            self.y == 0 ==> moved == Err::<MapPosition, MapError>(MapError::OutOfBounds),
    {
        if self.y == 0 {
            return Err(MapError::OutOfBounds);
        }
        Ok(Self::new(self.x, self.y - 1))
    }

    /// The position one row down, unless the row's number cannot be counted any
    /// further.
    pub fn down(&self) -> (moved: Result<Self, MapError>)
        ensures
            self.y < usize::MAX ==> moved == Ok::<MapPosition, MapError>(
                MapPosition { x: self.x, y: (self.y + 1) as usize },
            ),
            self.y == usize::MAX ==> moved == Err::<MapPosition, MapError>(MapError::OutOfBounds),
    {
        if self.y == usize::MAX {
            return Err(MapError::OutOfBounds);
        }
        Ok(Self::new(self.x, self.y + 1))
    }
}

/// The distance between two positions in steps along the columns and rows.
pub open spec fn manhattan_distance(a: MapPosition, b: MapPosition) -> int {
    (if a.x >= b.x {
        a.x - b.x
    } else {
        b.x - a.x
    }) + (if a.y >= b.y {
        a.y - b.y
    } else {
        b.y - a.y
    })
}

/// Whether `position` is one of `positions`.
pub fn contains_position(positions: &[MapPosition], position: &MapPosition) -> (found: bool)
    ensures
        found == positions@.contains(*position),
{
    let mut i: usize = 0;
    while i < positions.len()
        invariant
            i <= positions@.len(),
            forall|k: int| 0 <= k < i ==> positions@[k] != *position,
        decreases positions@.len() - i,
    {
        if positions[i] == *position {
            return true;
        }
        i += 1;
    }
    false
}

/// The tiles after the occupant of tile `from` has moved to tile `to`: tile
/// `from` is left empty, and tile `to` holds whoever stood on `from`.
pub open spec fn tiles_after_move(tiles: Seq<Tile>, from: int, to: int) -> Seq<Tile> {
    let vacated = tiles.update(from, Tile { kind: tiles[from].kind, actor: None });
    vacated.update(to, Tile { kind: vacated[to].kind, actor: tiles[from].actor })
}

/// Two rows of tiles have the same ground, tile by tile.
pub open spec fn same_ground(before: Seq<Tile>, after: Seq<Tile>) -> bool {
    &&& after.len() == before.len()
    &&& forall|index: int|
        0 <= index < before.len() ==> (#[trigger] after[index]).kind == before[index].kind
}

/// How strong the noise is at a tile, set against the two cutoffs of map
/// generation.
#[derive(Clone, Copy, Debug, Eq, PartialEq, Structural)]
pub enum NoiseLevel {
    /// Above the upper cutoff.
    High,
    /// Between the cutoffs.
    Middle,
    /// At most the lower cutoff.
    Low,
}

/// The ground that a cell of a cellular automaton grows: stone where the cell
/// lives, damaged or not, and grass where it is dead.
pub open spec fn ground_for_cell(cell: CellularState, damaged: bool) -> TileKind {
    match cell {
        CellularState::Alive => if damaged {
            TileKind::GrassWithStoneDamaged
        } else {
            TileKind::GrassWithStone
        },
        CellularState::Dead => TileKind::Grass,
    }
}

/// The ground that noise of the given level draws: flowers where it is high,
/// grass in the middle, and stone, damaged or not, where it is low.
pub open spec fn ground_for_noise(level: NoiseLevel, damaged: bool) -> TileKind {
    match level {
        NoiseLevel::High => TileKind::GrassWithFlower,
        NoiseLevel::Middle => TileKind::Grass,
        NoiseLevel::Low => if damaged {
            TileKind::GrassWithStoneDamaged
        } else {
            TileKind::GrassWithStone
        },
    }
}

/// `kind` is stone as it comes where stones are damaged with the given
/// probability: damaged or whole, but whole where none is ever damaged, and
/// damaged where all are.
pub open spec fn is_stone(kind: TileKind, stone_damaged: Probability) -> bool {
    &&& kind == TileKind::GrassWithStone || kind == TileKind::GrassWithStoneDamaged
    &&& stone_damaged.is_never() ==> kind == TileKind::GrassWithStone
    &&& stone_damaged.is_always() ==> kind == TileKind::GrassWithStoneDamaged
}

/// `kind` is a ground that `cell` can grow where stones are damaged with the
/// given probability.
pub open spec fn follows_cell(kind: TileKind, cell: CellularState, stone_damaged: Probability) -> bool {
    match cell {
        CellularState::Alive => is_stone(kind, stone_damaged),
        CellularState::Dead => kind == TileKind::Grass,
    }
}

/// `kind` is a ground that noise of the given level can draw where stones are
/// damaged with the given probability.
pub open spec fn follows_noise(kind: TileKind, level: NoiseLevel, stone_damaged: Probability) -> bool {
    match level {
        NoiseLevel::High => kind == TileKind::GrassWithFlower,
        NoiseLevel::Middle => kind == TileKind::Grass,
        NoiseLevel::Low => is_stone(kind, stone_damaged),
    }
}

/// The ground that a cell of a cellular automaton grows.
pub fn tile_kind_for_cell(cell: CellularState, damaged: bool) -> (kind: TileKind)
    ensures
        kind == ground_for_cell(cell, damaged),
{
    match cell {
        CellularState::Alive => {
            if damaged {
                TileKind::GrassWithStoneDamaged
            } else {
                TileKind::GrassWithStone
            }
        },
        CellularState::Dead => TileKind::Grass,
    }
}

/// The ground that noise of the given level draws.
pub fn tile_kind_for_noise(level: NoiseLevel, damaged: bool) -> (kind: TileKind)
    ensures
        kind == ground_for_noise(level, damaged),
{
    match level {
        NoiseLevel::High => TileKind::GrassWithFlower,
        NoiseLevel::Middle => TileKind::Grass,
        NoiseLevel::Low => {
            if damaged {
                TileKind::GrassWithStoneDamaged
            } else {
                TileKind::GrassWithStone
            }
        },
    }
}

/// The environment where the actors meet: a grid of tiles, stored row by row.
pub struct TileGrid {
    /// The number of columns.
    pub width: usize,
    /// The number of rows.
    pub height: usize,
    /// The tiles, row by row.
    pub tiles: Vec<Tile>,
    /// The positions of the exits.
    pub exits: Vec<MapPosition>,
}

impl TileGrid {
    /// The place of `position` among the tiles.
    pub open spec fn index_of(&self, position: MapPosition) -> int {
        cell_index(self.width as int, position.x as int, position.y as int)
    }

    /// The position of the tile at place `index`.
    pub open spec fn position_of(&self, index: int) -> MapPosition {
        MapPosition {
            x: column_of(self.width as int, index) as usize,
            y: row_of(self.width as int, index) as usize,
        }
    }

    /// `position` names a tile of the map: its column exists, and so does the
    /// place among the tiles that it stands for.
    pub open spec fn holds(&self, position: MapPosition) -> bool {
        position.x < self.width && 0 <= self.index_of(position) < self.tiles.len()
    }

    /// The tile at `position`.
    pub open spec fn tile_at(&self, position: MapPosition) -> Tile {
        self.tiles@[self.index_of(position)]
    }

    /// The map has a tile for each cell of its grid, and each of its exits
    /// is a tile of the map whose ground is an exit.
    pub open spec fn wf(&self) -> bool {
        &&& self.tiles.len() == self.width * self.height
        &&& forall|k: int|
            0 <= k < self.exits@.len() ==> self.holds(#[trigger] self.exits@[k]) && self.tile_at(
                self.exits@[k],
            ).kind == TileKind::LevelExit
    }

    /// On a well-formed map the positions that name a tile are those inside
    /// the grid, and positions and places among the tiles stand for each other.
    pub proof fn lemma_positions(&self)
        requires
            self.wf(),
        ensures
            forall|position: MapPosition| #[trigger]
                self.holds(position) <==> position.x < self.width && position.y < self.height,
            forall|position: MapPosition| #[trigger]
                self.holds(position) ==> 0 <= self.index_of(position) < self.tiles.len()
                    && self.position_of(self.index_of(position)) == position,
            forall|index: int|
                0 <= index < self.tiles.len() ==> self.holds(#[trigger] self.position_of(index))
                    && self.index_of(self.position_of(index)) == index,
    {
        reveal(cell_index);
        let w = self.width as int;
        let h = self.height as int;
        assert forall|position: MapPosition| #[trigger]
            self.holds(position) <==> position.x < self.width && position.y < self.height by {
            let x = position.x as int;
            let y = position.y as int;
            if x < w && y < h {
                lemma_index_of_coordinates(w, h, x, y);
            }
            if x < w && y >= h {
                assert(y * w + x >= w * h) by (nonlinear_arith)
                    requires
                        y >= h,
                        0 <= x,
                        0 < w,
                ;
            }
        }
        assert forall|position: MapPosition| #[trigger] self.holds(position) implies 0
            <= self.index_of(position) < self.tiles.len() && self.position_of(
            self.index_of(position),
        ) == position by {
            lemma_index_of_coordinates(w, h, position.x as int, position.y as int);
        }
        assert forall|index: int| 0 <= index < self.tiles.len() implies self.holds(
            #[trigger] self.position_of(index),
        ) && self.index_of(self.position_of(index)) == index by {
            lemma_coordinates_of_index(w, h, index);
        }
    }

    /// On a well-formed map a position that names a tile has a place among the
    /// tiles, from which it can be read back.
    pub proof fn lemma_position(&self, position: MapPosition)
        requires
            self.wf(),
            self.holds(position),
        ensures
            position.x < self.width,
            position.y < self.height,
            0 <= self.index_of(position) < self.tiles.len(),
            self.position_of(self.index_of(position)) == position,
    {
        self.lemma_positions();
    }

    /// On a well-formed map two positions that name the same tile are the
    /// same position.
    pub proof fn lemma_same_tile(&self, first: MapPosition, second: MapPosition)
        requires
            self.wf(),
            self.holds(first),
            self.holds(second),
            self.index_of(first) == self.index_of(second),
        ensures
            first == second,
    {
        self.lemma_position(first);
        self.lemma_position(second);
    }

    /// The place of `pos` among the tiles, or `OutOfBounds` where `pos` names no
    /// tile of the map.
    pub fn as_tile_index(&self, pos: &MapPosition) -> (index: Result<usize, MapError>)
        ensures
            match index {
                Ok(index) => self.holds(*pos) && index == self.index_of(*pos),
                Err(error) => !self.holds(*pos) && error == MapError::OutOfBounds,
            },
    {
        proof {
            reveal(cell_index);
        }
        if pos.x >= self.width {
            return Err(MapError::OutOfBounds);
        }
        let row_start: usize = match pos.y.checked_mul(self.width) {
            Some(row_start) => row_start,
            None => {
                return Err(MapError::OutOfBounds);
            },
        };
        let index: usize = match row_start.checked_add(pos.x) {
            Some(index) => index,
            None => {
                return Err(MapError::OutOfBounds);
            },
        };
        if index >= self.tiles.len() {
            return Err(MapError::OutOfBounds);
        }
        Ok(index)
    }

    /// What `move_actor` makes of the tiles and of the position that the actor
    /// carries: where both positions name tiles of the map, the tiles after
    /// the move and the new position, and otherwise the tiles and the
    /// position as they are.
    pub open spec fn after_move_actor(&self, carried: MapPosition, to: MapPosition) -> (
        Seq<Tile>,
        MapPosition,
    ) {
        if self.holds(carried) && self.holds(to) {
            (tiles_after_move(self.tiles@, self.index_of(carried), self.index_of(to)), to)
        } else {
            (self.tiles@, carried)
        }
    }

    /// Moves the actor that stands at `pos_actor_old` to `pos_actor_new`, on the
    /// tiles and in the position that the actor carries.
    ///
    /// Where one of the two positions names no tile of the map, nothing changes
    /// and the error is `OutOfBounds`. Whoever stood on the new tile is
    /// overwritten: callers check that it is free.
    pub fn move_actor(
        &mut self,
        pos_actor_old: &mut MapPosition,
        pos_actor_new: &MapPosition,
    ) -> (moved: Result<(), MapError>)
        ensures
            final(self).width == old(self).width,
            final(self).height == old(self).height,
            final(self).exits@ == old(self).exits@,
            (final(self).tiles@, *final(pos_actor_old)) == old(self).after_move_actor(
                *old(pos_actor_old),
                *pos_actor_new,
            ),
            moved == if old(self).holds(*old(pos_actor_old)) && old(self).holds(*pos_actor_new) {
                Ok::<(), MapError>(())
            } else {
                Err::<(), MapError>(MapError::OutOfBounds)
            },
            old(self).wf() ==> final(self).wf(),
    {
        let index_from: usize = match self.as_tile_index(pos_actor_old) {
            Ok(index) => index,
            Err(error) => {
                return Err(error);
            },
        };
        let index_to: usize = match self.as_tile_index(pos_actor_new) {
            Ok(index) => index,
            Err(error) => {
                return Err(error);
            },
        };
        let tile_from: Tile = self.tiles[index_from];
        self.tiles.set(index_from, Tile { kind: tile_from.kind, actor: None });
        let tile_to: Tile = self.tiles[index_to];
        self.tiles.set(index_to, Tile { kind: tile_to.kind, actor: tile_from.actor });
        *pos_actor_old = *pos_actor_new;
        Ok(())
    }

    /// An actor can be placed at `position`, or step onto it: it names a tile of
    /// the map that can be walked on, where nobody stands, and it is none of
    /// `excluded`.
    pub open spec fn is_free(&self, excluded: Seq<MapPosition>, position: MapPosition) -> bool {
        self.holds(position) && self.tile_at(position).walkable() && !excluded.contains(position)
    }

    /// Whether an actor can be placed at `position`, or step onto it.
    pub fn is_position_free(&self, position: &MapPosition, excluded: &[MapPosition]) -> (free:
        bool)
        ensures
            free == self.is_free(excluded@, *position),
    {
        match self.as_tile_index(position) {
            Ok(index) => self.tiles[index].is_walkable() && !contains_position(excluded, position),
            Err(_) => false,
        }
    }

    /// The positions among the first `count` tiles where an actor can be placed,
    /// in the order of the tiles.
    pub open spec fn spawnable_among(&self, excluded: Seq<MapPosition>, count: int) -> Seq<
        MapPosition,
    >
        decreases count,
    {
        if count <= 0 {
            Seq::empty()
        } else {
            let earlier = self.spawnable_among(excluded, count - 1);
            if self.is_free(excluded, self.position_of(count - 1)) {
                earlier.push(self.position_of(count - 1))
            } else {
                earlier
            }
        }
    }

    /// All positions where an actor can be placed, in the order of the tiles.
    pub open spec fn spawnable_positions(&self, excluded: Seq<MapPosition>) -> Seq<MapPosition> {
        self.spawnable_among(excluded, self.tiles.len() as int)
    }

    proof fn lemma_spawnable_among(&self, excluded: Seq<MapPosition>, count: int)
        requires
            self.wf(),
            0 <= count <= self.tiles.len(),
        ensures
            self.spawnable_among(excluded, count).no_duplicates(),
            forall|position: MapPosition|
                self.spawnable_among(excluded, count).contains(position) <==> self.is_free(
                    excluded,
                    position,
                ) && self.index_of(position) < count,
        decreases count,
    {
        broadcast use vstd::seq_lib::lemma_seq_contains_after_push;

        self.lemma_positions();
        if count > 0 {
            self.lemma_spawnable_among(excluded, count - 1);
            let earlier = self.spawnable_among(excluded, count - 1);
            let last = self.position_of(count - 1);
            assert(self.holds(last) && self.index_of(last) == count - 1);
            assert forall|position: MapPosition|
                self.spawnable_among(excluded, count).contains(position) <==> self.is_free(
                    excluded,
                    position,
                ) && self.index_of(position) < count by {
                if self.holds(position) && self.index_of(position) == count - 1 {
                    assert(self.position_of(self.index_of(position)) == position);
                }
            }
            if self.is_free(excluded, last) {
                assert(!earlier.contains(last));
                assert forall|k: int, l: int|
                    0 <= k < earlier.len() + 1 && 0 <= l < earlier.len() + 1 && k
                        != l implies earlier.push(last)[k] != earlier.push(last)[l] by {
                    if k < earlier.len() {
                        assert(earlier.contains(earlier[k]));
                    }
                    if l < earlier.len() {
                        assert(earlier.contains(earlier[l]));
                    }
                }
            }
        }
    }

    /// No more positions are free than the map has tiles.
    pub proof fn lemma_spawnable_count(&self, excluded: Seq<MapPosition>, count: int)
        requires
            0 <= count,
        ensures
            self.spawnable_among(excluded, count).len() <= count,
        decreases count,
    {
        if count > 0 {
            self.lemma_spawnable_count(excluded, count - 1);
        }
    }

    /// The list of the positions where an actor can be placed names each of
    /// them once, and nothing else.
    pub proof fn lemma_spawnable_positions(&self, excluded: Seq<MapPosition>)
        requires
            self.wf(),
        ensures
            self.spawnable_positions(excluded).no_duplicates(),
            forall|position: MapPosition|
                self.spawnable_positions(excluded).contains(position) <==> self.is_free(
                    excluded,
                    position,
                ),
    {
        self.lemma_positions();
        self.lemma_spawnable_among(excluded, self.tiles.len() as int);
    }

    /// All positions where an actor can be placed, in the order of the tiles.
    fn collect_spawnable_positions(&self, pos_occupied: &[MapPosition]) -> (positions: Vec<
        MapPosition,
    >)
        requires
            self.wf(),
        ensures
            positions@ == self.spawnable_positions(pos_occupied@),
    {
        let total: usize = self.tiles.len();
        let mut pos_spawnable: Vec<MapPosition> = Vec::new();
        let mut index: usize = 0;
        while index < total
            invariant
                self.wf(),
                total == self.tiles.len(),
                index <= total,
                pos_spawnable@ == self.spawnable_among(pos_occupied@, index as int),
            decreases total - index,
        {
            proof {
                self.lemma_positions();
                lemma_coordinates_of_index(self.width as int, self.height as int, index as int);
            }
            let position = MapPosition { x: index % self.width, y: index / self.width };
            assert(position == self.position_of(index as int));
            if self.tiles[index].is_walkable() && !contains_position(pos_occupied, &position) {
                pos_spawnable.push(position);
            }
            index += 1;
        }
        pos_spawnable
    }

    /// A random position where an actor can be placed: a tile that can be
    /// walked on, with nobody on it. The map must have one.
    pub fn generate_random_spawning_position(&self) -> (position: MapPosition)
        requires
            self.wf(),
            self.spawnable_positions(Seq::empty()).len() > 0,
        ensures
            self.is_free(Seq::empty(), position),
    {
        let nobody: Vec<MapPosition> = Vec::new();
        let spawnable_positions = self.collect_spawnable_positions(nobody.as_slice());
        proof {
            assert(nobody@ =~= Seq::<MapPosition>::empty());
            self.lemma_spawnable_positions(Seq::empty());
        }
        match choose_one(&spawnable_positions) {
            Some(position) => position,
            None => {
                proof {
                    assert(false);
                }
                MapPosition { x: 0, y: 0 }
            },
        }
    }

    /// Random positions for `quantity` actors: distinct tiles that can be walked
    /// on, with nobody on them, and none of them among `pos_occupied`.
    ///
    /// The positions are the first `quantity` of all such positions, shuffled.
    /// Where there are fewer than `quantity` of them the error is
    /// `NoSpawnablePositions`.
    pub fn generate_random_positions(
        &self,
        quantity: usize,
        pos_occupied: &[MapPosition],
    ) -> (positions: Result<Vec<MapPosition>, MapError>)
        requires
            self.wf(),
        ensures
            positions is Ok <==> quantity <= self.spawnable_positions(pos_occupied@).len(),
            match positions {
                Ok(chosen) => {
                    &&& chosen@.len() == quantity
                    &&& chosen@.no_duplicates()
                    &&& forall|k: int|
                        0 <= k < chosen@.len() ==> self.is_free(
                            pos_occupied@,
                            #[trigger] chosen@[k],
                        )
                    &&& exists|shuffled: Seq<MapPosition>|
                        #[trigger] shuffled.to_multiset() == self.spawnable_positions(
                            pos_occupied@,
                        ).to_multiset() && chosen@ == shuffled.take(quantity as int)
                },
                Err(error) => error == MapError::NoSpawnablePositions,
            },
    {
        let mut pos_spawnable = self.collect_spawnable_positions(pos_occupied);
        if pos_spawnable.len() < quantity {
            return Err(MapError::NoSpawnablePositions);
        }
        let ghost candidates = pos_spawnable@;
        shuffle(&mut pos_spawnable);
        proof {
            self.lemma_spawnable_positions(pos_occupied@);
            candidates.lemma_multiset_has_no_duplicates();
            pos_spawnable@.lemma_multiset_has_no_duplicates_conv();
            vstd::seq_lib::to_multiset_len(candidates);
            vstd::seq_lib::to_multiset_len(pos_spawnable@);
            assert forall|k: int| 0 <= k < pos_spawnable@.len() implies self.is_free(
                pos_occupied@,
                #[trigger] pos_spawnable@[k],
            ) by {
                assert(pos_spawnable@.contains(pos_spawnable@[k]));
                vstd::seq_lib::to_multiset_contains(pos_spawnable@, pos_spawnable@[k]);
                vstd::seq_lib::to_multiset_contains(candidates, pos_spawnable@[k]);
            }
        }
        let mut chosen: Vec<MapPosition> = Vec::new();
        let mut taken: usize = 0;
        while taken < quantity
            invariant
                taken <= quantity <= pos_spawnable@.len(),
                chosen@ == pos_spawnable@.take(taken as int),
            decreases quantity - taken,
        {
            chosen.push(pos_spawnable[taken]);
            taken += 1;
            assert(chosen@ =~= pos_spawnable@.take(taken as int));
        }
        Ok(chosen)
    }

    /// The tile at place `index` can become the exit: it lies in the rightmost
    /// column, can be walked on, and nobody stands on it.
    pub open spec fn is_exit_candidate(&self, index: int) -> bool {
        &&& 0 <= index < self.tiles.len()
        &&& self.tiles@[index].walkable()
        &&& column_of(self.width as int, index) == self.width - 1
    }

    /// Some tile of the map can become the exit.
    pub open spec fn has_exit_candidate(&self) -> bool {
        exists|index: int| self.is_exit_candidate(index)
    }

    /// The places of the tiles that can become the exit, from the top down.
    fn exit_candidates(&self) -> (candidates: Vec<usize>)
        requires
            self.wf(),
        ensures
            forall|k: int|
                0 <= k < candidates@.len() ==> self.is_exit_candidate(#[trigger] candidates@[k] as int),
            forall|index: int|
                self.is_exit_candidate(index) ==> candidates@.contains(index as usize),
    {
        let total: usize = self.tiles.len();
        let mut candidates: Vec<usize> = Vec::new();
        let mut index: usize = 0;
        while index < total
            invariant
                self.wf(),
                total == self.tiles.len(),
                index <= total,
                forall|k: int|
                    0 <= k < candidates@.len() ==> self.is_exit_candidate(
                        #[trigger] candidates@[k] as int,
                    ),
                forall|earlier: int|
                    earlier < index && self.is_exit_candidate(earlier) ==> candidates@.contains(
                        earlier as usize,
                    ),
            decreases total - index,
        {
            broadcast use vstd::seq_lib::lemma_seq_contains_after_push;

            proof {
                lemma_coordinates_of_index(self.width as int, self.height as int, index as int);
            }
            if self.tiles[index].is_walkable() && index % self.width == self.width - 1 {
                candidates.push(index);
            }
            index += 1;
        }
        candidates
    }

    /// Whether some tile of the map can become the exit.
    pub fn can_add_exit_tile(&self) -> (possible: bool)
        requires
            self.wf(),
        ensures
            possible == self.has_exit_candidate(),
    {
        let candidates = self.exit_candidates();
        if candidates.len() > 0 {
            assert(self.is_exit_candidate(candidates@[0] as int));
            true
        } else {
            assert forall|index: int| !self.is_exit_candidate(index) by {
                if self.is_exit_candidate(index) {
                    assert(candidates@.contains(index as usize));
                }
            }
            false
        }
    }

    /// Turns one tile of the rightmost column into an exit and records where
    /// it is. The tile is picked at random among those of the column that can
    /// be walked on and have nobody on them; the map must have one.
    pub fn add_exit_tile(&mut self)
        requires
            old(self).wf(),
            old(self).has_exit_candidate(),
        ensures
            final(self).wf(),
            final(self).width == old(self).width,
            final(self).height == old(self).height,
            exists|index: int|
                {
                    &&& #[trigger] old(self).is_exit_candidate(index)
                    &&& final(self).tiles@ == old(self).tiles@.update(
                        index,
                        Tile { kind: TileKind::LevelExit, actor: None },
                    )
                    &&& final(self).exits@ == old(self).exits@.push(old(self).position_of(index))
                },
    {
        let pos_spawnable = self.exit_candidates();
        proof {
            let witness = choose|index: int| self.is_exit_candidate(index);
            assert(pos_spawnable@.contains(witness as usize));
        }
        let index: usize = match choose_one(&pos_spawnable) {
            Some(index) => index,
            None => {
                proof {
                    assert(false);
                }
                return ;
            },
        };
        proof {
            self.lemma_positions();
            lemma_coordinates_of_index(self.width as int, self.height as int, index as int);
        }
        self.tiles.set(index, Tile { kind: TileKind::LevelExit, actor: None });
        let pos_exit = MapPosition { x: index % self.width, y: index / self.width };
        self.exits.push(pos_exit);
        proof {
            assert(old(self).is_exit_candidate(index as int));
            assert(pos_exit == old(self).position_of(index as int));
            assert forall|k: int| 0 <= k < self.exits@.len() implies self.holds(
                #[trigger] self.exits@[k],
            ) && self.tile_at(self.exits@[k]).kind == TileKind::LevelExit by {
                if k < old(self).exits@.len() {
                    assert(self.exits@[k] == old(self).exits@[k]);
                    assert(old(self).holds(old(self).exits@[k]));
                }
            }
        }
    }

    /// A map of `width` by `height` tiles with the given ground and one exit,
    /// picked as `add_exit_tile` picks it.
    ///
    /// The error is `OutOfBounds` where `tiles` does not hold one tile for each
    /// cell of the grid, and `NoExitPositions` where no tile of the rightmost
    /// column can become the exit.
    pub fn from_terrain(width: usize, height: usize, tiles: Vec<Tile>) -> (map: Result<
        TileGrid,
        MapError,
    >)
        ensures
            match map {
                Ok(map) => {
                    &&& map.wf()
                    &&& map.width == width
                    &&& map.height == height
                    &&& map.exits@.len() == 1
                    &&& exists|index: int|
                        {
                            &&& 0 <= index < tiles@.len()
                            &&& #[trigger] tiles@[index].walkable()
                            &&& column_of(width as int, index) == width - 1
                            &&& map.tiles@ == tiles@.update(
                                index,
                                Tile { kind: TileKind::LevelExit, actor: None },
                            )
                            &&& map.exits@[0] == map.position_of(index)
                        }
                },
                Err(error) => if tiles@.len() != width * height {
                    error == MapError::OutOfBounds
                } else {
                    &&& error == MapError::NoExitPositions
                    &&& forall|index: int|
                        0 <= index < tiles@.len() && column_of(width as int, index) == width - 1
                            ==> !(#[trigger] tiles@[index]).walkable()
                },
            },
    {
        let given: usize = tiles.len();
        match width.checked_mul(height) {
            Some(cells) => {
                if cells != given {
                    return Err(MapError::OutOfBounds);
                }
            },
            None => {
                return Err(MapError::OutOfBounds);
            },
        }
        let mut map = TileGrid { width, height, tiles, exits: Vec::new() };
        if !map.can_add_exit_tile() {
            assert forall|index: int|
                0 <= index < tiles@.len() && column_of(width as int, index) == width
                    - 1 implies !(#[trigger] tiles@[index]).walkable() by {
                assert(!map.is_exit_candidate(index));
            }
            return Err(MapError::NoExitPositions);
        }
        map.add_exit_tile();
        Ok(map)
    }

    /// A map grown by a cellular automaton: stone where a cell lives, grass
    /// where it is dead, and one exit in the rightmost column.
    ///
    /// Each stone is damaged with the probability `stone_damaged`. The error is
    /// `NoExitPositions` where the rightmost column is all stone.
    pub fn from_cellular_automaton(ca: CellularAutomaton, stone_damaged: Probability) -> (map:
        Result<TileGrid, MapError>)
        requires
            ca.wf(),
        ensures
            map is Ok <==> exists|index: int|
                0 <= index < ca.cells@.len() && #[trigger] ca.cells@[index] == CellularState::Dead
                    && column_of(ca.width as int, index) == ca.width - 1,
            match map {
                Ok(map) => {
                    &&& map.wf()
                    &&& map.width == ca.width
                    &&& map.height == ca.height
                    &&& map.exits@.len() == 1
                    &&& map.exits@[0].x == ca.width - 1
                    &&& ca.cells@[map.index_of(map.exits@[0])] == CellularState::Dead
                    &&& forall|index: int|
                        0 <= index < map.tiles@.len() ==> (#[trigger] map.tiles@[index]).actor
                            is None && if index == map.index_of(map.exits@[0]) {
                            map.tiles@[index].kind == TileKind::LevelExit
                        } else {
                            follows_cell(map.tiles@[index].kind, ca.cells@[index], stone_damaged)
                        }
                },
                Err(error) => error == MapError::NoExitPositions,
            },
    {
        let total: usize = ca.cells.len();
        let mut tiles: Vec<Tile> = Vec::new();
        let mut index: usize = 0;
        while index < total
            invariant
                total == ca.cells.len(),
                index <= total,
                tiles@.len() == index,
                forall|k: int|
                    0 <= k < index ==> (#[trigger] tiles@[k]).actor is None && follows_cell(
                        tiles@[k].kind,
                        ca.cells@[k],
                        stone_damaged,
                    ),
            decreases total - index,
        {
            let damaged = match ca.cells[index] {
                CellularState::Alive => stone_damaged.sample(),
                CellularState::Dead => false,
            };
            tiles.push(Tile::from_kind(tile_kind_for_cell(ca.cells[index], damaged)));
            index += 1;
        }
        let ghost terrain = tiles@;
        match TileGrid::from_terrain(ca.width, ca.height, tiles) {
            Ok(map) => {
                proof {
                    map.lemma_positions();
                    let exit = choose|exit: int|
                        {
                            &&& 0 <= exit < terrain.len()
                            &&& #[trigger] terrain[exit].walkable()
                            &&& column_of(ca.width as int, exit) == ca.width - 1
                            &&& map.tiles@ == terrain.update(
                                exit,
                                Tile { kind: TileKind::LevelExit, actor: None },
                            )
                            &&& map.exits@[0] == map.position_of(exit)
                        };
                    assert(map.index_of(map.exits@[0]) == exit);
                    assert(ca.cells@[exit] == CellularState::Dead);
                }
                Ok(map)
            },
            Err(error) => {
                proof {
                    assert forall|at: int|
                        0 <= at < ca.cells@.len() && column_of(ca.width as int, at) == ca.width
                            - 1 implies #[trigger] ca.cells@[at] != CellularState::Dead by {
                        assert(!terrain[at].walkable());
                    }
                }
                Err(MapError::NoExitPositions)
            },
        }
    }

    /// A map drawn from noise: flowers where the noise is high, grass where it
    /// is in the middle, stone where it is low, and one exit in the rightmost
    /// column. `levels` holds the level of the noise at each tile, row by row.
    ///
    /// Each stone is damaged with the probability `stone_damaged`. The error is
    /// `OutOfBounds` where `levels` does not hold one level for each cell of the
    /// grid, and `NoExitPositions` where the rightmost column is all stone.
    pub fn from_noise_levels(
        levels: Vec<NoiseLevel>,
        width: usize,
        height: usize,
        stone_damaged: Probability,
    ) -> (map: Result<TileGrid, MapError>)
        ensures
            map is Ok <==> levels@.len() == width * height && exists|index: int|
                0 <= index < levels@.len() && #[trigger] levels@[index] != NoiseLevel::Low
                    && column_of(width as int, index) == width - 1,
            match map {
                Ok(map) => {
                    &&& map.wf()
                    &&& map.width == width
                    &&& map.height == height
                    &&& map.exits@.len() == 1
                    &&& map.exits@[0].x == width - 1
                    &&& levels@[map.index_of(map.exits@[0])] != NoiseLevel::Low
                    &&& forall|index: int|
                        0 <= index < map.tiles@.len() ==> (#[trigger] map.tiles@[index]).actor
                            is None && if index == map.index_of(map.exits@[0]) {
                            map.tiles@[index].kind == TileKind::LevelExit
                        } else {
                            follows_noise(map.tiles@[index].kind, levels@[index], stone_damaged)
                        }
                },
                Err(error) => if levels@.len() != width * height {
                    error == MapError::OutOfBounds
                } else {
                    error == MapError::NoExitPositions
                },
            },
    {
        let total: usize = levels.len();
        let mut tiles: Vec<Tile> = Vec::new();
        let mut index: usize = 0;
        while index < total
            invariant
                total == levels.len(),
                index <= total,
                tiles@.len() == index,
                forall|k: int|
                    0 <= k < index ==> (#[trigger] tiles@[k]).actor is None && follows_noise(
                        tiles@[k].kind,
                        levels@[k],
                        stone_damaged,
                    ),
            decreases total - index,
        {
            let damaged = match levels[index] {
                NoiseLevel::Low => stone_damaged.sample(),
                _ => false,
            };
            tiles.push(Tile::from_kind(tile_kind_for_noise(levels[index], damaged)));
            index += 1;
        }
        let ghost terrain = tiles@;
        match TileGrid::from_terrain(width, height, tiles) {
            Ok(map) => {
                proof {
                    map.lemma_positions();
                    let exit = choose|exit: int|
                        {
                            &&& 0 <= exit < terrain.len()
                            &&& #[trigger] terrain[exit].walkable()
                            &&& column_of(width as int, exit) == width - 1
                            &&& map.tiles@ == terrain.update(
                                exit,
                                Tile { kind: TileKind::LevelExit, actor: None },
                            )
                            &&& map.exits@[0] == map.position_of(exit)
                        };
                    assert(map.index_of(map.exits@[0]) == exit);
                    assert(levels@[exit] != NoiseLevel::Low);
                }
                Ok(map)
            },
            Err(error) => {
                proof {
                    if levels@.len() == width * height {
                        assert forall|at: int|
                            0 <= at < levels@.len() && column_of(width as int, at) == width
                                - 1 implies #[trigger] levels@[at] == NoiseLevel::Low by {
                            assert(!terrain[at].walkable());
                        }
                    }
                }
                Err(error)
            },
        }
    }
}

/// Moving an actor from one tile to a free one and back again leaves every tile
/// as it was: the way there and the way back cancel.
pub proof fn lemma_tiles_after_round_trip(tiles: Seq<Tile>, from: int, to: int)
    requires
        0 <= from < tiles.len(),
        0 <= to < tiles.len(),
        from == to || tiles[to].actor is None,
    ensures
        tiles_after_move(tiles_after_move(tiles, from, to), to, from) == tiles,
{
    assert(tiles_after_move(tiles_after_move(tiles, from, to), to, from) =~= tiles);
}

/// Moving an actor to a free tile and back again restores the map and the
/// actor: on the map `there` that the first move leaves, the move back gives
/// the tiles of the map `before` and the position that the actor came from.
pub proof fn lemma_move_actor_round_trip(
    before: &TileGrid,
    there: &TileGrid,
    from: MapPosition,
    to: MapPosition,
)
    requires
        before.holds(from),
        before.holds(to),
        before.index_of(from) == before.index_of(to) || before.tile_at(to).actor is None,
        there.width == before.width,
        there.tiles@ == before.after_move_actor(from, to).0,
    ensures
        before.after_move_actor(from, to).1 == to,
        there.after_move_actor(to, from) == (before.tiles@, from),
{
    lemma_tiles_after_round_trip(before.tiles@, before.index_of(from), before.index_of(to));
    assert(there.tiles.len() == before.tiles.len());
    assert(there.holds(from) && there.holds(to));
}

/// Adding an exit on a tile that was none makes that tile, and no other, a new
/// exit: it lies in the rightmost column, and the exits name it.
pub proof fn lemma_one_new_exit(before: &TileGrid, after: &TileGrid, index: int)
    requires
        before.wf(),
        before.is_exit_candidate(index),
        before.tiles@[index].kind != TileKind::LevelExit,
        after.width == before.width,
        after.tiles@ == before.tiles@.update(index, Tile { kind: TileKind::LevelExit, actor: None }),
        after.exits@ == before.exits@.push(before.position_of(index)),
    ensures
        forall|other: int|
            0 <= other < after.tiles@.len() ==> (other == index <==> (#[trigger] after.tiles@[other]).kind
                == TileKind::LevelExit && before.tiles@[other].kind != TileKind::LevelExit),
        before.position_of(index).x == before.width - 1,
        after.exits@.contains(before.position_of(index)),
        after.index_of(before.position_of(index)) == index,
{
    before.lemma_positions();
    lemma_coordinates_of_index(before.width as int, before.height as int, index);
    assert(after.exits@[before.exits@.len() as int] == before.position_of(index));
}

} // verus!
