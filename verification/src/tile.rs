//! The tiles a map is made of.

use crate::actors::Actor;
use vstd::prelude::*;

verus! {

/// The number of rows in the terrain's tileset image.
pub const TILESET_TERRAIN_ROWS: usize = 1;

/// The number of columns in the terrain's tileset image.
pub const TILESET_TERRAIN_COLUMNS: usize = 5;

pub const TILESET_TERRAIN_IDX_GRASS: usize = 0;

pub const TILESET_TERRAIN_IDX_GRASS_WITH_FLOWER: usize = 1;

pub const TILESET_TERRAIN_IDX_GRASS_WITH_STONE: usize = 2;

pub const TILESET_TERRAIN_IDX_GRASS_WITH_STONE_DAMAGED: usize = 3;

pub const TILESET_TERRAIN_IDX_SIGNPOST: usize = 4;

/// The ground of a tile.
#[derive(Clone, Copy, Debug, Eq, PartialEq, Structural)]
pub enum TileKind {
    /// Open ground.
    Grass,
    /// Open ground, decorated.
    GrassWithFlower,
    /// Blocked ground.
    GrassWithStone,
    /// Blocked ground, the stone chipped.
    GrassWithStoneDamaged,
    /// Open ground that leads the player to the next map.
    LevelExit,
}

impl TileKind {
    /// An actor can stand on ground of this kind: on everything but stone.
    pub open spec fn walkable(self) -> bool {
        match self {
            TileKind::Grass | TileKind::GrassWithFlower | TileKind::LevelExit => true,
            TileKind::GrassWithStone | TileKind::GrassWithStoneDamaged => false,
        }
    }

    /// Whether an actor can stand on ground of this kind.
    pub fn is_walkable(&self) -> (walkable: bool)
        ensures
            walkable == self.walkable(),
    {
        match self {
            TileKind::Grass | TileKind::GrassWithFlower | TileKind::LevelExit => true,
            TileKind::GrassWithStone | TileKind::GrassWithStoneDamaged => false,
        }
    }

    /// The index in the tileset image where the sprite for this kind of ground is.
    pub fn to_sprite_idx(kind: Self) -> (index: usize)
        ensures
            index == match kind {
                TileKind::Grass => TILESET_TERRAIN_IDX_GRASS,
                TileKind::GrassWithFlower => TILESET_TERRAIN_IDX_GRASS_WITH_FLOWER,
                TileKind::GrassWithStone => TILESET_TERRAIN_IDX_GRASS_WITH_STONE,
                TileKind::GrassWithStoneDamaged => TILESET_TERRAIN_IDX_GRASS_WITH_STONE_DAMAGED,
                TileKind::LevelExit => TILESET_TERRAIN_IDX_SIGNPOST,
            },
            index < TILESET_TERRAIN_ROWS * TILESET_TERRAIN_COLUMNS,
    {
        match kind {
            TileKind::Grass => TILESET_TERRAIN_IDX_GRASS,
            TileKind::GrassWithFlower => TILESET_TERRAIN_IDX_GRASS_WITH_FLOWER,
            TileKind::GrassWithStone => TILESET_TERRAIN_IDX_GRASS_WITH_STONE,
            TileKind::GrassWithStoneDamaged => TILESET_TERRAIN_IDX_GRASS_WITH_STONE_DAMAGED,
            TileKind::LevelExit => TILESET_TERRAIN_IDX_SIGNPOST,
        }
    }
}

impl Default for TileKind {
    /// Plain grass.
    fn default() -> (kind: Self)
        ensures
            kind == TileKind::Grass,
    {
        TileKind::Grass
    }
}

/// One tile of a map: its ground, and the actor that stands on it, if any.
#[derive(Clone, Copy, Debug, Eq, PartialEq)]
pub struct Tile {
    pub kind: TileKind,
    pub actor: Option<Actor>,
}

impl Default for Tile {
    /// A tile of plain grass with nobody on it.
    fn default() -> (tile: Self)
        ensures
            tile == (Tile { kind: TileKind::Grass, actor: None }),
    {
        Self { kind: TileKind::Grass, actor: None }
    }
}

impl Tile {
    /// An actor can step onto the tile: its ground is walkable and nobody
    /// stands on it.
    pub open spec fn walkable(self) -> bool {
        self.kind.walkable() && self.actor is None
    }

    /// A tile with the given ground and nobody on it.
    pub fn from_kind(kind: TileKind) -> (tile: Self)
        ensures
            tile == (Tile { kind, actor: None }),
    {
        Self { kind, actor: None }
    }

    /// Whether an actor can step onto the tile.
    pub fn is_walkable(self) -> (walkable: bool)
        ensures
            walkable == self.walkable(),
    {
        match self.kind {
            TileKind::Grass | TileKind::GrassWithFlower | TileKind::LevelExit => {
                self.actor.is_none()
            },
            TileKind::GrassWithStone | TileKind::GrassWithStoneDamaged => false,
        }
    }
}

} // verus!
