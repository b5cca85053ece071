//! Map generation and turn resolution for a tile-based roguelike.
//!
//! A map is a grid of tiles, grown by a cellular automaton or drawn from
//! noise, with one exit on its right edge. Actors stand on its tiles, one to
//! a tile: the player, friendly mobs that walk at random, and hostile mobs
//! that step towards the player. The game moves through a cycle of states:
//! a map is generated, its actors are placed, the player and the mobs take
//! turns, and when the player reaches the exit the mobs and the map are
//! removed and the next map is generated.
//!
//! - [`grid`]: how columns and rows relate to places in a row-major grid.
//! - [`random`]: probabilities, and the random choices that everything else
//!   is verified against.
//! - [`cellular_automaton`]: the automaton that grows stones.
//! - [`noise`]: the whole-number half of the noise that maps are drawn from.
//! - [`tile`], [`map`]: tiles, positions, the map and its generation.
//! - [`actors`]: the actors, their placement, and what it means for the tiles
//!   and the actors to agree on who stands where.
//! - [`movement`]: single steps, and the turn of the mobs.
//! - [`states`]: the states of the application and of the turn cycle.
//! - [`turn`]: the steps of the turn cycle, each on the parts of the game
//!   that it changes.
//! - [`game`]: the game as a whole, advanced one step at a time.

pub mod actors;
pub mod cellular_automaton;
pub mod game;
pub mod grid;
pub mod map;
pub mod movement;
pub mod noise;
pub mod random;
pub mod states;
pub mod tile;
pub mod turn;
