//! Core of a falling-block puzzle game.
//!
//! The library models the playing field as a set of landed cells, the seven
//! tetromino shapes as integer offsets from a pivot, and the single falling
//! piece as a pivot coordinate plus a quarter-turn rotation count. Lateral
//! moves, gravity descents and hard drops are gated by a collision check;
//! rotation is deliberately unconditional, matching the game's observed
//! behaviour. A fixed-interval gravity clock drives automatic descent.

pub mod board;
pub mod clock;
pub mod game;
pub mod grid;
pub mod piece;
