//! Nine men's morris: a fixed 24-position board on which two players
//! alternately place, move and capture pieces, subject to adjacency and
//! "mill" (three-in-a-row) rules.
//!
//! The crate is organised leaf-first: `position` defines the 24 board
//! positions and their fixed directional topology, `node` the per-position
//! record, `board` the occupancy state with place/move/remove operations and
//! mill detection, `pieces` the per-player piece counts and held positions,
//! and `game` the turn/phase state machine.

pub mod enums;
pub mod errors;
pub mod position;
pub mod node;
pub mod board;
pub mod pieces;
pub mod game;
