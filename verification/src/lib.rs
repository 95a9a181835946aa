//! Rules engine for a multiplayer tile-placement game on a hexagonal board.
//!
//! The crate covers the portable core of the game: axial hex coordinate
//! algebra, board topology construction for two to six players, the
//! legality test for placing a multi-cell piece, the mutable game state
//! (occupancy, turn rotation, pass counting), and the end-of-game winner
//! ranking. Rendering, input handling and audio belong to a host
//! application and are out of scope here.

pub mod hex;
pub mod board;
pub mod rules;
pub mod game;
pub mod pieces;
pub mod topology;
pub mod winner;
