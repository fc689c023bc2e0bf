//! A verified Quarto engine: canonical pieces, a 4x4 board with
//! generalized win detection, the turn state machine with the forced-piece
//! hand-off rule, a deterministic seeded random source, and a one-ply
//! heuristic move selector built on them.

pub mod ai;
pub mod field;
pub mod game;
pub mod piece;
pub mod rng;
