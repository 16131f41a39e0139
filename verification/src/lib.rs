//! Fog of War chess for self-play: what a player sees, remembers and encodes.

pub mod actions;
pub mod bitboard;
pub mod board_laws;
pub mod encoding;
pub mod encoding_laws;
pub mod engine;
pub mod fen;
pub mod fuzzing;
pub mod game;
pub mod geometry;
pub mod laws;
pub mod memory;
pub mod mirrored;
pub mod mobility;
pub mod order;
pub mod pieces;
pub mod position;
pub mod replay;
pub mod sight_laws;
pub mod squares;
pub mod tables;
pub mod text_source;
pub mod visibility;
