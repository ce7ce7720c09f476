//! A rules engine for an 8x8 draughts variant with jump captures and king
//! promotion: board representation, move legality, capture resolution and
//! win detection, each operation specified by a contract.

pub mod board;
pub mod error;
pub mod game;
pub mod king_moves;
pub mod moves;
pub mod player;
pub mod tile;
