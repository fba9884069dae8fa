//! A chess rules engine: board state, legal-move generation, game status
//! classification and a navigable turn history.
pub mod color;
pub mod displacement;
pub mod position;
pub mod piece;
pub mod board;
pub mod result;
pub mod text;
pub mod player;
pub mod moves;
pub mod castling_rights;
pub mod board_state;
pub mod movegen;
pub mod invariants;
pub mod turn;
pub mod history;
pub mod game;
pub mod laws;
pub mod analysis;
