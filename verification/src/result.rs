//! The failures a caller can be told about.
use vstd::prelude::*;

verus! {

/// Why a request was refused. Only the first three kinds are produced by the
/// engine; the others name conditions that it folds into `InvalidMove` or
/// reports through the game status.
#[derive(Clone, Copy, Debug, PartialEq, Eq, Structural)]
pub enum ChessError {
    OutOfBounds,
    NoPieceAtPosition,
    InvalidMove,
    OwnPieceInDestination,
    PlayerInCheck,
    Checkmate,
    Stalemate,
    InvalidPromotion,
    NotPlayersTurn,
    EmptyPieceMove,
}

pub type ChessResult = Result<(), ChessError>;

} // verus!
