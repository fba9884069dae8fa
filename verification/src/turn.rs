//! One played ply.
use vstd::prelude::*;
use crate::board_state::BoardState;
use crate::moves::Move;

verus! {

/// A move together with the snapshot it led to.
#[derive(Clone, Copy, Debug, PartialEq, Eq)]
pub struct Turn {
    pub board_state: BoardState,
    pub mv: Move,
}

impl Turn {
    pub fn new(board_state: BoardState, mv: Move) -> (r: Turn)
        ensures
            r == (Turn { board_state, mv }),
    {
        Turn { board_state, mv }
    }
}

} // verus!
