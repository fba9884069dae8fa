//! The log of played turns, a cursor for looking back, and the half-move clock.
use vstd::prelude::*;
use crate::board_state::BoardState;
use crate::moves::Move;
use crate::turn::Turn;

verus! {

/// The turns played from an initial snapshot. The log only grows; the cursor
/// moves over it freely and says which snapshot is being looked at.
#[derive(Clone, Debug)]
pub struct History {
    turns: Vec<Turn>,
    current_turn: usize,
    fifty_move_count: usize,
    initial_state: BoardState,
}

/// Whether playing `mv` in `state` restarts the half-move clock: a pawn moves
/// or a piece is taken.
pub open spec fn restarts_clock(state: BoardState, mv: Move) -> bool {
    state.board.at(mv.from).unwrap() is Pawn || state.board.at(mv.to) is Some
}

/// The half-move clock after a ply.
pub open spec fn clock_after(clock: nat, state: BoardState, mv: Move) -> nat {
    if restarts_clock(state, mv) {
        0
    } else {
        clock + 1
    }
}

impl History {
    /// The turns played so far, oldest first.
    pub closed spec fn log(self) -> Seq<Turn> {
        self.turns@
    }

    /// The number of plies before the snapshot being looked at.
    pub closed spec fn cursor(self) -> nat {
        self.current_turn as nat
    }

    /// The plies since the last pawn move or capture.
    pub closed spec fn half_moves(self) -> nat {
        self.fifty_move_count as nat
    }

    /// The snapshot the game started from.
    pub closed spec fn initial(self) -> BoardState {
        self.initial_state
    }

    /// The snapshot after `turn` plies.
    pub open spec fn state_at(self, turn: int) -> BoardState {
        if turn <= 0 {
            self.initial()
        } else {
            self.log()[turn - 1].board_state
        }
    }

    /// The snapshot being looked at.
    pub open spec fn current(self) -> BoardState {
        self.state_at(self.cursor() as int)
    }

    /// The latest snapshot.
    pub open spec fn latest(self) -> BoardState {
        self.state_at(self.log().len() as int)
    }

    /// The cursor is within the log, and the clock counts no more plies than were played.
    pub open spec fn wf(self) -> bool {
        self.cursor() <= self.log().len() && self.half_moves() <= self.log().len()
    }

    /// `other` is this history looked at after `cursor` plies: the log, the
    /// initial snapshot and the clock are the same.
    pub open spec fn moved_to(self, other: History, cursor: nat) -> bool {
        &&& other.cursor() == cursor
        &&& other.log() == self.log()
        &&& other.initial() == self.initial()
        &&& other.half_moves() == self.half_moves()
    }

    /// A history with no turn played.
    pub fn with_state(initial_state: BoardState) -> (r: History)
        ensures
            r.initial() == initial_state,
            r.log() == Seq::<Turn>::empty(),
            r.cursor() == 0,
            r.half_moves() == 0,
            r.wf(),
    {
        History { turns: Vec::new(), current_turn: 0, fifty_move_count: 0, initial_state }
    }

    /// The snapshot after `turn` plies.
    pub fn get_board_state(&self, turn: usize) -> (r: &BoardState)
        requires
            turn <= self.log().len(),
        ensures
            *r == self.state_at(turn as int),
    {
        if turn == 0 {
            &self.initial_state
        } else {
            &self.turns[turn - 1].board_state
        }
    }

    /// Appends a turn and puts the cursor at the end of the log. The clock
    /// restarts where, in the latest snapshot before it, the move was a
    /// pawn's or took a piece, and counts one more ply otherwise.
    pub fn add_info(&mut self, next_state: BoardState, mv: Move)
        requires
            old(self).wf(),
            old(self).latest().board.at(mv.from) is Some,
        ensures
            final(self).log() == old(self).log().push(Turn { board_state: next_state, mv }),
            final(self).cursor() == final(self).log().len(),
            final(self).initial() == old(self).initial(),
            final(self).half_moves() == clock_after(old(self).half_moves(), old(self).latest(), mv),
            final(self).wf(),
    {
        let previous_board_state = *self.get_board_state(self.turns.len());
        self.turns.push(Turn::new(next_state, mv));
        self.current_turn = self.turns.len();
        let is_pawn = previous_board_state.get_piece(&mv.from).unwrap().is_pawn();
        let is_capture_move = previous_board_state.get_piece(&mv.to).is_some();
        if !is_pawn && !is_capture_move {
            self.fifty_move_count += 1;
        } else {
            self.fifty_move_count = 0;
        }
    }

    /// The full moves since the last pawn move or capture: half the clock, rounded down.
    pub fn get_fifty_move_count(&self) -> (r: usize)
        ensures
            r == self.half_moves() / 2,
    {
        self.fifty_move_count / 2
    }

    /// The plies since the last pawn move or capture.
    pub fn get_half_move_count(&self) -> (r: usize)
        ensures
            r == self.half_moves(),
    {
        self.fifty_move_count
    }

    /// The snapshot being looked at.
    pub fn get_current_state(&self) -> (r: &BoardState)
        requires
            self.wf(),
        ensures
            *r == self.current(),
    {
        self.get_board_state(self.current_turn)
    }

    /// A copy of the snapshot being looked at.
    pub fn clone_current_state(&self) -> (r: BoardState)
        requires
            self.wf(),
        ensures
            r == self.current(),
    {
        *self.get_current_state()
    }

    /// The latest snapshot, whatever is being looked at.
    pub fn get_real_state(&self) -> (r: &BoardState)
        ensures
            *r == self.latest(),
    {
        self.get_board_state(self.turns.len())
    }

    /// The turn with index `turn`, counting from zero.
    pub fn get_info_for_move(&self, turn: usize) -> (r: &Turn)
        requires
            turn < self.log().len(),
        ensures
            *r == self.log()[turn as int],
    {
        &self.turns[turn]
    }

    /// The number of turns played.
    pub fn len(&self) -> (r: usize)
        ensures
            r == self.log().len(),
    {
        self.turns.len()
    }

    /// The number of plies before the snapshot being looked at.
    pub fn get_cursor(&self) -> (r: usize)
        ensures
            r == self.cursor(),
    {
        self.current_turn
    }

    /// Puts the cursor at the end of the log.
    pub fn resume(&mut self)
        ensures
            old(self).moved_to(*final(self), old(self).log().len()),
    {
        self.current_turn = self.turns.len()
    }

    /// Moves the cursor one ply back, unless it is at the start.
    pub fn previous_move(&mut self)
        ensures
            old(self).moved_to(
                *final(self),
                if old(self).cursor() > 0 {
                    (old(self).cursor() - 1) as nat
                } else {
                    0
                },
            ),
    {
        if self.current_turn > 0 {
            self.current_turn -= 1
        }
    }

    /// Moves the cursor one ply on, unless it is at the end of the log.
    pub fn next_move(&mut self)
        ensures
            old(self).moved_to(
                *final(self),
                if old(self).cursor() < old(self).log().len() {
                    old(self).cursor() + 1
                } else {
                    old(self).cursor()
                },
            ),
    {
        if self.current_turn < self.turns.len() {
            self.current_turn += 1
        }
    }

    /// Puts the cursor before the first turn.
    pub fn go_to_start(&mut self)
        ensures
            old(self).moved_to(*final(self), 0),
    {
        self.current_turn = 0
    }

    /// Whether the cursor is not at the end of the log.
    pub fn is_replaying(&self) -> (r: bool)
        ensures
            r == (self.cursor() != self.log().len()),
    {
        self.current_turn != self.turns.len()
    }

    /// The round being looked at: White and Black share a round, counted from one.
    pub fn current_round(&self) -> (r: usize)
        ensures
            r == self.cursor() / 2 + 1,
    {
        self.current_turn / 2 + 1
    }
}

impl Default for History {
    /// A history of no turns from the start of a game.
    fn default() -> (r: History)
        ensures
            r.initial().is_start(),
            r.log() == Seq::<Turn>::empty(),
            r.cursor() == 0,
            r.half_moves() == 0,
            r.wf(),
    {
        History::with_state(BoardState::default())
    }
}

} // verus!
