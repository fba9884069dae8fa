//! The game: the legal moves of the position being looked at, the status, and
//! the history they are derived from.
use vstd::prelude::*;
use crate::board_state::BoardState;
use crate::castling_rights::CastlingRightsKind;
use crate::color::Color;
use crate::history::History;
use crate::invariants::{lemma_legal_move_keeps_playable, lemma_start_playable, playable};
use crate::movegen::{has_move, in_check, legal};
use crate::moves::{square_name, Move};
use crate::piece::Piece;
use crate::position::Position;
use crate::result::{ChessError, ChessResult};
use crate::turn::Turn;

verus! {

/// Where a game stands.
#[derive(Clone, Copy, Debug, PartialEq, Eq, Structural)]
pub enum GameStatus {
    Ongoing,
    Stalemate,
    Check,
    Checkmate,
    Replay,
}

impl Default for GameStatus {
    fn default() -> (r: GameStatus)
        ensures
            r == GameStatus::Ongoing,
    {
        GameStatus::Ongoing
    }
}

impl GameStatus {
    /// Replaces the status.
    pub fn update(&mut self, status: GameStatus)
        ensures
            *final(self) == status,
    {
        *self = status;
    }
}

/// A game of chess.
#[derive(Clone, Debug)]
pub struct Game {
    valid_moves: Vec<Move>,
    status: GameStatus,
    history: History,
}

impl Default for Game {
    /// A game from the starting position.
    fn default() -> (r: Game)
        ensures
            r.wf(),
            r.status_of() == GameStatus::Ongoing,
            r.history_of().log().len() == 0,
            r.history_of().half_moves() == 0,
            r.state().is_start(),
    {
        Game::new()
    }
}

/// The status that the rules give a position in live play: with no legal
/// move it is checkmate where the king is attacked and stalemate where it
/// is not; with a legal move it is check where the king is attacked.
pub open spec fn derived_status(st: BoardState) -> GameStatus {
    let no_moves = forall|m: Move| !#[trigger] legal(st, m);
    if no_moves && in_check(st) {
        GameStatus::Checkmate
    } else if no_moves {
        GameStatus::Stalemate
    } else if in_check(st) {
        GameStatus::Check
    } else {
        GameStatus::Ongoing
    }
}

/// Every snapshot that `h` records is playable.
pub open spec fn recorded_playable(h: History) -> bool {
    forall|i: int| 0 <= i <= h.log().len() ==> playable(#[trigger] h.state_at(i))
}

/// Every turn of `h` holds a move that was legal in the snapshot before it,
/// and the snapshot that this move leads to.
pub open spec fn recorded_by_the_rules(h: History) -> bool {
    forall|i: int| 0 <= i < h.log().len() ==> #[trigger] turn_follows(h, i)
}

/// Turn `i` of `h` holds a move that was legal in the snapshot before it, and
/// the snapshot that this move leads to.
pub open spec fn turn_follows(h: History, i: int) -> bool {
    legal(h.state_at(i), h.log()[i].mv)
        && h.log()[i].board_state == h.state_at(i).after_move(h.log()[i].mv)
}

/// Two histories with the same log and initial snapshot record the same
/// snapshots, so what holds of all of one holds of all of the other.
proof fn lemma_states_kept(a: History, b: History)
    requires
        a.log() == b.log(),
        a.initial() == b.initial(),
        recorded_playable(a),
        recorded_by_the_rules(a),
    ensures
        recorded_playable(b),
        recorded_by_the_rules(b),
{
    assert forall|i: int| 0 <= i < b.log().len() implies #[trigger] turn_follows(b, i) by {
        assert(turn_follows(a, i));
        assert(b.state_at(i) == a.state_at(i));
    }
    assert forall|i: int| 0 <= i <= b.log().len() implies playable(#[trigger] b.state_at(i)) by {
        assert(b.state_at(i) == a.state_at(i));
    }
}

/// The text of a turn for display: the figurine of the piece that arrived
/// and the name of the square it arrived on.
pub open spec fn turn_text(turn: Turn) -> Seq<char> {
    match turn.board_state.board.at(turn.mv.to) {
        Some(piece) => piece.glyph() + square_name(turn.mv.to),
        None => Seq::empty(),
    }
}

/// What is shown of round `i` of `h`: White's move, Black's move if it was
/// played, and whether the round is the one being looked at.
pub open spec fn round_shown(h: History, i: int, white: Seq<char>, black: Seq<char>,
    viewed: bool) -> bool {
    &&& white == turn_text(h.log()[2 * i])
    &&& black == (if 2 * i + 1 < h.log().len() {
        turn_text(h.log()[2 * i + 1])
    } else {
        Seq::empty()
    })
    &&& viewed == (h.cursor() / 2 == i)
}

fn text_of(turn: &Turn) -> (r: String)
    ensures
        r@ == turn_text(*turn),
{
    match turn.board_state.get_piece(&turn.mv.to) {
        Some(piece) => turn.mv.to_str(piece),
        None => String::new(),
    }
}

impl Game {
    /// The rounds played, oldest first, each as the text of White's move, the
    /// text of Black's move (empty while Black has not moved) and whether it
    /// is the round being looked at.
    pub fn get_rounds_info(&self) -> (r: Vec<(String, String, bool)>)
        ensures
            r@.len() == (self.history_of().log().len() + 1) / 2,
            forall|i: int| 0 <= i < r@.len() ==> round_shown(self.history_of(), i,
                (#[trigger] r@[i]).0@, r@[i].1@, r@[i].2),
    {
        let len = self.history.len();
        let viewed_round = self.history.get_cursor() / 2;
        let count = len / 2 + len % 2;
        let mut rounds: Vec<(String, String, bool)> = Vec::new();
        let mut k: usize = 0;
        while k < count
            invariant
                len == self.history.log().len(),
                viewed_round == self.history.cursor() / 2,
                count == (len + 1) / 2,
                k <= count,
                rounds@.len() == k,
                forall|j: int| 0 <= j < rounds@.len() ==> round_shown(self.history, j,
                    (#[trigger] rounds@[j]).0@, rounds@[j].1@, rounds@[j].2),
            decreases count - k,
        {
            let first = 2 * k;
            let white = text_of(self.history.get_info_for_move(first));
            let black = if first + 1 < len {
                text_of(self.history.get_info_for_move(first + 1))
            } else {
                String::new()
            };
            let ghost held = rounds@;
            rounds.push((white, black, k == viewed_round));
            proof {
                assert forall|j: int| 0 <= j < rounds@.len() implies round_shown(self.history, j,
                    (#[trigger] rounds@[j]).0@, rounds@[j].1@, rounds@[j].2) by {
                    if j < held.len() {
                        assert(rounds@[j] == held[j]);
                    }
                }
            }
            k += 1;
        }
        rounds
    }

    /// The published legal moves.
    pub closed spec fn moves(self) -> Seq<Move> {
        self.valid_moves@
    }

    /// The status.
    pub closed spec fn status_of(self) -> GameStatus {
        self.status
    }

    /// The history.
    pub closed spec fn history_of(self) -> History {
        self.history
    }

    /// The snapshot being looked at.
    pub open spec fn state(self) -> BoardState {
        self.history_of().current()
    }

    /// The game is consistent: the cursor is within the log; every recorded
    /// snapshot is playable, so has one king of each colour, and follows from
    /// the one before it by the recorded move, which was legal there; the
    /// published moves are the legal moves of the snapshot being looked at,
    /// each once; and outside replay the latest snapshot is the one looked at.
    pub open spec fn wf(self) -> bool {
        &&& self.history_of().wf()
        &&& recorded_playable(self.history_of())
        &&& recorded_by_the_rules(self.history_of())
        &&& forall|m: Move| #[trigger] self.moves().contains(m) <==> legal(self.state(), m)
        &&& self.moves().no_duplicates()
        &&& self.status_of() != GameStatus::Replay
            ==> self.history_of().cursor() == self.history_of().log().len()
    }

    /// A game from the starting position.
    pub fn new() -> (r: Game)
        ensures
            r.wf(),
            r.status_of() == GameStatus::Ongoing,
            r.history_of().log().len() == 0,
            r.history_of().half_moves() == 0,
            r.state().is_start(),
    {
        let state = BoardState::default();
        proof {
            lemma_start_playable(state);
        }
        Game::with_state(state)
    }

    /// A game that continues `history`. It is ongoing where the history looks
    /// at its latest snapshot, and in replay where it looks further back.
    pub fn with_history(history: History) -> (r: Game)
        requires
            history.wf(),
            recorded_playable(history),
            recorded_by_the_rules(history),
        ensures
            r.wf(),
            r.history_of() == history,
            r.status_of() == (if history.cursor() == history.log().len() {
                GameStatus::Ongoing
            } else {
                GameStatus::Replay
            }),
    {
        let status = if history.is_replaying() {
            GameStatus::Replay
        } else {
            GameStatus::Ongoing
        };
        assert(playable(history.state_at(history.cursor() as int)));
        let valid_moves = Game::legal_moves(history.get_current_state());
        Game { valid_moves, status, history }
    }

    /// A game that starts from `state`.
    pub fn with_state(state: BoardState) -> (r: Game)
        requires
            playable(state),
        ensures
            r.wf(),
            r.state() == state,
            r.history_of().initial() == state,
            r.history_of().log().len() == 0,
            r.history_of().half_moves() == 0,
            r.status_of() == GameStatus::Ongoing,
    {
        Game::with_history(History::with_state(state))
    }

    /// A game that continues `history`, if the history is one of a game: its
    /// cursor is within the log, its initial snapshot is playable, and every
    /// turn holds a move that was legal in the snapshot before it and the
    /// snapshot that the move leads to.
    pub fn try_with_history(history: History) -> (r: Option<Game>)
        ensures
            r is Some <==> history.wf() && playable(history.initial()) && recorded_by_the_rules(
                history,
            ),
            r is Some ==> r.unwrap().wf() && r.unwrap().history_of() == history,
    {
        let len = history.len();
        if history.get_cursor() > len || history.get_half_move_count() > len {
            return None;
        }
        let initial = history.get_board_state(0);
        if !initial.is_consistent() || Game::is_attacking_king(initial) {
            return None;
        }
        let mut i: usize = 0;
        while i < len
            invariant
                i <= len,
                len == history.log().len(),
                history.wf(),
                playable(history.initial()),
                forall|j: int| 0 <= j < i ==> #[trigger] turn_follows(history, j),
                forall|j: int| 0 <= j <= i ==> playable(#[trigger] history.state_at(j)),
            decreases len - i,
        {
            let state = history.get_board_state(i);
            let turn = history.get_info_for_move(i);
            assert(playable(history.state_at(i as int)));
            let moves = Game::legal_moves(state);
            if !has_move(&moves, &turn.mv) {
                assert(!turn_follows(history, i as int));
                return None;
            }
            proof {
                lemma_legal_move_keeps_playable(*state, turn.mv);
            }
            let mut next = *state;
            next.move_piece(&turn.mv);
            if !next.same_as(&turn.board_state) {
                assert(!turn_follows(history, i as int));
                return None;
            }
            assert(turn_follows(history, i as int));
            assert(history.state_at(i + 1) == next);
            i += 1;
        }
        Some(Game::with_history(history))
    }

    /// A game that starts from `state`, if `state` is playable: consistent,
    /// and without a king that the side to move could take.
    pub fn try_with_state(state: BoardState) -> (r: Option<Game>)
        ensures
            r is Some <==> playable(state),
            r is Some ==> {
                let g = r.unwrap();
                &&& g.wf()
                &&& g.state() == state
                &&& g.history_of().initial() == state
                &&& g.history_of().log().len() == 0
                &&& g.status_of() == GameStatus::Ongoing
            },
    {
        if state.is_consistent() && !Game::is_attacking_king(&state) {
            Some(Game::with_state(state))
        } else {
            None
        }
    }

    /// What stands at `position` in the snapshot being looked at.
    pub fn get_piece(&self, position: &Position) -> (r: Option<Piece>)
        requires
            self.wf(),
        ensures
            r == self.state().board.at(*position),
    {
        self.history.get_current_state().get_piece(position)
    }

    /// The snapshot being looked at.
    pub fn get_current_state(&self) -> (r: &BoardState)
        requires
            self.wf(),
        ensures
            *r == self.state(),
    {
        self.history.get_current_state()
    }

    /// The side to move in the snapshot being looked at.
    pub fn get_current_player(&self) -> (r: Color)
        requires
            self.wf(),
        ensures
            r == self.state().player,
    {
        self.get_current_state().player
    }

    /// The status.
    pub fn get_status(&self) -> (r: GameStatus)
        ensures
            r == self.status_of(),
    {
        self.status
    }

    /// The published legal moves.
    pub fn get_valid_moves(&self) -> (r: &Vec<Move>)
        ensures
            r@ == self.moves(),
    {
        &self.valid_moves
    }

    /// The history.
    pub fn get_history(&self) -> (r: &History)
        ensures
            *r == self.history_of(),
    {
        &self.history
    }

    /// Fails with `NoPieceAtPosition` exactly where nothing stands at `at`.
    pub fn is_piece_some(&self, at: &Position) -> (r: ChessResult)
        requires
            self.wf(),
        ensures
            self.state().board.at(*at) is Some ==> r == Ok::<(), ChessError>(()),
            self.state().board.at(*at) is None
                ==> r == Err::<(), ChessError>(ChessError::NoPieceAtPosition),
    {
        self.get_current_state().is_piece_some(at)
    }

    /// Whether a piece stands at `position` in the snapshot being looked at.
    pub fn has_piece(&self, position: &Position) -> (r: bool)
        requires
            self.wf(),
        ensures
            r == (self.state().board.at(*position) is Some),
    {
        self.history.get_current_state().has_piece(position)
    }

    /// Whether the piece at `at` moves any distance along its vectors.
    pub fn piece_can_snipe(&self, at: &Position) -> (r: bool)
        requires
            self.wf(),
            self.state().board.at(*at) is Some,
        ensures
            r == self.state().board.at(*at).unwrap().slides(),
    {
        self.get_piece(at).unwrap().can_snipe()
    }

    /// The turn with index `turn`, counting from zero.
    pub fn get_info_for_turn(&self, turn: usize) -> (r: &Turn)
        requires
            turn < self.history_of().log().len(),
        ensures
            *r == self.history_of().log()[turn as int],
    {
        self.history.get_info_for_move(turn)
    }

    /// Whether a castling permission is held in the snapshot being looked at.
    pub fn has_castling_right(&self, right: CastlingRightsKind) -> (r: bool)
        requires
            self.wf(),
        ensures
            r == self.state().castling_rights.has(right),
    {
        self.get_current_state().castling_rights.has_castling_right(right)
    }

    /// Looks one ply further back and enters replay. The log is untouched.
    pub fn go_back_a_turn(&mut self)
        requires
            old(self).wf(),
        ensures
            final(self).wf(),
            final(self).status_of() == GameStatus::Replay,
            old(self).history_of().moved_to(
                final(self).history_of(),
                if old(self).history_of().cursor() > 0 {
                    (old(self).history_of().cursor() - 1) as nat
                } else {
                    0
                },
            ),
    {
        self.status.update(GameStatus::Replay);
        self.history.previous_move();
        proof {
            lemma_states_kept(old(self).history, self.history);
        }
        self.refresh_moves();
    }

    /// In replay, looks one ply further on, and leaves replay for live play
    /// exactly when the latest snapshot is reached. Outside replay nothing changes.
    pub fn go_forward_a_turn(&mut self)
        requires
            old(self).wf(),
        ensures
            final(self).wf(),
            old(self).status_of() != GameStatus::Replay ==> *final(self) == *old(self),
            old(self).status_of() == GameStatus::Replay ==> old(self).history_of().moved_to(
                final(self).history_of(),
                if old(self).history_of().cursor() < old(self).history_of().log().len() {
                    old(self).history_of().cursor() + 1
                } else {
                    old(self).history_of().cursor()
                },
            ) && final(self).status_of() == (if final(self).history_of().cursor()
                == old(self).history_of().log().len() {
                GameStatus::Ongoing
            } else {
                GameStatus::Replay
            }),
    {
        if self.status == GameStatus::Replay {
            self.history.next_move();
            if !self.history.is_replaying() {
                self.status.update(GameStatus::Ongoing)
            }
            proof {
                lemma_states_kept(old(self).history, self.history);
            }
            self.refresh_moves();
        }
    }

    /// Looks at the initial snapshot and enters replay. The log is untouched.
    pub fn go_to_beginning(&mut self)
        requires
            old(self).wf(),
        ensures
            final(self).wf(),
            final(self).status_of() == GameStatus::Replay,
            old(self).history_of().moved_to(final(self).history_of(), 0),
    {
        self.status.update(GameStatus::Replay);
        self.history.go_to_start();
        proof {
            lemma_states_kept(old(self).history, self.history);
        }
        self.refresh_moves();
    }

    /// Looks at the latest snapshot and returns to live play, whatever the status was.
    pub fn resume(&mut self)
        requires
            old(self).wf(),
        ensures
            final(self).wf(),
            final(self).status_of() == GameStatus::Ongoing,
            old(self).history_of().moved_to(final(self).history_of(),
                old(self).history_of().log().len()),
    {
        self.status.update(GameStatus::Ongoing);
        self.history.resume();
        proof {
            lemma_states_kept(old(self).history, self.history);
        }
        self.refresh_moves();
    }

    fn refresh_moves(&mut self)
        requires
            old(self).history.wf(),
            playable(old(self).history.state_at(old(self).history.cursor() as int)),
        ensures
            final(self).history == old(self).history,
            final(self).status == old(self).status,
            forall|m: Move| #[trigger] final(self).valid_moves@.contains(m)
                <==> legal(old(self).history.current(), m),
            final(self).valid_moves@.no_duplicates(),
    {
        self.valid_moves = Game::legal_moves(self.history.get_current_state());
    }

    /// Proposes the move from `from` to `to`.
    ///
    /// Outside live play, and where nothing stands at `from`, nothing happens
    /// and the call succeeds. Otherwise the move is played if it is one of the
    /// published legal moves: its snapshot is appended to the history, and
    /// moves and status are derived anew. A destination off the board is
    /// refused as `OutOfBounds`, any other move as `InvalidMove`; a refusal
    /// changes nothing.
    pub fn move_piece(&mut self, from: Position, to: Position) -> (r: ChessResult)
        requires
            old(self).wf(),
        ensures
            final(self).wf(),
            old(self).status_of() != GameStatus::Ongoing
                || old(self).state().board.at(from) is None ==> r is Ok
                && *final(self) == *old(self),
            old(self).status_of() == GameStatus::Ongoing
                && old(self).state().board.at(from) is Some ==> {
                let mv = Move { from, to };
                let st = old(self).state();
                if !to.in_bounds() {
                    r == Err::<(), ChessError>(ChessError::OutOfBounds)
                        && *final(self) == *old(self)
                } else if !old(self).moves().contains(mv) {
                    r == Err::<(), ChessError>(ChessError::InvalidMove)
                        && *final(self) == *old(self)
                } else {
                    &&& r is Ok
                    &&& final(self).history_of().log()
                        == old(self).history_of().log().push(Turn { board_state: st.after_move(mv),
                        mv })
                    &&& final(self).history_of().cursor() == final(self).history_of().log().len()
                    &&& final(self).history_of().initial() == old(self).history_of().initial()
                    &&& final(self).history_of().half_moves()
                        == crate::history::clock_after(old(self).history_of().half_moves(), st, mv)
                    &&& final(self).state() == st.after_move(mv)
                    &&& final(self).status_of() == derived_status(st.after_move(mv))
                }
            },
    {
        if self.status == GameStatus::Ongoing {
            if let Some(_piece) = self.get_piece(&from) {
                let mv = Move::new(from, to);
                match self.is_move_valid(&mv) {
                    Err(e) => {
                        return Err(e);
                    },
                    Ok(()) => {},
                }
                let mut next_state = *self.get_current_state();
                proof {
                    assert(playable(self.history.state_at(self.history.cursor() as int)));
                    lemma_legal_move_keeps_playable(next_state, mv);
                }
                next_state.move_piece(&mv);
                let ghost log = self.history.log();
                let ghost before = self.history;
                self.history.add_info(next_state, mv);
                proof {
                    assert forall|i: int| 0 <= i <= self.history.log().len()
                        implies playable(#[trigger] self.history.state_at(i)) by {
                        if i <= log.len() {
                            assert(self.history.state_at(i) == before.state_at(i));
                        }
                    }
                    assert forall|i: int| 0 <= i < self.history.log().len()
                        implies #[trigger] turn_follows(self.history, i) by {
                        assert(self.history.state_at(i) == before.state_at(i));
                        if i < log.len() {
                            assert(turn_follows(before, i));
                        }
                    }
                }
                self.update();
            }
        }
        Ok(())
    }

    fn update(&mut self)
        requires
            old(self).history.wf(),
            playable(old(self).history.current()),
        ensures
            final(self).history == old(self).history,
            forall|m: Move| #[trigger] final(self).valid_moves@.contains(m)
                <==> legal(old(self).history.current(), m),
            final(self).valid_moves@.no_duplicates(),
            final(self).status == (if old(self).status == GameStatus::Replay {
                GameStatus::Replay
            } else {
                derived_status(old(self).history.current())
            }),
    {
        self.refresh_moves();
        self.update_status()
    }

    /// Derives the status from the snapshot being looked at, unless in replay.
    fn update_status(&mut self)
        requires
            old(self).history.wf(),
            forall|m: Move| #[trigger] old(self).valid_moves@.contains(m)
                <==> legal(old(self).history.current(), m),
        ensures
            final(self).history == old(self).history,
            final(self).valid_moves == old(self).valid_moves,
            final(self).status == (if old(self).status == GameStatus::Replay {
                GameStatus::Replay
            } else {
                derived_status(old(self).history.current())
            }),
    {
        if self.status == GameStatus::Replay {
            return;
        }
        let king_under_attack = Game::is_king_under_attack(self.history.get_current_state());
        let valid_moves_empty = self.valid_moves.len() == 0;
        proof {
            let st = self.history.current();
            if valid_moves_empty {
                assert forall|m: Move| !#[trigger] legal(st, m) by {
                    assert(!self.valid_moves@.contains(m));
                }
            } else {
                assert(self.valid_moves@.contains(self.valid_moves@[0]));
                assert(legal(st, self.valid_moves@[0]));
            }
        }
        if !king_under_attack && valid_moves_empty {
            self.status.update(GameStatus::Stalemate);
        } else if king_under_attack && valid_moves_empty {
            self.status.update(GameStatus::Checkmate);
        } else if king_under_attack {
            self.status.update(GameStatus::Check);
        } else {
            self.status.update(GameStatus::Ongoing);
        }
    }

    /// Checks a proposed move: both squares are on the board, a piece stands
    /// on the first, and the move is one of the published legal moves.
    pub fn is_move_valid(&self, mv: &Move) -> (r: ChessResult)
        requires
            self.wf(),
        ensures
            r == (if !mv.from.in_bounds() || !mv.to.in_bounds() {
                Err::<(), ChessError>(ChessError::OutOfBounds)
            } else if self.state().board.at(mv.from) is None {
                Err::<(), ChessError>(ChessError::NoPieceAtPosition)
            } else if !self.moves().contains(*mv) {
                Err::<(), ChessError>(ChessError::InvalidMove)
            } else {
                Ok::<(), ChessError>(())
            }),
    {
        match BoardState::is_in_bounds(&mv.from) {
            Err(e) => {
                return Err(e);
            },
            Ok(()) => {},
        }
        match BoardState::is_in_bounds(&mv.to) {
            Err(e) => {
                return Err(e);
            },
            Ok(()) => {},
        }
        match self.is_piece_some(&mv.from) {
            Err(e) => {
                return Err(e);
            },
            Ok(()) => {},
        }
        if has_move(&self.valid_moves, mv) {
            Ok(())
        } else {
            Err(ChessError::InvalidMove)
        }
    }
}

} // verus!
