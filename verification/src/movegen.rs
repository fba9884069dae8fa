//! Which moves the pieces can make, before and after the mover's own king is
//! looked after.
use vstd::prelude::*;
use crate::board::Board;
use crate::board_state::{pawn_start_rank, BoardState};
use crate::castling_rights::{
    king_home, kingside_of, queenside_of, CastlingRights, CastlingRightsKind,
};
use crate::color::Color;
use crate::displacement::{pawn_advance, pawn_captures, short_step, Displacement};
use crate::game::Game;
use crate::moves::Move;
use crate::piece::Piece;
use crate::position::{lemma_shift_on_board, Position};

verus! {

/// Every square strictly between `from` and the square `k` steps of `v` away
/// is on the board and empty.
pub open spec fn clear_path(board: Board, from: Position, v: Displacement, k: int) -> bool {
    forall|i: int|
        #![trigger from.along(v, i)]
        1 <= i < k ==> from.stays_on_board(v, i) && board.at(from.along(v, i)) is None
}

/// `to` is `k` steps of `v` from `from`, on the board, past empty squares
/// only, and no piece of the side to move stands on it.
pub open spec fn reaches(st: BoardState, from: Position, v: Displacement, k: int,
    to: Position) -> bool {
    &&& k >= 1
    &&& from.stays_on_board(v, k)
    &&& to == from.along(v, k)
    &&& clear_path(st.board, from, v, k)
    &&& !st.board.owned_by(to, st.player)
}

/// `to` is reached from `from` in fewer than `n` steps of `v`.
pub open spec fn ray_move_below(st: BoardState, from: Position, v: Displacement, n: int,
    to: Position) -> bool {
    exists|k: int| k < n && #[trigger] reaches(st, from, v, k, to)
}

/// `to` is reached from `from` along `v`: in one step, or in any number of
/// steps for a piece that moves `far`.
pub open spec fn ray_move(st: BoardState, from: Position, v: Displacement, far: bool,
    to: Position) -> bool {
    exists|k: int| #[trigger] reaches(st, from, v, k, to) && (far || k == 1)
}

/// `to` is reached from `from` along one of the first `n` vectors of `vs`.
pub open spec fn table_move(st: BoardState, from: Position, vs: Seq<Displacement>, n: int,
    far: bool, to: Position) -> bool {
    exists|j: int| 0 <= j < n && #[trigger] ray_move(st, from, vs[j], far, to)
}

/// A pawn's advance: one square ahead onto an empty square, or two from the
/// start rank over an empty square onto an empty square.
pub open spec fn pawn_advance_move(st: BoardState, from: Position, to: Position) -> bool {
    let v = pawn_advance(st.player);
    &&& from.stays_on_board(v, 1)
    &&& st.board.at(from.along(v, 1)) is None
    &&& (to == from.along(v, 1) || (from.y == pawn_start_rank(st.player) && to == from.along(v, 2)
        && st.board.at(to) is None))
}

/// A pawn's capture along its `j`-th capture vector: onto an enemy piece or
/// onto the en-passant target.
pub open spec fn pawn_capture_via(st: BoardState, from: Position, j: int, to: Position) -> bool {
    let v = pawn_captures(st.player)[j];
    &&& from.stays_on_board(v, 1)
    &&& to == from.along(v, 1)
    &&& (st.board.owned_by(to, st.player.other()) || st.en_passant_position == Some(to))
}

/// A pawn's capture.
pub open spec fn pawn_capture_move(st: BoardState, from: Position, to: Position) -> bool {
    pawn_capture_via(st, from, 0, to) || pawn_capture_via(st, from, 1, to)
}

/// A move of a piece of the side to move by that piece's own way of moving.
pub open spec fn regular_move(st: BoardState, mv: Move) -> bool {
    &&& mv.from.in_bounds()
    &&& st.board.owned_by(mv.from, st.player)
    &&& {
        let piece = st.board.at(mv.from).unwrap();
        if piece is Pawn {
            pawn_advance_move(st, mv.from, mv.to) || pawn_capture_move(st, mv.from, mv.to)
        } else {
            table_move(st, mv.from, piece.vectors(), piece.vectors().len() as int, piece.slides(),
                mv.to)
        }
    }
}

/// The king's two-square move towards `wing`: the permission is held and the
/// squares between king and rook are empty. Whether any of them is attacked
/// is not looked at.
pub open spec fn castling_via(st: BoardState, wing: CastlingRightsKind, mv: Move) -> bool {
    &&& st.castling_rights.has(wing)
    &&& wing.path_empty(st.board)
    &&& mv.from == king_home(st.player)
    &&& mv.to == wing.king_target()
}

/// A castling move of the side to move.
pub open spec fn castling_move(st: BoardState, mv: Move) -> bool {
    castling_via(st, kingside_of(st.player), mv) || castling_via(st, queenside_of(st.player), mv)
}

/// A move that obeys how the pieces move and what stands in their way, the
/// safety of the mover's king aside.
pub open spec fn pseudo_legal(st: BoardState, mv: Move) -> bool {
    regular_move(st, mv) || castling_move(st, mv)
}

/// The side to move could take the enemy king.
pub open spec fn king_capturable(st: BoardState) -> bool {
    exists|mv: Move| #[trigger] pseudo_legal(st, mv)
        && st.board.at(mv.to) == Some(Piece::King(st.player.other()))
}

/// The king of the side to move is attacked.
pub open spec fn in_check(st: BoardState) -> bool {
    king_capturable(st.flipped())
}

/// A pseudo-legal move after which the mover's king cannot be taken.
pub open spec fn legal(st: BoardState, mv: Move) -> bool {
    pseudo_legal(st, mv) && !king_capturable(st.after_move(mv))
}

/// The index of a square, rank by rank from a1.
pub open spec fn square_index(p: Position) -> int {
    p.y * 8 + p.x
}

/// Where a walk along `v` stops after `k - 1` empty squares, the moves along
/// `v` are those of fewer than `k` steps and, if it is one, that of `k` steps.
proof fn lemma_ray_done(st: BoardState, from: Position, v: Displacement, far: bool, k: int,
    to: Position)
    requires
        k >= 1,
        far || k == 1,
        !from.stays_on_board(v, k) || st.board.at(from.along(v, k)) is Some || !far,
    ensures
        ray_move(st, from, v, far, to) <==> ray_move_below(st, from, v, k, to) || reaches(st, from,
            v, k, to),
{
    if ray_move(st, from, v, far, to) {
        let k2 = choose|k2: int| #[trigger] reaches(st, from, v, k2, to) && (far || k2 == 1);
        if k2 > k {
            let p = from.along(v, k);
            assert(from.stays_on_board(v, k) && st.board.at(p) is None);
        }
    }
    if ray_move_below(st, from, v, k, to) {
        let k2 = choose|k2: int| k2 < k && #[trigger] reaches(st, from, v, k2, to);
        assert(reaches(st, from, v, k2, to) && (far || k2 == 1));
    }
}

/// One more step of a walk adds the move of that many steps.
proof fn lemma_ray_step(st: BoardState, from: Position, v: Displacement, k: int, to: Position)
    ensures
        ray_move_below(st, from, v, k + 1, to) <==> ray_move_below(st, from, v, k, to)
            || reaches(st, from, v, k, to),
{
    if ray_move_below(st, from, v, k + 1, to) {
        let k2 = choose|k2: int| k2 < k + 1 && #[trigger] reaches(st, from, v, k2, to);
        if k2 < k {
            assert(ray_move_below(st, from, v, k, to));
        }
    }
    if ray_move_below(st, from, v, k, to) {
        let k2 = choose|k2: int| k2 < k && #[trigger] reaches(st, from, v, k2, to);
        assert(k2 < k + 1 && reaches(st, from, v, k2, to));
    }
}

/// One more vector of a table adds the moves along that vector.
proof fn lemma_table_step(st: BoardState, from: Position, vs: Seq<Displacement>, n: int, far: bool,
    to: Position)
    requires
        0 <= n,
    ensures
        table_move(st, from, vs, n + 1, far, to) <==> table_move(st, from, vs, n, far, to)
            || ray_move(st, from, vs[n], far, to),
{
    if table_move(st, from, vs, n + 1, far, to) {
        let j = choose|j: int| 0 <= j < n + 1 && #[trigger] ray_move(st, from, vs[j], far, to);
        if j < n {
            assert(table_move(st, from, vs, n, far, to));
        }
    }
    if table_move(st, from, vs, n, far, to) {
        let j = choose|j: int| 0 <= j < n && #[trigger] ray_move(st, from, vs[j], far, to);
        assert(0 <= j < n + 1 && ray_move(st, from, vs[j], far, to));
    }
}

/// Whether `mv` is among `moves`.
pub fn has_move(moves: &Vec<Move>, mv: &Move) -> (r: bool)
    ensures
        r == moves@.contains(*mv),
{
    let mut i: usize = 0;
    while i < moves.len()
        invariant
            i <= moves.len(),
            forall|j: int| 0 <= j < i ==> moves@[j] != *mv,
        decreases moves.len() - i,
    {
        if moves[i] == *mv {
            return true;
        }
        i += 1;
    }
    false
}

/// Adds `mv` to `moves` unless it is there already.
pub fn insert_move(moves: &mut Vec<Move>, mv: Move)
    ensures
        final(moves)@ == (if old(moves)@.contains(mv) {
            old(moves)@
        } else {
            old(moves)@.push(mv)
        }),
        forall|m: Move| #[trigger] final(moves)@.contains(m) <==> old(moves)@.contains(m)
            || m == mv,
        old(moves)@.no_duplicates() ==> final(moves)@.no_duplicates(),
{
    if !has_move(moves, &mv) {
        moves.push(mv);
        proof {
            let a = old(moves)@;
            let b = moves@;
            assert(b == a.push(mv));
            assert forall|m: Move| #[trigger] b.contains(m) <==> a.contains(m) || m == mv by {
                if a.contains(m) {
                    let i = choose|i: int| 0 <= i < a.len() && a[i] == m;
                    assert(b[i] == m);
                }
                if m == mv {
                    assert(b[a.len() as int] == m);
                }
            }
        }
    }
}

impl Game {
    /// Adds the moves of the piece on `from` along `v`: square after square
    /// while they are empty, and last the square of an enemy piece that ends
    /// the walk; a piece that does not move `far` stops after one step.
    pub fn add_ray_moves(state: &BoardState, from: Position, v: Displacement, far: bool,
        moves: &mut Vec<Move>)
        requires
            from.in_bounds(),
            short_step(v),
            v.dx != 0 || v.dy != 0,
        ensures
            forall|m: Move| #[trigger] final(moves)@.contains(m) <==> old(moves)@.contains(m)
                || (m.from == from && ray_move(*state, from, v, far, m.to)),
            old(moves)@.no_duplicates() ==> final(moves)@.no_duplicates(),
    {
        let ghost before = moves@;
        let ghost st = *state;
        let mut to = from + v;
        let mut k: usize = 1;
        let ghost mut prev = from;
        assert(v.dx * 0 == 0 && v.dy * 0 == 0);
        loop
            invariant_except_break
                1 <= k <= 8,
                far || k == 1,
                clear_path(st.board, from, v, k as int),
                prev.in_bounds(),
                prev.x == from.x + v.dx * (k - 1),
                prev.y == from.y + v.dy * (k - 1),
                to == prev.shifted(v),
                forall|m: Move| #[trigger] moves@.contains(m) <==> before.contains(m)
                    || (m.from == from && ray_move_below(st, from, v, k as int, m.to)),
            invariant
                st == *state,
                from.in_bounds(),
                short_step(v),
                v.dx != 0 || v.dy != 0,
                before.no_duplicates() ==> moves@.no_duplicates(),
            ensures
                forall|m: Move| #[trigger] moves@.contains(m) <==> before.contains(m)
                    || (m.from == from && ray_move(st, from, v, far, m.to)),
            decreases 8 - k,
        {
            proof {
                lemma_shift_on_board(prev, v);
                assert(v.dx * (k - 1) + v.dx == v.dx * k) by (nonlinear_arith);
                assert(v.dy * (k - 1) + v.dy == v.dy * k) by (nonlinear_arith);
            }
            let ghost here = from.along(v, k as int);
            let ghost held = moves@;
            if to.x > 7 || to.y > 7 {
                proof {
                    assert(!from.stays_on_board(v, k as int));
                    assert forall|m: Move| #[trigger] moves@.contains(m) <==> before.contains(m)
                        || (m.from == from && ray_move(st, from, v, far, m.to)) by {
                        lemma_ray_done(st, from, v, far, k as int, m.to);
                    }
                }
                break;
            }
            assert(from.stays_on_board(v, k as int) && to == here);
            match state.get_piece(&to) {
                Some(piece) => {
                    if piece.get_player() != state.player {
                        insert_move(moves, Move { from, to });
                    }
                    proof {
                        assert forall|m: Move| #[trigger] moves@.contains(m)
                            <==> before.contains(m) || (m.from == from && ray_move(st, from, v,
                            far, m.to)) by {
                            lemma_ray_done(st, from, v, far, k as int, m.to);
                            assert(held.contains(m) <==> before.contains(m) || (m.from == from
                                && ray_move_below(st, from, v, k as int, m.to)));
                        }
                    }
                    break;
                },
                None => {
                    insert_move(moves, Move { from, to });
                    if !far {
                        proof {
                            assert forall|m: Move| #[trigger] moves@.contains(m)
                                <==> before.contains(m) || (m.from == from && ray_move(st, from, v,
                                far, m.to)) by {
                                lemma_ray_done(st, from, v, far, k as int, m.to);
                                assert(held.contains(m) <==> before.contains(m)
                                    || (m.from == from && ray_move_below(st, from, v, k as int,
                                    m.to)));
                            }
                        }
                        break;
                    }
                    proof {
                        assert(k < 8) by (nonlinear_arith)
                            requires
                                k <= 8,
                                v.dx != 0 || v.dy != 0,
                                0 <= from.x + v.dx * k <= 7,
                                0 <= from.y + v.dy * k <= 7,
                                0 <= from.x <= 7,
                                0 <= from.y <= 7,
                        ;
                        assert forall|m: Move| #[trigger] moves@.contains(m)
                            <==> before.contains(m) || (m.from == from && ray_move_below(st, from,
                            v, k + 1, m.to)) by {
                            lemma_ray_step(st, from, v, k as int, m.to);
                            assert(held.contains(m) <==> before.contains(m) || (m.from == from
                                && ray_move_below(st, from, v, k as int, m.to)));
                        }
                        assert forall|i: int| #![trigger from.along(v, i)] 1 <= i < k + 1
                            implies from.stays_on_board(v, i) && st.board.at(from.along(v,
                            i)) is None by {
                            if i == k {
                                assert(from.along(v, i) == here);
                            }
                        }
                        prev = here;
                    }
                    to = to + v;
                    k += 1;
                },
            }
        }
    }
}

impl Game {
    /// Adds the advances of the pawn of the side to move on `from`.
    pub fn add_pawn_advance_moves(state: &BoardState, from: Position, moves: &mut Vec<Move>)
        requires
            from.in_bounds(),
            state.board.at(from) == Some(Piece::Pawn(state.player)),
        ensures
            forall|m: Move| #[trigger] final(moves)@.contains(m) <==> old(moves)@.contains(m)
                || (m.from == from && pawn_advance_move(*state, from, m.to)),
            old(moves)@.no_duplicates() ==> final(moves)@.no_duplicates(),
    {
        let v = Displacement::get_pawn_advance_vector(state.player);
        let mut to = from + v;
        proof {
            lemma_shift_on_board(from, v);
            if to.in_bounds() {
                lemma_shift_on_board(to, v);
            }
        }
        if BoardState::is_in_bounds(&to).is_ok() && state.get_piece(&to).is_none() {
            insert_move(moves, Move { from, to });
            to = to + v;
            if state.get_piece(&to).is_none() && Game::can_double_move(state, &from) {
                insert_move(moves, Move { from, to });
            }
        }
    }

    /// Whether the pawn on `from` stands on the start rank of its side.
    pub fn can_double_move(state: &BoardState, from: &Position) -> (r: bool)
        ensures
            r == match state.board.at(*from) {
                Some(Piece::Pawn(player)) => from.y == pawn_start_rank(player),
                _ => false,
            },
    {
        match state.get_piece(from) {
            Some(Piece::Pawn(player)) => match player {
                Color::White => from.y == 1,
                Color::Black => from.y == 6,
            },
            _ => false,
        }
    }

    /// Adds the captures of the pawn of the side to move on `from`: diagonally
    /// ahead onto an enemy piece or onto the en-passant target.
    pub fn add_pawn_capture_moves(state: &BoardState, from: Position, moves: &mut Vec<Move>)
        requires
            from.in_bounds(),
        ensures
            forall|m: Move| #[trigger] final(moves)@.contains(m) <==> old(moves)@.contains(m)
                || (m.from == from && pawn_capture_move(*state, from, m.to)),
            old(moves)@.no_duplicates() ==> final(moves)@.no_duplicates(),
    {
        let vectors = Displacement::get_pawn_capture_vectors(state.player);
        let ghost before = moves@;
        let mut j: usize = 0;
        while j < 2
            invariant
                j <= 2,
                from.in_bounds(),
                vectors@ == pawn_captures(state.player),
                forall|m: Move| #[trigger] moves@.contains(m) <==> before.contains(m)
                    || (m.from == from && ((j > 0 && pawn_capture_via(*state, from, 0, m.to))
                    || (j > 1 && pawn_capture_via(*state, from, 1, m.to)))),
                before.no_duplicates() ==> moves@.no_duplicates(),
            decreases 2 - j,
        {
            let v = vectors[j];
            let to = from + v;
            proof {
                lemma_shift_on_board(from, v);
            }
            if BoardState::is_in_bounds(&to).is_ok() {
                match state.get_piece(&to) {
                    Some(piece) => {
                        if piece.get_player() != state.player {
                            insert_move(moves, Move::new(from, to));
                        }
                    },
                    None => {},
                }
                if Some(to) == state.en_passant_position {
                    insert_move(moves, Move::new(from, to));
                }
            }
            j += 1;
        }
    }

    /// Adds the moves of the piece on `from`, if it belongs to the side to move.
    pub fn add_moves_for_piece(state: &BoardState, from: Position, moves: &mut Vec<Move>)
        requires
            from.in_bounds(),
        ensures
            forall|m: Move| #[trigger] final(moves)@.contains(m) <==> old(moves)@.contains(m)
                || (m.from == from && regular_move(*state, m)),
            old(moves)@.no_duplicates() ==> final(moves)@.no_duplicates(),
    {
        let ghost before = moves@;
        if let Some(piece) = state.get_piece(&from) {
            if piece.get_player() == state.player {
                if piece.is_pawn() {
                    Game::add_pawn_advance_moves(state, from, moves);
                    Game::add_pawn_capture_moves(state, from, moves);
                } else {
                    let vectors = piece.get_vectors();
                    let far = piece.can_snipe();
                    let mut j: usize = 0;
                    while j < vectors.len()
                        invariant
                            j <= vectors.len(),
                            from.in_bounds(),
                            vectors@ == piece.vectors(),
                            forall|i: int| 0 <= i < vectors@.len()
                                ==> short_step(#[trigger] vectors@[i]),
                            forall|m: Move| #[trigger] moves@.contains(m)
                                <==> before.contains(m) || (m.from == from && table_move(*state,
                                from, vectors@, j as int, far, m.to)),
                            before.no_duplicates() ==> moves@.no_duplicates(),
                        decreases vectors.len() - j,
                    {
                        let v = vectors[j];
                        let ghost held = moves@;
                        assert(v.dx != 0 || v.dy != 0);
                        Game::add_ray_moves(state, from, v, far, moves);
                        proof {
                            assert forall|m: Move| #[trigger] moves@.contains(m)
                                <==> before.contains(m) || (m.from == from && table_move(*state,
                                from, vectors@, j + 1, far, m.to)) by {
                                lemma_table_step(*state, from, vectors@, j as int, far, m.to);
                                assert(held.contains(m) <==> before.contains(m)
                                    || (m.from == from && table_move(*state, from, vectors@,
                                    j as int, far, m.to)));
                            }
                        }
                        j += 1;
                    }
                }
            }
        }
    }

    /// Adds the castling moves of the side to move: towards each wing whose
    /// permission is held and whose squares between king and rook are empty.
    pub fn add_castling_moves(state: &BoardState, moves: &mut Vec<Move>)
        ensures
            forall|m: Move| #[trigger] final(moves)@.contains(m) <==> old(moves)@.contains(m)
                || castling_move(*state, m),
            old(moves)@.no_duplicates() ==> final(moves)@.no_duplicates(),
    {
        let (king_square, kingside, queenside) = CastlingRights::get_castling_info(state.player);
        let y: usize = king_square.y;
        if state.castling_rights.has_castling_right(kingside) && !state.has_piece(&Position::new(5,
            y)) && !state.has_piece(&Position::new(6, y)) {
            insert_move(moves, Move { from: king_square, to: Position::new(6, y) });
        }
        if state.castling_rights.has_castling_right(queenside)
            && !state.has_piece(&Position::new(3, y)) && !state.has_piece(&Position::new(2, y))
            && !state.has_piece(&Position::new(1, y)) {
            insert_move(moves, Move { from: king_square, to: Position::new(2, y) });
        }
    }

    /// The pseudo-legal moves of the side to move, each once.
    pub fn add_moves(state: &BoardState) -> (moves: Vec<Move>)
        ensures
            forall|m: Move| #[trigger] moves@.contains(m) <==> pseudo_legal(*state, m),
            moves@.no_duplicates(),
    {
        let mut moves: Vec<Move> = Vec::new();
        let mut i: usize = 0;
        while i < 64
            invariant
                i <= 64,
                forall|m: Move| #[trigger] moves@.contains(m) <==> (regular_move(*state, m)
                    && square_index(m.from) < i),
                moves@.no_duplicates(),
            decreases 64 - i,
        {
            let from = Position::new(i % 8, i / 8);
            let ghost held = moves@;
            Game::add_moves_for_piece(state, from, &mut moves);
            proof {
                assert forall|m: Move| #[trigger] moves@.contains(m) <==> (regular_move(*state,
                    m) && square_index(m.from) < i + 1) by {
                    assert(held.contains(m) <==> (regular_move(*state, m)
                        && square_index(m.from) < i));
                    if regular_move(*state, m) && square_index(m.from) == i {
                        assert(m.from == from);
                    }
                }
            }
            i += 1;
        }
        Game::add_castling_moves(state, &mut moves);
        moves
    }

    /// Whether the side to move could take the enemy king.
    pub fn is_attacking_king(state: &BoardState) -> (r: bool)
        ensures
            r == king_capturable(*state),
    {
        let moves = Game::add_moves(state);
        let target = Some(Piece::King(state.player.opposite()));
        let mut i: usize = 0;
        while i < moves.len()
            invariant
                i <= moves.len(),
                target == Some(Piece::King(state.player.other())),
                forall|m: Move| #[trigger] moves@.contains(m) <==> pseudo_legal(*state, m),
                forall|j: int| 0 <= j < i ==> state.board.at((#[trigger] moves@[j]).to) != target,
            decreases moves.len() - i,
        {
            if state.get_piece(&moves[i].to) == target {
                proof {
                    assert(moves@.contains(moves@[i as int]));
                }
                return true;
            }
            i += 1;
        }
        proof {
            if king_capturable(*state) {
                let m = choose|m: Move| #[trigger] pseudo_legal(*state, m)
                    && state.board.at(m.to) == Some(Piece::King(state.player.other()));
                assert(moves@.contains(m));
                let j = choose|j: int| 0 <= j < moves@.len() && moves@[j] == m;
                assert(state.board.at(moves@[j].to) != target);
            }
        }
        false
    }

    /// Whether the king of the side to move is attacked.
    pub fn is_king_under_attack(state: &BoardState) -> (r: bool)
        ensures
            r == in_check(*state),
    {
        let enemy_board = state.with_other_player();
        Game::is_attacking_king(&enemy_board)
    }
}

/// `m` is one of the first `n` entries of `s`.
pub open spec fn among_first(s: Seq<Move>, n: int, m: Move) -> bool {
    exists|j: int| 0 <= j < n && #[trigger] s[j] == m
}

impl Game {
    /// Keeps of `moves` those after which the enemy cannot take the mover's king.
    pub fn remove_self_checks(state: &BoardState, moves: &mut Vec<Move>)
        requires
            forall|m: Move| old(moves)@.contains(m) ==> #[trigger] state.can_apply(m),
        ensures
            forall|m: Move| #[trigger] final(moves)@.contains(m) <==> old(moves)@.contains(m)
                && !king_capturable(state.after_move(m)),
            final(moves)@.no_duplicates(),
    {
        let mut kept: Vec<Move> = Vec::new();
        let mut i: usize = 0;
        while i < moves.len()
            invariant
                i <= moves.len(),
                moves@ == old(moves)@,
                forall|m: Move| moves@.contains(m) ==> #[trigger] state.can_apply(m),
                forall|m: Move| #[trigger] kept@.contains(m) <==> among_first(moves@, i as int,
                    m) && !king_capturable(state.after_move(m)),
                kept@.no_duplicates(),
            decreases moves.len() - i,
        {
            let mv = moves[i];
            let ghost held = kept@;
            assert(moves@.contains(mv));
            let mut future_board = *state;
            future_board.move_piece(&mv);
            if !Game::is_attacking_king(&future_board) {
                insert_move(&mut kept, mv);
            }
            proof {
                assert forall|m: Move| #[trigger] kept@.contains(m) <==> among_first(moves@, i + 1,
                    m) && !king_capturable(state.after_move(m)) by {
                    assert(held.contains(m) <==> among_first(moves@, i as int, m)
                        && !king_capturable(state.after_move(m)));
                    if among_first(moves@, i + 1, m) {
                        let j = choose|j: int| 0 <= j < i + 1 && #[trigger] moves@[j] == m;
                        if j < i {
                            assert(among_first(moves@, i as int, m));
                        }
                    }
                    if among_first(moves@, i as int, m) {
                        let j = choose|j: int| 0 <= j < i && #[trigger] moves@[j] == m;
                        assert(0 <= j < i + 1 && moves@[j] == m);
                    }
                    if m == mv {
                        assert(moves@[i as int] == m);
                    }
                }
            }
            i += 1;
        }
        proof {
            assert forall|m: Move| #[trigger] kept@.contains(m) <==> moves@.contains(m)
                && !king_capturable(state.after_move(m)) by {
                if moves@.contains(m) {
                    let j = choose|j: int| 0 <= j < moves@.len() && moves@[j] == m;
                    assert(moves@[j] == m);
                }
            }
        }
        *moves = kept;
    }

    /// The legal moves of the side to move, each once.
    pub fn legal_moves(state: &BoardState) -> (moves: Vec<Move>)
        requires
            state.wf(),
        ensures
            forall|m: Move| #[trigger] moves@.contains(m) <==> legal(*state, m),
            moves@.no_duplicates(),
    {
        let mut moves = Game::add_moves(state);
        proof {
            assert forall|m: Move| moves@.contains(m) implies #[trigger] state.can_apply(m) by {
                crate::invariants::lemma_pseudo_legal_lands(*state, m);
            }
        }
        Game::remove_self_checks(state, &mut moves);
        moves
    }
}

} // verus!
