//! What every move that the rules allow keeps true of a snapshot.
use vstd::prelude::*;
use crate::board_state::BoardState;
use crate::castling_rights::{king_home, kingside_of, queenside_of, CastlingRightsKind};
use crate::color::Color;
use crate::displacement::pawn_advance;
use crate::moves::Move;
use crate::movegen::{
    castling_move, castling_via, king_capturable, legal, pawn_advance_move,
    pseudo_legal, ray_move, reaches, regular_move, table_move,
};
use crate::piece::Piece;
use crate::position::Position;

verus! {

/// A consistent snapshot in which the side to move cannot take the enemy
/// king: what a game starts from and what every accepted move leads to.
pub open spec fn playable(st: BoardState) -> bool {
    st.wf() && !king_capturable(st)
}

/// A move along a vector of a piece's table ends on the board, at most as far
/// from its start as the piece can go, and not on a piece of the mover.
pub proof fn lemma_table_move_lands(st: BoardState, piece: Piece, from: Position, to: Position)
    requires
        from.in_bounds(),
        table_move(st, from, piece.vectors(), piece.vectors().len() as int, piece.slides(), to),
    ensures
        to.in_bounds(),
        to != from,
        !st.board.owned_by(to, st.player),
        piece is King ==> -1 <= to.x - from.x <= 1,
{
    let vs = piece.vectors();
    let j = choose|j: int| 0 <= j < vs.len() && #[trigger] ray_move(st, from, vs[j],
        piece.slides(), to);
    let v = vs[j];
    let k = choose|k: int| #[trigger] reaches(st, from, v, k, to) && (piece.slides() || k == 1);
    assert(v.dx != 0 || v.dy != 0);
    assert(-2 <= v.dx <= 2 && -2 <= v.dy <= 2);
    if piece is King {
        assert(-1 <= v.dx <= 1);
        assert(k == 1);
        assert(v.dx * k == v.dx) by (nonlinear_arith)
            requires
                k == 1,
        ;
    }
    assert(v.dx * k != 0 || v.dy * k != 0) by (nonlinear_arith)
        requires
            k >= 1,
            v.dx != 0 || v.dy != 0,
    ;
}

/// A pseudo-legal move in a consistent snapshot takes a piece of the side to
/// move from a square of the board to another square of the board on which
/// no piece of that side stands.
pub proof fn lemma_pseudo_legal_lands(st: BoardState, mv: Move)
    requires
        st.wf(),
        pseudo_legal(st, mv),
    ensures
        mv.from.in_bounds(),
        mv.to.in_bounds(),
        mv.from != mv.to,
        st.board.owned_by(mv.from, st.player),
        !st.board.owned_by(mv.to, st.player),
        st.can_apply(mv),
{
    if regular_move(st, mv) {
        let piece = st.board.at(mv.from).unwrap();
        if !(piece is Pawn) {
            lemma_table_move_lands(st, piece, mv.from, mv.to);
        }
    } else {
        let wing = if castling_via(st, kingside_of(st.player), mv) {
            kingside_of(st.player)
        } else {
            queenside_of(st.player)
        };
        assert(wing.undisturbed(st.board));
    }
}

/// The board after a move, square by square.
pub proof fn lemma_board_after(st: BoardState, mv: Move)
    requires
        st.can_apply(mv),
    ensures
        forall|q: Position| #[trigger] st.piece_placed(mv).at(q) == (if q == mv.to {
            Some(st.arriving_piece(mv))
        } else if q == mv.from {
            None
        } else {
            st.board.at(q)
        }),
        forall|q: Position| #[trigger] st.rook_placed(mv).at(q)
            == (match st.castling_rights.wing_castled(mv, st.piece_placed(mv), st.player) {
            Some(wing) => if q == wing.rook_target() {
                st.piece_placed(mv).at(wing.rook_home())
            } else if q == wing.rook_home() {
                None
            } else {
                st.piece_placed(mv).at(q)
            },
            None => st.piece_placed(mv).at(q),
        }),
        forall|q: Position| #[trigger] st.board_after(mv).at(q) == (if st.en_passant_position
            == Some(mv.to) && q == st.passed_pawn(mv.to) {
            None
        } else {
            st.rook_placed(mv).at(q)
        }),
{
    let b1 = st.board.with(mv.from, None);
    st.board.lemma_with(mv.from, None);
    b1.lemma_with(mv.to, Some(st.arriving_piece(mv)));
    let b2 = st.piece_placed(mv);
    match st.castling_rights.wing_castled(mv, b2, st.player) {
        Some(wing) => {
            b2.lemma_with(wing.rook_home(), None);
            b2.with(wing.rook_home(), None).lemma_with(wing.rook_target(), b2.at(wing.rook_home()));
        },
        None => {},
    }
    if st.en_passant_position == Some(mv.to) {
        st.rook_placed(mv).lemma_with(st.passed_pawn(mv.to), None);
    }
}

/// A pseudo-legal move that takes no king leads from a consistent snapshot
/// to a consistent snapshot: one king of each colour is still on the board.
pub proof fn lemma_move_keeps_wf(st: BoardState, mv: Move)
    requires
        st.wf(),
        pseudo_legal(st, mv),
        !(st.board.at(mv.to) is Some && st.board.at(mv.to).unwrap() is King),
    ensures
        st.after_move(mv).wf(),
{
    lemma_pseudo_legal_lands(st, mv);
    lemma_board_after(st, mv);
    let next = st.after_move(mv);
    let b0 = st.board;
    let b2 = st.piece_placed(mv);
    let b3 = st.rook_placed(mv);
    let b4 = st.board_after(mv);
    let piece = b0.at(mv.from).unwrap();
    let arriving = st.arriving_piece(mv);
    let wing = st.castling_rights.wing_castled(mv, b2, st.player);
    let me = st.player;
    let foe = st.player.other();
    assert(st.one_king(me) && st.one_king(foe));
    assert(b2.at(mv.to) == Some(arriving));
    if regular_move(st, mv) && piece is King {
        lemma_table_move_lands(st, piece, mv.from, mv.to);
        assert(b0.at(mv.from) == Some(Piece::King(me)));
        assert(mv.from == st.king_position(me));
    }
    if wing is Some {
        let w = wing.unwrap();
        assert(w.undisturbed(b0));
        assert(arriving == Piece::King(me));
        assert(castling_move(st, mv)) by {
            if regular_move(st, mv) {
                assert(piece is King);
            }
        }
        assert(b0.at(w.rook_target()) is None);
        assert(b2.at(w.rook_home()) == Some(Piece::Rook(me)));
    }
    if st.en_passant_position == Some(mv.to) {
        assert(b0.at(st.passed_pawn(mv.to)) == Some(Piece::Pawn(foe)));
        assert(st.passed_pawn(mv.to) != mv.to);
        assert(st.passed_pawn(mv.to) != mv.from);
        assert(wing is None);
    }
    assert forall|q: Position| (#[trigger] b4.at(q) == Some(Piece::King(me)))
        <==> q == next.king_position(me) by {
        assert((b0.at(q) == Some(Piece::King(me))) <==> q == st.king_position(me));
    }
    assert forall|q: Position| (#[trigger] b4.at(q) == Some(Piece::King(foe)))
        <==> q == next.king_position(foe) by {
        assert((b0.at(q) == Some(Piece::King(foe))) <==> q == st.king_position(foe));
    }
    assert(next.one_king(Color::White) && next.one_king(Color::Black));
    assert forall|kind: CastlingRightsKind| next.castling_rights.has(kind)
        implies #[trigger] kind.undisturbed(next.board) by {
        assert(kind.undisturbed(b3));
        assert(b4.at(king_home(kind.color())) == b3.at(king_home(kind.color())));
        assert(b4.at(kind.rook_home()) == b3.at(kind.rook_home()));
    }
    if BoardState::double_advance(b4, mv) {
        assert(b3.at(mv.to) == b2.at(mv.to));
        assert(piece == Piece::Pawn(me));
        assert(pawn_advance_move(st, mv.from, mv.to));
        let t = mv.from.shifted(pawn_advance(me));
        assert(t == mv.from.along(pawn_advance(me), 1));
        assert(next.passed_pawn(t) == mv.to);
        assert(b3.at(t) == b2.at(t));
        assert(b4.at(t) is None);
        assert(b4.at(mv.to) == Some(Piece::Pawn(me)));
    }
}

/// A legal move leads from a playable snapshot to a playable snapshot.
pub proof fn lemma_legal_move_keeps_playable(st: BoardState, mv: Move)
    requires
        playable(st),
        legal(st, mv),
    ensures
        playable(st.after_move(mv)),
        st.can_apply(mv),
{
    lemma_pseudo_legal_lands(st, mv);
    lemma_move_keeps_wf(st, mv);
}

/// The start of a game is a consistent snapshot.
pub proof fn lemma_start_wf(st: BoardState)
    requires
        st.is_start(),
    ensures
        st.wf(),
{
    assert forall|q: Position| (#[trigger] st.board.at(q) == Some(Piece::King(Color::White)))
        <==> q == st.king_position(Color::White) by {
        assert(st.board.at(q) == crate::board::initial_square(q));
    }
    assert forall|q: Position| (#[trigger] st.board.at(q) == Some(Piece::King(Color::Black)))
        <==> q == st.king_position(Color::Black) by {
        assert(st.board.at(q) == crate::board::initial_square(q));
    }
    assert forall|kind: CastlingRightsKind| #[trigger] kind.undisturbed(st.board) by {
        assert(st.board.at(king_home(kind.color()))
            == crate::board::initial_square(king_home(kind.color())));
        assert(st.board.at(kind.rook_home()) == crate::board::initial_square(kind.rook_home()));
    }
}

/// At the start of a game no move reaches beyond the fourth rank, so the
/// starting position is playable.
pub proof fn lemma_start_playable(st: BoardState)
    requires
        st.is_start(),
    ensures
        playable(st),
{
    lemma_start_wf(st);
    assert forall|mv: Move| #[trigger] pseudo_legal(st, mv)
        implies st.board.at(mv.to) != Some(Piece::King(Color::Black)) by {
        lemma_pseudo_legal_lands(st, mv);
        if regular_move(st, mv) {
            let piece = st.board.at(mv.from).unwrap();
            assert(st.board.at(mv.from) == crate::board::initial_square(mv.from));
            assert(mv.from.y <= 1);
            if !(piece is Pawn) {
                let vs = piece.vectors();
                let j = choose|j: int| 0 <= j < vs.len() && #[trigger] ray_move(st, mv.from, vs[j],
                    piece.slides(), mv.to);
                let v = vs[j];
                let k = choose|k: int| #[trigger] reaches(st, mv.from, v, k, mv.to)
                    && (piece.slides() || k == 1);
                assert(-2 <= v.dy <= 2);
                if k > 1 {
                    let p = mv.from.along(v, 1);
                    assert(mv.from.stays_on_board(v, 1) && st.board.at(p) is None);
                    assert(-1 <= v.dy <= 1);
                    assert(p.y <= 1);
                    assert(st.board.at(p) == crate::board::initial_square(p));
                } else {
                    assert(v.dy * k == v.dy) by (nonlinear_arith)
                        requires
                            k == 1,
                    ;
                    assert(mv.to.y <= 3);
                }
            } else {
                assert(mv.to.y <= 3);
            }
        }
    }
}

} // verus!
