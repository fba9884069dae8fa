//! What holds of every game, stated over the models that the contracts use.
use vstd::prelude::*;
use crate::board::Board;
use crate::board_state::{
    bishop_shade, insufficient_material, is_minor, minor_count, nth_square,
    pawn_start_rank, BoardState,
};
use crate::castling_rights::{king_home, CastlingRightsKind};
use crate::color::Color;
use crate::displacement::pawn_advance;
use crate::game::{derived_status, turn_follows, Game, GameStatus};
use crate::history::{clock_after, restarts_clock, History};
use crate::invariants::{lemma_board_after, lemma_pseudo_legal_lands, playable};
use crate::moves::Move;
use crate::movegen::{in_check, king_capturable, legal, pawn_capture_move, pseudo_legal};
use crate::piece::Piece;
use crate::position::Position;

verus! {

/// In every snapshot that a consistent game records, each colour has exactly
/// one king on the board: a king stands on a square if and only if that
/// square is the one recorded for it.
pub proof fn lemma_one_king_each(game: Game, turn: int, color: Color, q: Position)
    requires
        game.wf(),
        0 <= turn <= game.history_of().log().len(),
    ensures
        game.history_of().state_at(turn).king_position(color).in_bounds(),
        game.history_of().state_at(turn).board.at(q) == Some(Piece::King(color)) <==> q
            == game.history_of().state_at(turn).king_position(color),
{
    let st = game.history_of().state_at(turn);
    assert(playable(st));
    assert(st.one_king(color));
}

/// No published move leaves the mover's own king to be taken: after it, the
/// other side has no pseudo-legal move onto that king, which is to say that
/// the mover, were it to move again, would not be in check.
pub proof fn lemma_published_moves_are_safe(game: Game, mv: Move)
    requires
        game.wf(),
        game.moves().contains(mv),
    ensures
        pseudo_legal(game.state(), mv),
        !king_capturable(game.state().after_move(mv)),
        !in_check(game.state().after_move(mv).flipped()),
        forall|reply: Move| #[trigger]
            pseudo_legal(game.state().after_move(mv), reply) ==> game.state().after_move(
                mv,
            ).board.at(reply.to) != Some(Piece::King(game.state().player)),
{
    assert(legal(game.state(), mv));
    let after = game.state().after_move(mv);
    assert(after.flipped().flipped() == after);
}

/// With no legal move the position is checkmate if the king is attacked and
/// stalemate if it is not; these are the only positions so classified.
pub proof fn lemma_classification(st: BoardState)
    ensures
        derived_status(st) == GameStatus::Checkmate <==> (forall|m: Move| !#[trigger] legal(st, m))
            && in_check(st),
        derived_status(st) == GameStatus::Stalemate <==> (forall|m: Move| !#[trigger] legal(st, m))
            && !in_check(st),
        derived_status(st) == GameStatus::Check <==> !(forall|m: Move| !#[trigger] legal(st, m))
            && in_check(st),
        derived_status(st) != GameStatus::Replay,
{
}

/// A pawn that advances two squares from its start rank leaves the square it
/// skipped as the en-passant target.
pub proof fn lemma_double_advance_sets_target(st: BoardState, mv: Move)
    requires
        st.can_apply(mv),
        st.board.at(mv.from) == Some(Piece::Pawn(st.player)),
        mv.from.y == pawn_start_rank(st.player),
        mv.to == mv.from.along(pawn_advance(st.player), 2),
    ensures
        st.after_move(mv).en_passant_position == Some(mv.from.along(pawn_advance(st.player), 1)),
{
    lemma_board_after(st, mv);
    let b2 = st.piece_placed(mv);
    assert(b2.at(mv.to) == Some(Piece::Pawn(st.player)));
    assert(st.rook_placed(mv).at(mv.to) == b2.at(mv.to));
    assert(st.board_after(mv).at(mv.to) == st.rook_placed(mv).at(mv.to));
}

/// A pawn that captures onto the en-passant target takes the pawn that
/// advanced past it: that pawn's square, which is not the destination, is
/// empty afterwards, and the capturing pawn stands on the target.
pub proof fn lemma_en_passant_takes_passed_pawn(st: BoardState, mv: Move)
    requires
        st.wf(),
        st.en_passant_position == Some(mv.to),
        st.board.at(mv.from) == Some(Piece::Pawn(st.player)),
        mv.from.in_bounds(),
        pawn_capture_move(st, mv.from, mv.to),
    ensures
        st.passed_pawn(mv.to) != mv.to,
        st.board.at(st.passed_pawn(mv.to)) == Some(Piece::Pawn(st.player.other())),
        st.board.at(mv.to) is None,
        st.after_move(mv).board.at(st.passed_pawn(mv.to)) is None,
        st.after_move(mv).board.at(mv.to) == Some(Piece::Pawn(st.player)),
{
    assert(pseudo_legal(st, mv));
    lemma_pseudo_legal_lands(st, mv);
    lemma_board_after(st, mv);
    let b2 = st.piece_placed(mv);
    assert(b2.at(mv.to) == Some(Piece::Pawn(st.player)));
    assert(st.rook_placed(mv).at(mv.to) == b2.at(mv.to));
    assert(st.board_after(mv).at(mv.to) == st.rook_placed(mv).at(mv.to));
    assert(st.board_after(mv).at(st.passed_pawn(mv.to)) is None);
}

/// A move never gives a castling permission back, and it takes away each
/// permission whose king or rook leaves its home square or whose rook's home
/// square is moved onto.
pub proof fn lemma_move_revokes_rights(st: BoardState, mv: Move, kind: CastlingRightsKind)
    requires
        st.wf(),
        pseudo_legal(st, mv),
    ensures
        st.after_move(mv).castling_rights.has(kind) ==> st.castling_rights.has(kind),
        mv.from == king_home(kind.color()) || mv.from == kind.rook_home() || mv.to
            == kind.rook_home() || mv.to == king_home(kind.color())
            ==> !st.after_move(mv).castling_rights.has(kind),
{
    lemma_pseudo_legal_lands(st, mv);
    lemma_board_after(st, mv);
    let b2 = st.piece_placed(mv);
    let b3 = st.rook_placed(mv);
    if st.castling_rights.has(kind) {
        assert(kind.undisturbed(st.board));
    }
}

/// A castling permission that is missing after some turn of a game is
/// missing after every later turn, wherever the cursor stands.
pub proof fn lemma_rights_stay_revoked(
    game: Game,
    earlier: int,
    later: int,
    kind: CastlingRightsKind,
)
    requires
        game.wf(),
        0 <= earlier <= later <= game.history_of().log().len(),
        !game.history_of().state_at(earlier).castling_rights.has(kind),
    ensures
        !game.history_of().state_at(later).castling_rights.has(kind),
    decreases later - earlier,
{
    if earlier < later {
        lemma_rights_stay_revoked(game, earlier, later - 1, kind);
        assert(turn_follows(game.history_of(), later - 1));
    }
}

/// The half-move clock after a ply is zero where a pawn moved or a piece was
/// taken, and one more than before otherwise.
pub proof fn lemma_clock(clock: nat, st: BoardState, mv: Move)
    ensures
        restarts_clock(st, mv) ==> clock_after(clock, st, mv) == 0,
        !restarts_clock(st, mv) ==> clock_after(clock, st, mv) == clock + 1,
{
}

/// Moving the cursor shows what was recorded: the snapshot looked at after
/// the move is the one that the log holds for that ply, and the latest
/// snapshot is the same as before.
pub proof fn lemma_navigation_shows_recorded(before: History, after: History, cursor: nat)
    requires
        before.moved_to(after, cursor),
    ensures
        after.current() == before.state_at(cursor as int),
        after.latest() == before.latest(),
        forall|turn: int| after.state_at(turn) == before.state_at(turn),
        cursor == before.log().len() ==> after.current() == before.latest(),
{
}

/// With no bishop or knight of `color` on the first `n` squares, none is
/// counted and no bishop's square colour is found.
pub proof fn lemma_no_minor(board: Board, color: Color, n: int)
    requires
        n <= 64,
        forall|i: int| 0 <= i < n ==> !is_minor(board.at(#[trigger] nth_square(i)), color),
    ensures
        minor_count(board, color, n) == 0,
        bishop_shade(board, color, n) is None,
    decreases n,
{
    if n > 0 {
        lemma_no_minor(board, color, n - 1);
        assert(!is_minor(board.at(nth_square(n - 1)), color));
    }
}

/// With one bishop or knight of `color` on the board, on square `j`, what is
/// counted on the first `n` squares is that piece if `j` is among them.
pub proof fn lemma_one_minor(board: Board, color: Color, j: int, n: int)
    requires
        n <= 64,
        0 <= j < 64,
        is_minor(board.at(nth_square(j)), color),
        forall|i: int| 0 <= i < 64 && i != j ==> !is_minor(board.at(#[trigger] nth_square(i)),
            color),
    ensures
        minor_count(board, color, n) == (if j < n { 1int } else { 0int }),
        bishop_shade(board, color, n) == (if j < n && board.at(nth_square(j)) == Some(
            Piece::Bishop(color),
        ) {
            Some((nth_square(j).x + nth_square(j).y) % 2)
        } else {
            None
        }),
    decreases n,
{
    if n > 0 {
        lemma_one_minor(board, color, j, n - 1);
        if n - 1 != j {
            assert(!is_minor(board.at(nth_square(n - 1)), color));
        }
    }
}

/// Whether every square other than `a` and `b` is empty or holds a king.
pub open spec fn only_kings_beside(board: Board, a: Position, b: Position) -> bool {
    forall|q: Position|
        q != a && q != b ==> (#[trigger] board.at(q) is None || board.at(q).unwrap() is King)
}

/// Kings alone cannot mate, nor can a king with a single bishop or knight
/// against a king.
pub proof fn lemma_lone_minor_is_a_draw(board: Board, p: Position)
    requires
        p.in_bounds(),
        only_kings_beside(board, p, p),
        board.at(p) is None || board.at(p).unwrap() is King || board.at(p).unwrap() is Bishop
            || board.at(p).unwrap() is Knight,
    ensures
        insufficient_material(board),
{
    let j = p.y * 8 + p.x;
    assert(nth_square(j) == p);
    assert forall|i: int| 0 <= i < 64 implies crate::board_state::is_light(
        board.at(#[trigger] nth_square(i)),
    ) by {
        if i != j {
            assert(nth_square(i) != p);
        }
    }
    assert forall|c: Color| minor_count(board, c, 64) == (if is_minor(board.at(p), c) {
        1int
    } else {
        0int
    }) by {
        assert forall|i: int| 0 <= i < 64 && i != j implies !is_minor(
            board.at(#[trigger] nth_square(i)),
            c,
        ) by {
            assert(nth_square(i) != p);
        }
        if is_minor(board.at(p), c) {
            lemma_one_minor(board, c, j, 64);
        } else {
            lemma_no_minor(board, c, 64);
        }
    }
    assert(minor_count(board, Color::White, 64) + minor_count(board, Color::Black, 64) <= 1);
}

/// King and bishop against king and bishop is a draw exactly when the two
/// bishops stand on squares of one colour.
pub proof fn lemma_bishop_pair_draw(board: Board, white: Position, black: Position)
    requires
        white.in_bounds(),
        black.in_bounds(),
        board.at(white) == Some(Piece::Bishop(Color::White)),
        board.at(black) == Some(Piece::Bishop(Color::Black)),
        only_kings_beside(board, white, black),
    ensures
        insufficient_material(board) <==> (white.x + white.y) % 2 == (black.x + black.y) % 2,
{
    let w = white.y * 8 + white.x;
    let b = black.y * 8 + black.x;
    assert(nth_square(w) == white);
    assert(nth_square(b) == black);
    assert forall|i: int| 0 <= i < 64 implies crate::board_state::is_light(
        board.at(#[trigger] nth_square(i)),
    ) by {
        if i != w && i != b {
            assert(nth_square(i) != white && nth_square(i) != black);
        }
    }
    assert forall|i: int| 0 <= i < 64 && i != w implies !is_minor(
        board.at(#[trigger] nth_square(i)),
        Color::White,
    ) by {
        assert(nth_square(i) != white);
    }
    assert forall|i: int| 0 <= i < 64 && i != b implies !is_minor(
        board.at(#[trigger] nth_square(i)),
        Color::Black,
    ) by {
        assert(nth_square(i) != black);
    }
    lemma_one_minor(board, Color::White, w, 64);
    lemma_one_minor(board, Color::Black, b, 64);
}

} // verus!
