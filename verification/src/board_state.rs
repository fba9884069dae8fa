//! One snapshot of a game: the board and what the rules remember beside it.
use vstd::prelude::*;
use crate::board::{initial_square, Board, Square};
use crate::castling_rights::{CastlingRights, CastlingRightsKind};
use crate::color::Color;
use crate::displacement::{pawn_advance, Displacement};
use crate::moves::Move;
use crate::piece::Piece;
use crate::position::Position;
use crate::result::{ChessError, ChessResult};

verus! {

/// The state of a game between two plies.
#[derive(Clone, Copy, Debug, PartialEq, Eq, Hash)]
pub struct BoardState {
    /// The side to move.
    pub player: Color,
    pub board: Board,
    pub castling_rights: CastlingRights,
    /// The square a pawn skipped on the ply before, if it advanced two squares.
    pub en_passant_position: Option<Position>,
    pub white_king_position: Position,
    pub black_king_position: Position,
}

/// The rank from which the pawns of `color` may advance two squares.
pub open spec fn pawn_start_rank(color: Color) -> usize {
    match color {
        Color::White => 1,
        Color::Black => 6,
    }
}

/// The rank on which the pawns of `color` promote.
pub open spec fn promotion_rank(color: Color) -> usize {
    match color {
        Color::White => 7,
        Color::Black => 0,
    }
}

/// Whether `square` holds a bishop or a knight of `color`.
pub open spec fn is_minor(square: Square, color: Color) -> bool {
    square == Some(Piece::Bishop(color)) || square == Some(Piece::Knight(color))
}

/// Whether `square` is empty or holds a king, a bishop or a knight.
pub open spec fn is_light(square: Square) -> bool {
    match square {
        None => true,
        Some(p) => p is King || p is Bishop || p is Knight,
    }
}

/// The square with index `i`, counting rank by rank from a1.
pub open spec fn nth_square(i: int) -> Position {
    Position { x: (i % 8) as usize, y: (i / 8) as usize }
}

/// Whether each of the first `n` squares is empty or holds a king, bishop or knight.
pub open spec fn all_light(board: Board, n: int) -> bool {
    forall|i: int| 0 <= i < n ==> is_light(board.at(#[trigger] nth_square(i)))
}

/// The number of bishops and knights of `color` on the first `n` squares.
pub open spec fn minor_count(board: Board, color: Color, n: int) -> int
    decreases n,
{
    if n <= 0 {
        0
    } else {
        minor_count(board, color, n - 1) + if is_minor(board.at(nth_square(n - 1)), color) {
            1int
        } else {
            0int
        }
    }
}

/// The square colour, 0 or 1, of the last bishop of `color` on the first `n`
/// squares, if there is one.
pub open spec fn bishop_shade(board: Board, color: Color, n: int) -> Option<int>
    decreases n,
{
    if n <= 0 {
        None
    } else if board.at(nth_square(n - 1)) == Some(Piece::Bishop(color)) {
        Some((nth_square(n - 1).x + nth_square(n - 1).y) % 2)
    } else {
        bishop_shade(board, color, n - 1)
    }
}

/// Whether neither side can mate with what is on `board`: only kings and
/// minor pieces are left, and these are at most one minor piece in all, or one
/// bishop each, both on squares of one colour.
pub open spec fn insufficient_material(board: Board) -> bool {
    let white = minor_count(board, Color::White, 64);
    let black = minor_count(board, Color::Black, 64);
    all_light(board, 64) && (white + black <= 1 || (white == 1 && black == 1 && bishop_shade(
        board,
        Color::White,
        64,
    ) is Some && bishop_shade(board, Color::White, 64) == bishop_shade(board, Color::Black, 64)))
}

impl BoardState {
    /// The start of a game: the starting position, White to move, every
    /// castling permission held, no en-passant target.
    pub open spec fn is_start(self) -> bool {
        &&& self.player == Color::White
        &&& forall|q: Position| #[trigger] self.board.at(q) == initial_square(q)
        &&& forall|kind: CastlingRightsKind| self.castling_rights.has(kind)
        &&& self.en_passant_position is None
        &&& self.white_king_position == (Position { x: 4, y: 0 })
        &&& self.black_king_position == (Position { x: 4, y: 7 })
    }

    /// Where the king of `color` is recorded to stand.
    pub open spec fn king_position(self, color: Color) -> Position {
        match color {
            Color::White => self.white_king_position,
            Color::Black => self.black_king_position,
        }
    }

    /// Exactly one king of `color` is on the board, on the square recorded for it.
    pub open spec fn one_king(self, color: Color) -> bool {
        self.king_position(color).in_bounds() && forall|q: Position|
            (#[trigger] self.board.at(q) == Some(Piece::King(color))) <==> q == self.king_position(
                color,
            )
    }

    /// The square of the pawn that a capture onto `to` takes in passing.
    pub open spec fn passed_pawn(self, to: Position) -> Position {
        to.shifted_back(pawn_advance(self.player))
    }

    /// The snapshot is consistent: one king of each colour stands where it is
    /// recorded; a castling permission is held only while its king and rook are
    /// at home; and an en-passant target is an empty square on the rank behind
    /// an enemy pawn that has just advanced two squares.
    pub open spec fn wf(self) -> bool {
        &&& self.one_king(Color::White)
        &&& self.one_king(Color::Black)
        &&& forall|kind: CastlingRightsKind|
            self.castling_rights.has(kind) ==> #[trigger] kind.undisturbed(self.board)
        &&& match self.en_passant_position {
            Some(t) => t.in_bounds() && t.y == (match self.player {
                Color::White => 5usize,
                Color::Black => 2usize,
            }) && self.board.at(t) is None && self.board.at(self.passed_pawn(t)) == Some(
                Piece::Pawn(self.player.other()),
            ),
            None => true,
        }
    }

    /// Whether `piece`, moved by the side to move, promotes on `at`.
    pub open spec fn promotes(self, piece: Piece, at: Position) -> bool {
        piece is Pawn && at.y == promotion_rank(self.player)
    }

    /// The piece that `mv` puts on its destination.
    pub open spec fn arriving_piece(self, mv: Move) -> Piece {
        let piece = self.board.at(mv.from).unwrap();
        if self.promotes(piece, mv.to) {
            Piece::Queen(self.player)
        } else {
            piece
        }
    }

    /// Whether `mv` can be played at all: it takes a piece from a square of the
    /// board to a square of the board, and a pawn taken in passing is on the board.
    pub open spec fn can_apply(self, mv: Move) -> bool {
        &&& mv.from.in_bounds()
        &&& mv.to.in_bounds()
        &&& self.board.at(mv.from) is Some
        &&& self.en_passant_position == Some(mv.to) ==> self.passed_pawn(mv.to).in_bounds()
    }

    /// The board once the moved piece stands on its destination.
    pub open spec fn piece_placed(self, mv: Move) -> Board {
        self.board.with(mv.from, None).with(mv.to, Some(self.arriving_piece(mv)))
    }

    /// The board once a castling rook has been brought over as well.
    pub open spec fn rook_placed(self, mv: Move) -> Board {
        self.castling_rights.rook_relocated(mv, self.piece_placed(mv), self.player)
    }

    /// The board after `mv`, a pawn taken in passing removed: whatever piece
    /// arrives on the en-passant target, the pawn that advanced past that
    /// square leaves the board.
    pub open spec fn board_after(self, mv: Move) -> Board {
        if self.en_passant_position == Some(mv.to) {
            self.rook_placed(mv).with(self.passed_pawn(mv.to), None)
        } else {
            self.rook_placed(mv)
        }
    }

    /// Whether `mv`, already played on `board`, was a pawn's advance from its
    /// start rank to the rank two squares ahead.
    pub open spec fn double_advance(board: Board, mv: Move) -> bool {
        match board.at(mv.to) {
            Some(Piece::Pawn(Color::White)) => mv.from.y == 1 && mv.to.y == 3,
            Some(Piece::Pawn(Color::Black)) => mv.from.y == 6 && mv.to.y == 4,
            _ => false,
        }
    }

    /// The snapshot that follows from playing `mv`.
    pub open spec fn after_move(self, mv: Move) -> BoardState {
        let arriving = self.arriving_piece(mv);
        let board = self.board_after(mv);
        BoardState {
            player: self.player.other(),
            board,
            castling_rights: self.castling_rights.kept(self.rook_placed(mv)),
            en_passant_position: if Self::double_advance(board, mv) {
                Some(mv.from.shifted(pawn_advance(self.player)))
            } else {
                None
            },
            white_king_position: if arriving == Piece::King(self.player) && self.player
                == Color::White {
                mv.to
            } else {
                self.white_king_position
            },
            black_king_position: if arriving == Piece::King(self.player) && self.player
                == Color::Black {
                mv.to
            } else {
                self.black_king_position
            },
        }
    }

    /// The same position with the other side to move.
    pub open spec fn flipped(self) -> BoardState {
        BoardState {
            player: self.player.other(),
            board: self.board,
            castling_rights: self.castling_rights,
            en_passant_position: self.en_passant_position,
            white_king_position: self.white_king_position,
            black_king_position: self.black_king_position,
        }
    }

    fn kings_where_recorded(&self) -> (r: bool)
        ensures
            r == (self.one_king(Color::White) && self.one_king(Color::Black)),
    {
        let white = self.white_king_position;
        let black = self.black_king_position;
        if white.x > 7 || white.y > 7 || black.x > 7 || black.y > 7 {
            return false;
        }
        let mut i: usize = 0;
        while i < 64
            invariant
                i <= 64,
                white == self.white_king_position,
                black == self.black_king_position,
                white.in_bounds(),
                black.in_bounds(),
                forall|j: int|
                    0 <= j < i ==> ((self.board.at(#[trigger] nth_square(j)) == Some(
                        Piece::King(Color::White),
                    )) <==> nth_square(j) == white) && ((self.board.at(nth_square(j)) == Some(
                        Piece::King(Color::Black),
                    )) <==> nth_square(j) == black),
            decreases 64 - i,
        {
            let q = Position::new(i % 8, i / 8);
            assert(q == nth_square(i as int));
            let square = self.board.get_piece(&q);
            let white_here = square == Some(Piece::King(Color::White));
            let black_here = square == Some(Piece::King(Color::Black));
            if white_here != (q == white) || black_here != (q == black) {
                assert(self.board.at(q) == square);
                return false;
            }
            i += 1;
        }
        proof {
            assert forall|q: Position| ((#[trigger] self.board.at(q) == Some(
                Piece::King(Color::White),
            )) <==> q == white) && ((self.board.at(q) == Some(Piece::King(Color::Black))) <==> q
                == black) by {
                if q.in_bounds() {
                    assert(nth_square(q.y * 8 + q.x) == q);
                }
            }
        }
        true
    }

    /// Whether the snapshot is consistent.
    pub fn is_consistent(&self) -> (r: bool)
        ensures
            r == self.wf(),
    {
        if !self.kings_where_recorded() {
            return false;
        }
        let rights = self.castling_rights;
        let held_at_home = (!rights.white_kingside
            || CastlingRightsKind::WhiteKingside.is_undisturbed(&self.board))
            && (!rights.white_queenside || CastlingRightsKind::WhiteQueenside.is_undisturbed(
            &self.board,
        )) && (!rights.black_kingside || CastlingRightsKind::BlackKingside.is_undisturbed(
            &self.board,
        )) && (!rights.black_queenside || CastlingRightsKind::BlackQueenside.is_undisturbed(
            &self.board,
        ));
        proof {
            if held_at_home {
                assert forall|kind: CastlingRightsKind| rights.has(kind)
                    implies #[trigger] kind.undisturbed(
                    self.board,
                ) by {}
            } else {
                assert(rights.has(CastlingRightsKind::WhiteKingside)
                    && !CastlingRightsKind::WhiteKingside.undisturbed(self.board) || rights.has(
                    CastlingRightsKind::WhiteQueenside,
                ) && !CastlingRightsKind::WhiteQueenside.undisturbed(self.board) || rights.has(
                    CastlingRightsKind::BlackKingside,
                ) && !CastlingRightsKind::BlackKingside.undisturbed(self.board) || rights.has(
                    CastlingRightsKind::BlackQueenside,
                ) && !CastlingRightsKind::BlackQueenside.undisturbed(self.board));
            }
        }
        if !held_at_home {
            return false;
        }
        match self.en_passant_position {
            Some(t) => {
                let rank: usize = match self.player {
                    Color::White => 5,
                    Color::Black => 2,
                };
                if t.x > 7 || t.y != rank {
                    return false;
                }
                let behind = t - Displacement::get_pawn_advance_vector(self.player);
                self.board.get_piece(&t).is_none() && self.board.get_piece(&behind) == Some(
                    Piece::Pawn(self.player.opposite()),
                )
            },
            None => true,
        }
    }

    /// Whether two snapshots are the same.
    pub fn same_as(&self, other: &BoardState) -> (r: bool)
        ensures
            r == (*self == *other),
    {
        self.player == other.player && self.board.same_as(&other.board) && self.castling_rights
            == other.castling_rights && self.en_passant_position == other.en_passant_position
            && self.white_king_position == other.white_king_position
            && self.black_king_position == other.black_king_position
    }

    /// Returns the same position with the other side to move.
    pub fn with_other_player(&self) -> (r: BoardState)
        ensures
            r == self.flipped(),
    {
        BoardState {
            player: self.player.opposite(),
            board: self.board,
            castling_rights: self.castling_rights,
            en_passant_position: self.en_passant_position,
            white_king_position: self.white_king_position,
            black_king_position: self.black_king_position,
        }
    }

    /// Whether neither side has the material to mate.
    pub fn has_insufficient_material(&self) -> (r: bool)
        ensures
            r == insufficient_material(self.board),
    {
        let mut white_minors: usize = 0;
        let mut black_minors: usize = 0;
        let mut white_bishop_square_color: Option<usize> = None;
        let mut black_bishop_square_color: Option<usize> = None;
        let mut i: usize = 0;
        while i < 64
            invariant
                i <= 64,
                all_light(self.board, i as int),
                white_minors == minor_count(self.board, Color::White, i as int),
                black_minors == minor_count(self.board, Color::Black, i as int),
                white_minors <= i,
                black_minors <= i,
                match white_bishop_square_color {
                    Some(c) => bishop_shade(self.board, Color::White, i as int) == Some(c as int),
                    None => bishop_shade(self.board, Color::White, i as int) is None,
                },
                match black_bishop_square_color {
                    Some(c) => bishop_shade(self.board, Color::Black, i as int) == Some(c as int),
                    None => bishop_shade(self.board, Color::Black, i as int) is None,
                },
            decreases 64 - i,
        {
            let x: usize = i % 8;
            let y: usize = i / 8;
            assert(Position { x, y } == nth_square(i as int));
            match self.board.get_piece(&Position::new(x, y)) {
                Some(Piece::Bishop(Color::White)) => {
                    white_minors += 1;
                    white_bishop_square_color = Some((x + y) % 2);
                },
                Some(Piece::Bishop(Color::Black)) => {
                    black_minors += 1;
                    black_bishop_square_color = Some((x + y) % 2);
                },
                Some(Piece::Knight(Color::White)) => {
                    white_minors += 1;
                },
                Some(Piece::Knight(Color::Black)) => {
                    black_minors += 1;
                },
                Some(Piece::King(_)) | None => (),
                _ => {
                    proof {
                        assert(!is_light(self.board.at(nth_square(i as int))));
                    }
                    return false;
                },
            }
            i += 1;
        }
        if white_minors + black_minors <= 1 {
            true
        } else if white_minors == 1 && black_minors == 1 {
            match (white_bishop_square_color, black_bishop_square_color) {
                (Some(w), Some(b)) => w == b,
                _ => false,
            }
        } else {
            false
        }
    }

    /// Returns what stands at `at`, and nothing for a position off the board.
    pub fn get_piece(&self, at: &Position) -> (r: Square)
        ensures
            r == self.board.at(*at),
    {
        self.board.get_piece(at)
    }

    fn can_promote_piece(&self, piece: Piece, at: &Position) -> (r: bool)
        ensures
            r == self.promotes(piece, *at),
    {
        piece.is_pawn() && ((self.player == Color::White && at.y == 7) || (self.player
            == Color::Black && at.y == 0))
    }

    /// Plays `mv`: the piece leaves its square and arrives on the destination,
    /// as a queen where a pawn reaches the far rank; a castling rook joins its
    /// king; a pawn taken in passing is removed; castling permissions and the
    /// en-passant target are brought up to date; the other side is to move.
    pub fn move_piece(&mut self, mv: &Move)
        requires
            old(self).can_apply(*mv),
        ensures
            *final(self) == old(self).after_move(*mv),
    {
        let mut piece = self.board.take_piece(&mv.from).unwrap();
        if self.can_promote_piece(piece, &mv.to) {
            piece = Piece::Queen(self.player)
        }
        self.board.set_piece(&Position::new(mv.to.x, mv.to.y), Some(piece));
        if piece == Piece::King(self.player) {
            match self.player {
                Color::White => self.white_king_position = mv.to,
                Color::Black => self.black_king_position = mv.to,
            }
        }
        self.update(mv)
    }

    /// Fails with `OutOfBounds` exactly for a position that is not on the board.
    pub fn is_in_bounds(at: &Position) -> (r: ChessResult)
        ensures
            at.in_bounds() ==> r == Ok::<(), ChessError>(()),
            !at.in_bounds() ==> r == Err::<(), ChessError>(ChessError::OutOfBounds),
    {
        if at.x > 7 || at.y > 7 {
            Err(ChessError::OutOfBounds)
        } else {
            Ok(())
        }
    }

    /// Fails with `NoPieceAtPosition` exactly where nothing stands at `at`.
    pub fn is_piece_some(&self, at: &Position) -> (r: ChessResult)
        ensures
            self.board.at(*at) is Some ==> r == Ok::<(), ChessError>(()),
            self.board.at(*at) is None ==> r == Err::<(), ChessError>(
                ChessError::NoPieceAtPosition,
            ),
    {
        if self.board.get_piece(at).is_none() {
            return Err(ChessError::NoPieceAtPosition);
        }
        Ok(())
    }

    fn update(&mut self, mv: &Move)
        requires
            mv.to.in_bounds(),
            old(self).en_passant_position == Some(mv.to) ==> old(self).passed_pawn(
                mv.to,
            ).in_bounds(),
        ensures
            final(self).player == old(self).player.other(),
            final(self).white_king_position == old(self).white_king_position,
            final(self).black_king_position == old(self).black_king_position,
            final(self).castling_rights == old(self).castling_rights.kept(
                old(self).castling_rights.rook_relocated(*mv, old(self).board, old(self).player),
            ),
            final(self).board == (if old(self).en_passant_position == Some(mv.to) {
                old(self).castling_rights.rook_relocated(
                    *mv,
                    old(self).board,
                    old(self).player,
                ).with(old(self).passed_pawn(mv.to), None)
            } else {
                old(self).castling_rights.rook_relocated(*mv, old(self).board, old(self).player)
            }),
            final(self).en_passant_position == (if Self::double_advance(final(self).board, *mv) {
                Some(mv.from.shifted(pawn_advance(old(self).player)))
            } else {
                None
            }),
    {
        let rights = self.castling_rights;
        rights.handle_castling_the_rook(mv, &mut self.board, self.player);
        self.castling_rights.update_castling_rights(&self.board);
        self.handle_capturing_en_passant(&mv.to);
        self.update_en_passant(mv);
        self.player = self.player.opposite();
    }

    /// Whether a piece stands at `position`; never off the board.
    pub fn has_piece(&self, position: &Position) -> (r: bool)
        ensures
            r == (self.board.at(*position) is Some),
    {
        Self::is_in_bounds(position).is_ok() && self.board.get_piece(position).is_some()
    }

    /// Whether `mv`, already played, was a pawn's advance by two squares.
    pub fn was_double_move(&self, mv: &Move) -> (r: bool)
        ensures
            r == Self::double_advance(self.board, *mv),
    {
        match self.board.get_piece(&mv.to) {
            Some(Piece::Pawn(player)) => match player {
                Color::White => mv.from.y == 1 && mv.to.y == 3,
                Color::Black => mv.from.y == 6 && mv.to.y == 4,
            },
            _ => false,
        }
    }

    fn handle_capturing_en_passant(&mut self, to: &Position)
        requires
            old(self).en_passant_position == Some(*to) ==> old(self).passed_pawn(*to).in_bounds(),
        ensures
            final(self).board == (if old(self).en_passant_position == Some(*to) {
                old(self).board.with(old(self).passed_pawn(*to), None)
            } else {
                old(self).board
            }),
            final(self).player == old(self).player,
            final(self).castling_rights == old(self).castling_rights,
            final(self).en_passant_position == old(self).en_passant_position,
            final(self).white_king_position == old(self).white_king_position,
            final(self).black_king_position == old(self).black_king_position,
    {
        if Some(*to) == self.en_passant_position {
            let behind = *to - Displacement::get_pawn_advance_vector(self.player);
            self.board.set_piece(&behind, None);
        }
    }

    fn update_en_passant(&mut self, mv: &Move)
        ensures
            final(self).en_passant_position == (if Self::double_advance(old(self).board, *mv) {
                Some(mv.from.shifted(pawn_advance(old(self).player)))
            } else {
                None
            }),
            final(self).board == old(self).board,
            final(self).player == old(self).player,
            final(self).castling_rights == old(self).castling_rights,
            final(self).white_king_position == old(self).white_king_position,
            final(self).black_king_position == old(self).black_king_position,
    {
        self.en_passant_position = if self.was_double_move(mv) {
            Some(mv.from + Displacement::get_pawn_advance_vector(self.player))
        } else {
            None
        }
    }
}

impl Default for BoardState {
    /// The start of a game: the starting position, White to move, every
    /// castling permission held, no en-passant target.
    fn default() -> (r: BoardState)
        ensures
            r.is_start(),
            r.wf(),
    {
        let r = BoardState {
            player: Color::default(),
            board: Board::default(),
            castling_rights: CastlingRights::default(),
            en_passant_position: None,
            white_king_position: Position::white_king(),
            black_king_position: Position::black_king(),
        };
        proof {
            crate::invariants::lemma_start_wf(r);
        }
        r
    }
}

} // verus!
