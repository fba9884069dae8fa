//! Castling permissions, one per side and wing.
use vstd::prelude::*;
use crate::board::Board;
use crate::color::Color;
use crate::moves::Move;
use crate::piece::Piece;
use crate::position::Position;

verus! {

/// One of the four castling permissions.
#[derive(Clone, Copy, Debug, PartialEq, Eq, Hash, Structural)]
pub enum CastlingRightsKind {
    WhiteKingside,
    WhiteQueenside,
    BlackKingside,
    BlackQueenside,
}

/// The four permissions. A permission that was lost is never given back.
#[derive(Clone, Copy, Debug, PartialEq, Eq, Hash, Structural)]
pub struct CastlingRights {
    pub white_kingside: bool,
    pub white_queenside: bool,
    pub black_kingside: bool,
    pub black_queenside: bool,
}

/// The rank on which the pieces of `color` start.
pub open spec fn home_rank(color: Color) -> usize {
    match color {
        Color::White => 0,
        Color::Black => 7,
    }
}

/// The square on which the king of `color` starts.
pub open spec fn king_home(color: Color) -> Position {
    Position { x: 4, y: home_rank(color) }
}

impl CastlingRightsKind {
    /// The side whose permission this is.
    pub open spec fn color(self) -> Color {
        match self {
            CastlingRightsKind::WhiteKingside | CastlingRightsKind::WhiteQueenside => Color::White,
            _ => Color::Black,
        }
    }

    /// Whether this is the wing of the h-file rook.
    pub open spec fn kingside(self) -> bool {
        self is WhiteKingside || self is BlackKingside
    }

    /// The corner on which the rook of this wing starts.
    pub open spec fn rook_home(self) -> Position {
        Position { x: if self.kingside() { 7 } else { 0 }, y: home_rank(self.color()) }
    }

    /// The square on which castling puts the rook.
    pub open spec fn rook_target(self) -> Position {
        Position { x: if self.kingside() { 5 } else { 3 }, y: home_rank(self.color()) }
    }

    /// The square on which castling puts the king.
    pub open spec fn king_target(self) -> Position {
        Position { x: if self.kingside() { 6 } else { 2 }, y: home_rank(self.color()) }
    }

    /// Whether every square between the king's and the rook's home is empty.
    pub open spec fn path_empty(self, board: Board) -> bool {
        let y = home_rank(self.color());
        if self.kingside() {
            board.at(Position { x: 5, y }) is None && board.at(Position { x: 6, y }) is None
        } else {
            board.at(Position { x: 3, y }) is None && board.at(Position { x: 2, y }) is None
                && board.at(Position { x: 1, y }) is None
        }
    }

    /// Whether king and rook of this wing stand on their home squares.
    pub open spec fn undisturbed(self, board: Board) -> bool {
        board.at(king_home(self.color())) == Some(Piece::King(self.color())) && board.at(
            self.rook_home(),
        ) == Some(Piece::Rook(self.color()))
    }

    fn get_color(self) -> (r: Color)
        ensures
            r == self.color(),
    {
        match self {
            CastlingRightsKind::WhiteKingside | CastlingRightsKind::WhiteQueenside => Color::White,
            _ => Color::Black,
        }
    }

    fn is_kingside(self) -> (r: bool)
        ensures
            r == self.kingside(),
    {
        match self {
            CastlingRightsKind::WhiteKingside | CastlingRightsKind::BlackKingside => true,
            _ => false,
        }
    }

    /// Whether king and rook of this wing stand on their home squares.
    pub fn is_undisturbed(self, board: &Board) -> (r: bool)
        ensures
            r == self.undisturbed(*board),
    {
        let color = self.get_color();
        let y: usize = match color {
            Color::White => 0,
            Color::Black => 7,
        };
        let corner: usize = if self.is_kingside() { 7 } else { 0 };
        let king = board.get_piece(&Position::new(4, y));
        let rook = board.get_piece(&Position::new(corner, y));
        king == Some(Piece::King(color)) && rook == Some(Piece::Rook(color))
    }
}

/// The kingside permission of `color`.
pub open spec fn kingside_of(color: Color) -> CastlingRightsKind {
    match color {
        Color::White => CastlingRightsKind::WhiteKingside,
        Color::Black => CastlingRightsKind::BlackKingside,
    }
}

/// The queenside permission of `color`.
pub open spec fn queenside_of(color: Color) -> CastlingRightsKind {
    match color {
        Color::White => CastlingRightsKind::WhiteQueenside,
        Color::Black => CastlingRightsKind::BlackQueenside,
    }
}

impl CastlingRights {
    /// Whether the permission `kind` is held.
    pub open spec fn has(self, kind: CastlingRightsKind) -> bool {
        match kind {
            CastlingRightsKind::WhiteKingside => self.white_kingside,
            CastlingRightsKind::WhiteQueenside => self.white_queenside,
            CastlingRightsKind::BlackKingside => self.black_kingside,
            CastlingRightsKind::BlackQueenside => self.black_queenside,
        }
    }

    /// The permissions that survive on `board`: those held whose king and
    /// rook still stand on their home squares.
    pub open spec fn kept(self, board: Board) -> CastlingRights {
        CastlingRights {
            white_kingside: self.white_kingside && CastlingRightsKind::WhiteKingside.undisturbed(
                board,
            ),
            white_queenside: self.white_queenside && CastlingRightsKind::WhiteQueenside.undisturbed(
                board,
            ),
            black_kingside: self.black_kingside && CastlingRightsKind::BlackKingside.undisturbed(
                board,
            ),
            black_queenside: self.black_queenside && CastlingRightsKind::BlackQueenside.undisturbed(
                board,
            ),
        }
    }

    /// The wing on which `mv`, already played on `board` by `player`, castled:
    /// the king went from its home square two files towards a rook whose
    /// permission is held.
    pub open spec fn wing_castled(self, mv: Move, board: Board, player: Color) -> Option<
        CastlingRightsKind,
    > {
        if board.at(mv.to) == Some(Piece::King(player)) && mv.from == king_home(player) {
            if mv.to == kingside_of(player).king_target() && self.has(kingside_of(player)) {
                Some(kingside_of(player))
            } else if mv.to == queenside_of(player).king_target() && self.has(
                queenside_of(player),
            ) {
                Some(queenside_of(player))
            } else {
                None
            }
        } else {
            None
        }
    }

    /// The board after the rook of a castling move has joined its king.
    pub open spec fn rook_relocated(self, mv: Move, board: Board, player: Color) -> Board {
        match self.wing_castled(mv, board, player) {
            Some(wing) => board.with(wing.rook_home(), None).with(
                wing.rook_target(),
                board.at(wing.rook_home()),
            ),
            None => board,
        }
    }

    pub fn has_castling_right(&self, kind: CastlingRightsKind) -> (r: bool)
        ensures
            r == self.has(kind),
    {
        match kind {
            CastlingRightsKind::WhiteKingside => self.white_kingside,
            CastlingRightsKind::WhiteQueenside => self.white_queenside,
            CastlingRightsKind::BlackKingside => self.black_kingside,
            CastlingRightsKind::BlackQueenside => self.black_queenside,
        }
    }

    /// The king's home square of `player` and its two permissions, kingside first.
    pub fn get_castling_info(player: Color) -> (r: (
        Position,
        CastlingRightsKind,
        CastlingRightsKind,
    ))
        ensures
            r == (king_home(player), kingside_of(player), queenside_of(player)),
    {
        match player {
            Color::White => (
                Position::new(4, 0),
                CastlingRightsKind::WhiteKingside,
                CastlingRightsKind::WhiteQueenside,
            ),
            Color::Black => (
                Position::new(4, 7),
                CastlingRightsKind::BlackKingside,
                CastlingRightsKind::BlackQueenside,
            ),
        }
    }

    /// Where `mv` was a castling move of `player`, brings the rook over.
    pub fn handle_castling_the_rook(&self, mv: &Move, board: &mut Board, player: Color)
        ensures
            *final(board) == self.rook_relocated(*mv, *old(board), player),
    {
        let (king_square, kingside, queenside) = CastlingRights::get_castling_info(player);
        if board.get_piece(&mv.to) == Some(Piece::King(player)) && mv.from == king_square {
            let y: usize = king_square.y;
            if mv.to == Position::new(6, y) && self.has_castling_right(kingside) {
                let rook = board.take_piece(&Position::new(7, y));
                board.set_piece(&Position::new(5, y), rook);
            } else if mv.to == Position::new(2, y) && self.has_castling_right(queenside) {
                let rook = board.take_piece(&Position::new(0, y));
                board.set_piece(&Position::new(3, y), rook);
            }
        }
    }

    /// Drops every permission whose king or rook no longer stands on its home square.
    pub fn update_castling_rights(&mut self, board: &Board)
        ensures
            *final(self) == old(self).kept(*board),
    {
        self.white_kingside = self.white_kingside
            && CastlingRightsKind::WhiteKingside.is_undisturbed(board);
        self.white_queenside = self.white_queenside
            && CastlingRightsKind::WhiteQueenside.is_undisturbed(board);
        self.black_kingside = self.black_kingside
            && CastlingRightsKind::BlackKingside.is_undisturbed(board);
        self.black_queenside = self.black_queenside
            && CastlingRightsKind::BlackQueenside.is_undisturbed(board);
    }
}

impl Default for CastlingRights {
    /// Every permission held.
    fn default() -> (r: CastlingRights)
        ensures
            forall|kind: CastlingRightsKind| r.has(kind),
    {
        CastlingRights {
            white_kingside: true,
            white_queenside: true,
            black_kingside: true,
            black_queenside: true,
        }
    }
}

/// A permission held after an update was held before it.
pub proof fn lemma_rights_never_return(
    rights: CastlingRights,
    board: Board,
    kind: CastlingRightsKind,
)
    ensures
        rights.kept(board).has(kind) ==> rights.has(kind),
        rights.kept(board).has(kind) == (rights.has(kind) && kind.undisturbed(board)),
{
}

} // verus!
