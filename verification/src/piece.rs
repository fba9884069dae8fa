//! Piece identity, ownership and movement tables.
use vstd::prelude::*;
use crate::color::Color;
use crate::displacement::{
    bishop_vectors, king_vectors, knight_vectors, queen_vectors, rook_vectors, short_step,
    Displacement,
};

verus! {

/// A chess piece together with the side that owns it.
#[derive(Clone, Copy, Debug, PartialEq, Eq, Hash, Structural)]
pub enum Piece {
    Pawn(Color),
    Knight(Color),
    Bishop(Color),
    Rook(Color),
    Queen(Color),
    King(Color),
}

impl Piece {
    /// The side that owns the piece.
    pub open spec fn owner(self) -> Color {
        match self {
            Piece::Pawn(c) => c,
            Piece::Knight(c) => c,
            Piece::Bishop(c) => c,
            Piece::Rook(c) => c,
            Piece::Queen(c) => c,
            Piece::King(c) => c,
        }
    }

    /// Whether the piece moves any distance along its vectors.
    pub open spec fn slides(self) -> bool {
        self is Bishop || self is Rook || self is Queen
    }

    /// The directions in which the piece moves; a pawn has none here, its
    /// moves depend on its side and on what it meets.
    pub open spec fn vectors(self) -> Seq<Displacement> {
        match self {
            Piece::Pawn(_) => Seq::empty(),
            Piece::Rook(_) => rook_vectors(),
            Piece::Bishop(_) => bishop_vectors(),
            Piece::Knight(_) => knight_vectors(),
            Piece::Queen(_) => queen_vectors(),
            Piece::King(_) => king_vectors(),
        }
    }

    pub fn is_pawn(self) -> (r: bool)
        ensures
            r == (self is Pawn),
    {
        match self {
            Piece::Pawn(_) => true,
            _ => false,
        }
    }

    pub fn is_king(self) -> (r: bool)
        ensures
            r == (self is King),
    {
        match self {
            Piece::King(_) => true,
            _ => false,
        }
    }

    pub fn get_player(self) -> (r: Color)
        ensures
            r == self.owner(),
    {
        match self {
            Piece::Pawn(player)
            | Piece::Knight(player)
            | Piece::Bishop(player)
            | Piece::Rook(player)
            | Piece::Queen(player)
            | Piece::King(player) => player,
        }
    }

    /// The movement table of the piece's kind. Every entry is a short step,
    /// and the table has at most eight entries.
    pub fn get_vectors(self) -> (r: Vec<Displacement>)
        ensures
            r@ == self.vectors(),
            r@.len() <= 8,
            forall|j: int| 0 <= j < r@.len() ==> short_step(#[trigger] r@[j]),
    {
        match self {
            Piece::Pawn(_) => Vec::new(),
            Piece::Rook(_) => Displacement::get_rook_vectors(),
            Piece::Bishop(_) => Displacement::get_bishop_vectors(),
            Piece::Knight(_) => Displacement::get_knight_vectors(),
            Piece::Queen(_) => Displacement::get_queen_vectors(),
            Piece::King(_) => Displacement::get_king_vectors(),
        }
    }

    pub fn can_snipe(self) -> (r: bool)
        ensures
            r == self.slides(),
    {
        match self {
            Piece::Bishop(_) | Piece::Rook(_) | Piece::Queen(_) => true,
            _ => false,
        }
    }

    /// The figurine that stands for the piece in move text.
    pub open spec fn glyph(self) -> Seq<char> {
        match self {
            Piece::Pawn(Color::White) => "♟"@,
            Piece::Knight(Color::White) => "♞"@,
            Piece::Bishop(Color::White) => "♝"@,
            Piece::Rook(Color::White) => "♜"@,
            Piece::Queen(Color::White) => "♛"@,
            Piece::King(Color::White) => "♚"@,
            Piece::Pawn(Color::Black) => "♙"@,
            Piece::Knight(Color::Black) => "♘"@,
            Piece::Bishop(Color::Black) => "♗"@,
            Piece::Rook(Color::Black) => "♖"@,
            Piece::Queen(Color::Black) => "♕"@,
            Piece::King(Color::Black) => "♔"@,
        }
    }

    /// Returns the figurine of the piece.
    pub fn symbol(self) -> (r: &'static str)
        ensures
            r@ == self.glyph(),
    {
        match self {
            Piece::Pawn(Color::White) => "♟",
            Piece::Knight(Color::White) => "♞",
            Piece::Bishop(Color::White) => "♝",
            Piece::Rook(Color::White) => "♜",
            Piece::Queen(Color::White) => "♛",
            Piece::King(Color::White) => "♚",
            Piece::Pawn(Color::Black) => "♙",
            Piece::Knight(Color::Black) => "♘",
            Piece::Bishop(Color::Black) => "♗",
            Piece::Rook(Color::Black) => "♖",
            Piece::Queen(Color::Black) => "♕",
            Piece::King(Color::Black) => "♔",
        }
    }
}

} // verus!
