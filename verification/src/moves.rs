//! A move as a pair of squares.
use vstd::prelude::*;
use crate::piece::Piece;
use crate::position::Position;
use crate::text::{push_char, push_text};

verus! {

/// A move from one square to another. A pawn that reaches the far rank
/// becomes a queen, so no promotion piece is carried.
#[derive(Clone, Copy, Debug, PartialEq, Eq, Hash, Structural)]
pub struct Move {
    pub from: Position,
    pub to: Position,
}

/// The coordinate that a character stands for, counted from `base`.
pub open spec fn coordinate(c: char, base: char) -> usize {
    (c as u32 - base as u32) as usize
}

/// The move that coordinate text names: the first four characters are the
/// file and rank of the source and of the destination, files from `a` and
/// ranks from `1`. Text of fewer than four characters, or with a character
/// before `a` or `1` in its place, names no move; what follows the fourth
/// character is not read.
pub open spec fn lan_move(s: Seq<char>) -> Option<Move> {
    if s.len() >= 4 && s[0] >= 'a' && s[1] >= '1' && s[2] >= 'a' && s[3] >= '1' {
        Some(
            Move {
                from: Position { x: coordinate(s[0], 'a'), y: coordinate(s[1], '1') },
                to: Position { x: coordinate(s[2], 'a'), y: coordinate(s[3], '1') },
            },
        )
    } else {
        None
    }
}

/// The letter of file `x` of the board.
pub open spec fn file_letter(x: usize) -> char {
    ((97 + x) as u8) as char
}

/// The digit of rank `y` of the board.
pub open spec fn rank_digit(y: usize) -> char {
    ((49 + y) as u8) as char
}

/// The name of a square of the board, such as `e4`; a position off the board is written `??`.
pub open spec fn square_name(p: Position) -> Seq<char> {
    if p.in_bounds() {
        seq![file_letter(p.x), rank_digit(p.y)]
    } else {
        seq!['?', '?']
    }
}

fn decode(c: char, base: char) -> (r: Option<usize>)
    ensures
        r == (if c >= base {
            Some(coordinate(c, base))
        } else {
            None
        }),
{
    if c >= base {
        Some((c as u32 - base as u32) as usize)
    } else {
        None
    }
}

fn push_square(text: &mut String, p: Position)
    ensures
        final(text)@ == old(text)@ + square_name(p),
{
    if p.x <= 7 && p.y <= 7 {
        let file: u8 = 97 + p.x as u8;
        let rank: u8 = 49 + p.y as u8;
        push_char(text, file as char);
        push_char(text, rank as char);
    } else {
        push_char(text, '?');
        push_char(text, '?');
    }
    assert(text@ =~= old(text)@ + square_name(p));
}

impl Move {
    /// Reads a move from coordinate text such as `e2e4`.
    pub fn from_lan(lan: &str) -> (r: Option<Move>)
        ensures
            r == lan_move(lan@),
    {
        if lan.unicode_len() < 4 {
            return None;
        }
        let fx = decode(lan.get_char(0), 'a');
        let fy = decode(lan.get_char(1), '1');
        let tx = decode(lan.get_char(2), 'a');
        let ty = decode(lan.get_char(3), '1');
        match (fx, fy, tx, ty) {
            (Some(fx), Some(fy), Some(tx), Some(ty)) => Some(
                Move::new(Position::new(fx, fy), Position::new(tx, ty)),
            ),
            _ => None,
        }
    }

    /// The text of the move for display: the figurine of `piece` and the name
    /// of the destination.
    pub fn to_str(&self, piece: Piece) -> (r: String)
        ensures
            r@ == piece.glyph() + square_name(self.to),
    {
        let mut text = String::new();
        push_text(&mut text, piece.symbol());
        push_square(&mut text, self.to);
        text
    }

    /// The move as source and destination, such as `e2 -> e4`.
    pub fn to_string(&self) -> (r: String)
        ensures
            r@ == square_name(self.from) + " -> "@ + square_name(self.to),
    {
        let mut text = String::new();
        push_square(&mut text, self.from);
        push_text(&mut text, " -> ");
        push_square(&mut text, self.to);
        text
    }

    pub fn new(from: Position, to: Position) -> (r: Move)
        ensures
            r == (Move { from, to }),
    {
        Move { from, to }
    }

    pub fn get_positions(&self) -> (r: [Position; 2])
        ensures
            r@ == seq![self.from, self.to],
    {
        let r = [self.from, self.to];
        assert(r@ =~= seq![self.from, self.to]);
        r
    }
}

impl Default for Move {
    /// The move from a1 to a1.
    fn default() -> (r: Move)
        ensures
            r == (Move { from: Position { x: 0, y: 0 }, to: Position { x: 0, y: 0 } }),
    {
        Move { from: Position::default(), to: Position::default() }
    }
}

} // verus!
