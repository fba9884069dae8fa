//! The 8x8 grid of squares.
use vstd::prelude::*;
use vstd::array::spec_array_update;
use crate::color::Color;
use crate::piece::Piece;
use crate::position::Position;

verus! {

/// What stands on a square: a piece or nothing.
pub type Square = Option<Piece>;

/// The grid, rank by rank from White's side, each rank from the a-file.
#[derive(Clone, Copy, Debug, PartialEq, Eq, Hash)]
pub struct Board {
    pub squares: [Option<Piece>; 64],
}

/// The piece of `color` that starts the game on file `x` of its back rank.
pub open spec fn back_rank(x: int, color: Color) -> Piece {
    if x == 0 || x == 7 {
        Piece::Rook(color)
    } else if x == 1 || x == 6 {
        Piece::Knight(color)
    } else if x == 2 || x == 5 {
        Piece::Bishop(color)
    } else if x == 3 {
        Piece::Queen(color)
    } else {
        Piece::King(color)
    }
}

/// What stands on a square at the start of a game.
pub open spec fn initial_square(p: Position) -> Square {
    if !p.in_bounds() {
        None
    } else if p.y == 0 {
        Some(back_rank(p.x as int, Color::White))
    } else if p.y == 1 {
        Some(Piece::Pawn(Color::White))
    } else if p.y == 6 {
        Some(Piece::Pawn(Color::Black))
    } else if p.y == 7 {
        Some(back_rank(p.x as int, Color::Black))
    } else {
        None
    }
}

fn back_rank_piece(x: usize, color: Color) -> (r: Piece)
    ensures
        r == back_rank(x as int, color),
{
    if x == 0 || x == 7 {
        Piece::Rook(color)
    } else if x == 1 || x == 6 {
        Piece::Knight(color)
    } else if x == 2 || x == 5 {
        Piece::Bishop(color)
    } else if x == 3 {
        Piece::Queen(color)
    } else {
        Piece::King(color)
    }
}

impl Board {
    /// What stands at `p`; nothing stands outside the board.
    pub open spec fn at(self, p: Position) -> Square {
        if p.in_bounds() {
            self.squares[p.y * 8 + p.x]
        } else {
            None
        }
    }

    /// The board with the square at `p` replaced by `s`.
    pub open spec fn with(self, p: Position, s: Square) -> Board {
        Board { squares: spec_array_update(self.squares, p.y * 8 + p.x, s) }
    }

    /// Whether a piece of `color` stands at `p`.
    pub open spec fn owned_by(self, p: Position, color: Color) -> bool {
        self.at(p) is Some && self.at(p).unwrap().owner() == color
    }

    /// Replacing one square changes that square and no other.
    pub proof fn lemma_with(self, p: Position, s: Square)
        requires
            p.in_bounds(),
        ensures
            forall|q: Position| #[trigger]
                self.with(p, s).at(q) == if q == p {
                    s
                } else {
                    self.at(q)
                },
    {
        broadcast use vstd::array::group_array_axioms;

        let b = self.with(p, s);
        assert forall|q: Position| #[trigger] b.at(q) == if q == p {
            s
        } else {
            self.at(q)
        } by {
            if q.in_bounds() {
                assert(b.squares@ == self.squares@.update(p.y * 8 + p.x, s));
                assert(b.squares[q.y * 8 + q.x] == b.squares@[q.y * 8 + q.x]);
                assert(self.squares[q.y * 8 + q.x] == self.squares@[q.y * 8 + q.x]);
            }
        }
    }

    /// Whether two boards hold the same on every square.
    pub fn same_as(&self, other: &Board) -> (r: bool)
        ensures
            r == (*self == *other),
    {
        broadcast use vstd::array::group_array_axioms;

        let mut i: usize = 0;
        while i < 64
            invariant
                i <= 64,
                forall|j: int| 0 <= j < i ==> self.squares[j] == other.squares[j],
            decreases 64 - i,
        {
            if self.squares[i] != other.squares[i] {
                return false;
            }
            i += 1;
        }
        assert(self.squares =~= other.squares);
        true
    }

    /// A board with no piece on it.
    pub fn new() -> (r: Board)
        ensures
            forall|q: Position| #[trigger] r.at(q) is None,
    {
        broadcast use vstd::array::group_array_axioms;

        let none: Option<Piece> = None;
        let r = Board { squares: [none; 64] };
        assert forall|q: Position| #[trigger] r.at(q) is None by {
            if q.in_bounds() {
                assert(r.squares[q.y * 8 + q.x] == r.squares@[q.y * 8 + q.x]);
            }
        }
        r
    }

    /// Returns what stands at `at`, and nothing for a position off the board.
    pub fn get_piece(&self, at: &Position) -> (r: Square)
        ensures
            r == self.at(*at),
    {
        if at.x > 7 || at.y > 7 {
            None
        } else {
            self.squares[at.y * 8 + at.x]
        }
    }

    /// Replaces what stands at `at`.
    pub fn set_piece(&mut self, at: &Position, square: Square)
        requires
            at.in_bounds(),
        ensures
            *final(self) == old(self).with(*at, square),
    {
        broadcast use vstd::array::group_array_axioms;

        self.squares[at.y * 8 + at.x] = square;
        assert(self.squares =~= old(self).with(*at, square).squares);
    }

    /// Removes and returns what stands at `at`.
    pub fn take_piece(&mut self, at: &Position) -> (r: Square)
        requires
            at.in_bounds(),
        ensures
            r == old(self).at(*at),
            *final(self) == old(self).with(*at, None),
    {
        let r = self.get_piece(at);
        self.set_piece(at, None);
        r
    }
}

impl Default for Board {
    /// The starting position.
    fn default() -> (r: Board)
        ensures
            forall|q: Position| #[trigger] r.at(q) == initial_square(q),
    {
        let mut board = Board::new();
        let mut x: usize = 0;
        while x < 8
            invariant
                x <= 8,
                forall|q: Position|
                    #[trigger] board.at(q) == if q.x < x {
                        initial_square(q)
                    } else {
                        None
                    },
            decreases 8 - x,
        {
            let ghost b0 = board;
            board.set_piece(&Position::new(x, 0), Some(back_rank_piece(x, Color::White)));
            let ghost b1 = board;
            board.set_piece(&Position::new(x, 1), Some(Piece::Pawn(Color::White)));
            let ghost b2 = board;
            board.set_piece(&Position::new(x, 6), Some(Piece::Pawn(Color::Black)));
            let ghost b3 = board;
            board.set_piece(&Position::new(x, 7), Some(back_rank_piece(x, Color::Black)));
            proof {
                b0.lemma_with(Position { x, y: 0 }, Some(back_rank(x as int, Color::White)));
                b1.lemma_with(Position { x, y: 1 }, Some(Piece::Pawn(Color::White)));
                b2.lemma_with(Position { x, y: 6 }, Some(Piece::Pawn(Color::Black)));
                b3.lemma_with(Position { x, y: 7 }, Some(back_rank(x as int, Color::Black)));
            }
            x += 1;
        }
        board
    }
}

} // verus!
