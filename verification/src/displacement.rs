//! Signed board displacements and the movement-vector table of each piece kind.
use vstd::prelude::*;
use crate::color::Color;

verus! {

/// A signed step on the board.
#[derive(Clone, Copy, Debug, PartialEq, Eq, Hash, Structural)]
pub struct Displacement {
    pub dx: i32,
    pub dy: i32,
}

/// The four orthogonal directions.
pub open spec fn rook_vectors() -> Seq<Displacement> {
    seq![
        Displacement { dx: 0, dy: 1 },
        Displacement { dx: 0, dy: -1i32 },
        Displacement { dx: 1, dy: 0 },
        Displacement { dx: -1i32, dy: 0 },
    ]
}

/// The four diagonal directions.
pub open spec fn bishop_vectors() -> Seq<Displacement> {
    seq![
        Displacement { dx: 1, dy: 1 },
        Displacement { dx: 1, dy: -1i32 },
        Displacement { dx: -1i32, dy: 1 },
        Displacement { dx: -1i32, dy: -1i32 },
    ]
}

/// The eight knight jumps.
pub open spec fn knight_vectors() -> Seq<Displacement> {
    seq![
        Displacement { dx: 1, dy: 2 },
        Displacement { dx: 2, dy: 1 },
        Displacement { dx: 2, dy: -1i32 },
        Displacement { dx: 1, dy: -2i32 },
        Displacement { dx: -1i32, dy: -2i32 },
        Displacement { dx: -2i32, dy: -1i32 },
        Displacement { dx: -2i32, dy: 1 },
        Displacement { dx: -1i32, dy: 2 },
    ]
}

/// The orthogonal directions followed by the diagonal ones.
pub open spec fn queen_vectors() -> Seq<Displacement> {
    seq![
        Displacement { dx: 0, dy: 1 },
        Displacement { dx: 0, dy: -1i32 },
        Displacement { dx: 1, dy: 0 },
        Displacement { dx: -1i32, dy: 0 },
        Displacement { dx: 1, dy: 1 },
        Displacement { dx: 1, dy: -1i32 },
        Displacement { dx: -1i32, dy: 1 },
        Displacement { dx: -1i32, dy: -1i32 },
    ]
}

/// A king steps in the same eight directions a queen slides in.
pub open spec fn king_vectors() -> Seq<Displacement> {
    queen_vectors()
}

/// The direction in which the pawns of `color` advance.
pub open spec fn pawn_advance(color: Color) -> Displacement {
    match color {
        Color::White => Displacement { dx: 0, dy: 1 },
        Color::Black => Displacement { dx: 0, dy: -1i32 },
    }
}

/// The two diagonal steps on which the pawns of `color` capture.
pub open spec fn pawn_captures(color: Color) -> Seq<Displacement> {
    seq![
        Displacement { dx: 1, dy: pawn_advance(color).dy },
        Displacement { dx: -1i32, dy: pawn_advance(color).dy },
    ]
}

/// Every entry of a piece's vector table moves at most two files and two ranks.
pub open spec fn short_step(v: Displacement) -> bool {
    -2 <= v.dx <= 2 && -2 <= v.dy <= 2
}

impl Displacement {
    pub fn new(dx: i32, dy: i32) -> (r: Displacement)
        ensures
            r == (Displacement { dx, dy }),
    {
        Displacement { dx, dy }
    }

    /// One file towards the h-file.
    pub fn right() -> (r: Displacement)
        ensures
            r == (Displacement { dx: 1, dy: 0 }),
    {
        Displacement { dx: 1, dy: 0 }
    }

    /// One file towards the a-file.
    pub fn left() -> (r: Displacement)
        ensures
            r == (Displacement { dx: -1i32, dy: 0 }),
    {
        Displacement { dx: -1i32, dy: 0 }
    }

    /// This displacement taken `k` times, where both products fit.
    pub fn scaled(self, k: i32) -> (r: Displacement)
        requires
            i32::MIN <= self.dx * k <= i32::MAX,
            i32::MIN <= self.dy * k <= i32::MAX,
        ensures
            r.dx == self.dx * k,
            r.dy == self.dy * k,
    {
        Displacement { dx: self.dx * k, dy: self.dy * k }
    }

    pub fn get_rook_vectors() -> (r: Vec<Displacement>)
        ensures
            r@ == rook_vectors(),
    {
        let r = vec![
            Displacement { dx: 0, dy: 1 },
            Displacement { dx: 0, dy: -1i32 },
            Displacement { dx: 1, dy: 0 },
            Displacement { dx: -1i32, dy: 0 },
        ];
        assert(r@ =~= rook_vectors());
        r
    }

    pub fn get_bishop_vectors() -> (r: Vec<Displacement>)
        ensures
            r@ == bishop_vectors(),
    {
        let r = vec![
            Displacement { dx: 1, dy: 1 },
            Displacement { dx: 1, dy: -1i32 },
            Displacement { dx: -1i32, dy: 1 },
            Displacement { dx: -1i32, dy: -1i32 },
        ];
        assert(r@ =~= bishop_vectors());
        r
    }

    pub fn get_knight_vectors() -> (r: Vec<Displacement>)
        ensures
            r@ == knight_vectors(),
    {
        let r = vec![
            Displacement { dx: 1, dy: 2 },
            Displacement { dx: 2, dy: 1 },
            Displacement { dx: 2, dy: -1i32 },
            Displacement { dx: 1, dy: -2i32 },
            Displacement { dx: -1i32, dy: -2i32 },
            Displacement { dx: -2i32, dy: -1i32 },
            Displacement { dx: -2i32, dy: 1 },
            Displacement { dx: -1i32, dy: 2 },
        ];
        assert(r@ =~= knight_vectors());
        r
    }

    pub fn get_queen_vectors() -> (r: Vec<Displacement>)
        ensures
            r@ == queen_vectors(),
    {
        let r = vec![
            Displacement { dx: 0, dy: 1 },
            Displacement { dx: 0, dy: -1i32 },
            Displacement { dx: 1, dy: 0 },
            Displacement { dx: -1i32, dy: 0 },
            Displacement { dx: 1, dy: 1 },
            Displacement { dx: 1, dy: -1i32 },
            Displacement { dx: -1i32, dy: 1 },
            Displacement { dx: -1i32, dy: -1i32 },
        ];
        assert(r@ =~= queen_vectors());
        r
    }

    pub fn get_king_vectors() -> (r: Vec<Displacement>)
        ensures
            r@ == king_vectors(),
    {
        Displacement::get_queen_vectors()
    }

    pub fn get_pawn_advance_vector(color: Color) -> (r: Displacement)
        ensures
            r == pawn_advance(color),
    {
        match color {
            Color::White => Displacement { dx: 0, dy: 1 },
            Color::Black => Displacement { dx: 0, dy: -1i32 },
        }
    }

    pub fn get_pawn_capture_vectors(color: Color) -> (r: Vec<Displacement>)
        ensures
            r@ == pawn_captures(color),
    {
        let dy: i32 = match color {
            Color::White => 1,
            Color::Black => -1i32,
        };
        let r = vec![Displacement { dx: 1, dy }, Displacement { dx: -1i32, dy }];
        assert(r@ =~= pawn_captures(color));
        r
    }
}

} // verus!
