//! Board coordinates and their arithmetic.
use vstd::prelude::*;
use crate::displacement::Displacement;

verus! {

/// A square named by file `x` and rank `y`, both counted from zero. Only
/// coordinates up to 7 lie on the board; any other value is representable and
/// is reported as out of bounds where a square of the board is needed.
#[derive(Clone, Copy, Debug, PartialEq, Eq, Hash, Structural)]
pub struct Position {
    pub x: usize,
    pub y: usize,
}

/// Whether file `x` and rank `y` name a square of the board.
pub open spec fn on_board(x: int, y: int) -> bool {
    0 <= x <= 7 && 0 <= y <= 7
}

/// `c + d` reduced into the range of `usize`, for a `d` that fits in 32 bits.
pub open spec fn wrap_coord(c: int, d: int) -> int {
    let s = c + d;
    if s < 0 {
        s + usize::MAX + 1
    } else if s > usize::MAX {
        s - usize::MAX - 1
    } else {
        s
    }
}

fn shift_coord(c: usize, d: i64) -> (r: usize)
    requires
        i32::MIN <= d <= -(i32::MIN as int),
    ensures
        r == wrap_coord(c as int, d as int),
{
    if d >= 0 {
        let m: usize = d as usize;
        if c <= usize::MAX - m {
            c + m
        } else {
            c - (usize::MAX - m) - 1
        }
    } else {
        let m: usize = (-d) as usize;
        if c >= m {
            c - m
        } else {
            usize::MAX - (m - c) + 1
        }
    }
}

impl Position {
    pub fn new(x: usize, y: usize) -> (r: Position)
        ensures
            r == (Position { x, y }),
    {
        Position { x, y }
    }

    /// Whether this position is a square of the board.
    pub open spec fn in_bounds(self) -> bool {
        self.x <= 7 && self.y <= 7
    }

    /// This position moved by `m`, each coordinate wrapping around the range of `usize`.
    pub open spec fn shifted(self, m: Displacement) -> Position {
        Position {
            x: wrap_coord(self.x as int, m.dx as int) as usize,
            y: wrap_coord(self.y as int, m.dy as int) as usize,
        }
    }

    /// This position moved against `m`, wrapping in the same way.
    pub open spec fn shifted_back(self, m: Displacement) -> Position {
        Position {
            x: wrap_coord(self.x as int, -(m.dx as int)) as usize,
            y: wrap_coord(self.y as int, -(m.dy as int)) as usize,
        }
    }

    /// The square `k` steps of `v` away, where that square is on the board.
    pub open spec fn along(self, v: Displacement, k: int) -> Position {
        Position { x: (self.x + v.dx * k) as usize, y: (self.y + v.dy * k) as usize }
    }

    /// Whether `k` steps of `v` from here end on the board.
    pub open spec fn stays_on_board(self, v: Displacement, k: int) -> bool {
        on_board(self.x + v.dx * k, self.y + v.dy * k)
    }

    /// The home square of the white king.
    pub fn white_king() -> (r: Position)
        ensures
            r == (Position { x: 4, y: 0 }),
    {
        Position { x: 4, y: 0 }
    }

    /// The home square of the black king.
    pub fn black_king() -> (r: Position)
        ensures
            r == (Position { x: 4, y: 7 }),
    {
        Position { x: 4, y: 7 }
    }
}

impl Default for Position {
    /// The square a1.
    fn default() -> (r: Position)
        ensures
            r == (Position { x: 0, y: 0 }),
    {
        Position { x: 0, y: 0 }
    }
}

impl core::ops::Add<Displacement> for Position {
    type Output = Position;

    /// Moves the position by a displacement. A coordinate that would leave the
    /// range of `usize` wraps around, so stepping off the low edge of the board
    /// gives a position that is out of bounds.
    fn add(self, m: Displacement) -> (r: Position) {
        Position { x: shift_coord(self.x, m.dx as i64), y: shift_coord(self.y, m.dy as i64) }
    }
}

impl vstd::std_specs::ops::AddSpecImpl<Displacement> for Position {
    open spec fn obeys_add_spec() -> bool {
        true
    }

    open spec fn add_req(self, rhs: Displacement) -> bool {
        true
    }

    open spec fn add_spec(self, rhs: Displacement) -> Position {
        self.shifted(rhs)
    }
}

impl core::ops::AddAssign<Displacement> for Position {
    /// Moves the position by a displacement in place.
    fn add_assign(&mut self, m: Displacement)
        ensures
            *final(self) == old(self).shifted(m),
    {
        *self = Position { x: shift_coord(self.x, m.dx as i64), y: shift_coord(self.y, m.dy as i64) };
    }
}

impl core::ops::Sub<Displacement> for Position {
    type Output = Position;

    /// Moves the position against a displacement, wrapping like addition.
    fn sub(self, m: Displacement) -> (r: Position) {
        Position { x: shift_coord(self.x, -(m.dx as i64)), y: shift_coord(self.y, -(m.dy as i64)) }
    }
}

impl vstd::std_specs::ops::SubSpecImpl<Displacement> for Position {
    open spec fn obeys_sub_spec() -> bool {
        true
    }

    open spec fn sub_req(self, rhs: Displacement) -> bool {
        true
    }

    open spec fn sub_spec(self, rhs: Displacement) -> Position {
        self.shifted_back(rhs)
    }
}

/// A step that stays on the board is plain addition of coordinates, and a step
/// that leaves the board gives a position out of bounds.
pub proof fn lemma_shift_on_board(p: Position, v: Displacement)
    requires
        p.in_bounds(),
        -8 <= v.dx <= 8,
        -8 <= v.dy <= 8,
    ensures
        p.shifted(v).in_bounds() <==> on_board(p.x + v.dx, p.y + v.dy),
        p.shifted(v).in_bounds() ==> p.shifted(v).x == p.x + v.dx && p.shifted(v).y == p.y + v.dy,
{
}

} // verus!
