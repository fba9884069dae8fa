//! Who plays a side.
use vstd::prelude::*;
use crate::color::Color;

verus! {

/// How a side's moves come in.
#[derive(Clone, Copy, Debug, PartialEq, Eq, Structural)]
pub enum PlayerKind {
    Local,
    Remote,
    Bot,
}

impl Default for PlayerKind {
    fn default() -> (r: PlayerKind)
        ensures
            r == PlayerKind::Local,
    {
        PlayerKind::Local
    }
}

/// One of the two players.
#[derive(Clone, Debug, PartialEq, Eq)]
pub struct Player {
    pub kind: PlayerKind,
    pub color: Color,
    pub name: String,
}

impl Player {
    /// A local player of `color` without a name.
    pub fn with_color(color: Color) -> (r: Player)
        ensures
            r.color == color,
            r.kind == PlayerKind::Local,
            r.name@ == Seq::<char>::empty(),
    {
        Player { kind: PlayerKind::Local, color, name: String::new() }
    }
}

impl Default for Player {
    /// A local player of White without a name.
    fn default() -> (r: Player)
        ensures
            r.color == Color::White,
            r.kind == PlayerKind::Local,
            r.name@ == Seq::<char>::empty(),
    {
        Player::with_color(Color::White)
    }
}

} // verus!
