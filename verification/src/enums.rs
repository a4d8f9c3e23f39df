use vstd::prelude::*;

verus! {

/// Player colors.
#[derive(PartialEq, Eq, Clone, Copy, Debug, Structural)]
pub enum Color {
    White,
    Black,
}

impl Color {
    /// The opposing color.
    pub open spec fn spec_other(self) -> Color {
        match self {
            Color::White => Color::Black,
            Color::Black => Color::White,
        }
    }

    pub fn other(&self) -> (r: Color)
        ensures
            r == self.spec_other(),
    {
        match self {
            Color::White => Color::Black,
            Color::Black => Color::White,
        }
    }
}

/// The two main phases of the game: placing pieces (until each player has
/// placed all 9 of theirs) and moving the already placed pieces.
#[derive(PartialEq, Eq, Clone, Copy, Debug, Structural)]
pub enum Phase {
    Placing,
    Moving,
}

/// The state of a position on the board.
#[derive(PartialEq, Eq, Clone, Copy, Debug, Structural)]
pub enum State {
    Empty,
    Occupied(Color),
}

/// One of the four directions on the board.
#[derive(PartialEq, Eq, Clone, Copy, Debug, Structural)]
pub enum Direction {
    Above,
    Left,
    Right,
    Below,
}

} // verus!
