use vstd::prelude::*;

verus! {

/// Errors that can occur when placing a piece.
#[derive(Clone, Copy, Debug, PartialEq, Eq, Structural)]
pub enum PlacingError {
    InvalidPosition,
    PlaceAtOccupied,
}

/// Errors that can occur when moving a piece between positions.
#[derive(Clone, Copy, Debug, PartialEq, Eq, Structural)]
pub enum MovingError {
    InvalidMoveFrom,
    InvalidMoveTo,
    MoveToSame,
    MoveFromEmpty,
    MoveFromWrongColor,
    MoveToOccupied,
    NotAdjacent,
}

/// Errors that can occur when removing a piece.
#[derive(Clone, Copy, Debug, PartialEq, Eq, Structural)]
pub enum RemovingError {
    InvalidPosition,
    RemoveFromEmpty,
    RemoveFromWrongColor,
    RemoveFromMill,
}

} // verus!
