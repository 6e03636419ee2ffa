use vstd::prelude::*;

verus! {

/// What a room operation reports instead of a result.
#[derive(Debug, Clone, Copy, PartialEq, Eq, Structural)]
pub enum GameError {
    /// No room is registered under the given identifier.
    RoomNotFound,
    /// The shape of a move is empty.
    InvalidShape,
    /// A coordinate of a move lies outside the 3x3 grid.
    InvalidCoordinate,
    /// The subscriber of a board stream stopped draining it.
    StreamClosed,
}

} // verus!
