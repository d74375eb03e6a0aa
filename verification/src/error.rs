use vstd::prelude::*;

verus! {

/// Error kinds surfaced to the caller.
///
/// The move-legality engine itself reports only `InvalidPiece` (identity
/// outside `[0, 32)`) and `NoMovement` (destination equals the current
/// square); a geometrically or occupancy-wise bad move is not an error but a
/// plain `false`. The remaining kinds belong to the match state layered on
/// top of the engine.
#[derive(Debug, Clone, Copy, PartialEq, Eq, Structural)]
pub enum ChessError {
    /// Origin and destination are the same square.
    NoMovement,
    /// The piece does not move like that.
    IllegalMove,
    /// Invalid creator.
    InvalidCreator,
    /// The acting player is not part of this match or not on turn.
    InvalidPlayer,
    /// The guest player has not joined yet.
    GuestPlayerNotPresent,
    /// A square lies outside the board.
    OutOfBounds,
    /// The destination square is occupied.
    BusyDestination,
    /// The piece identity is outside the classification ranges.
    InvalidPiece,
    /// A guest already joined.
    GuestAlreadyPresent,
    /// The match cannot be closed.
    CannotCloseMatch,
}

} // verus!
