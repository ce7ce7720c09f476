use crate::player::Player;
use vstd::prelude::*;

verus! {

/// Every way a request against the engine can fail. No variant is fatal:
/// the caller keeps the board it had and may retry with another move.
#[derive(Debug, Copy, Clone, PartialEq, Eq, Structural)]
pub enum MoveError {
    /// A move was requested although one side already has no pieces left.
    GameAlreadyOver { winner: Player },
    /// The move's origin and destination are the same cell.
    DegenerateMove,
    /// The origin cell is held by the side that is not to move.
    WrongPlayersPiece,
    /// The move does not follow a diagonal.
    NotDiagonal,
    /// A normal piece was asked to move more than one cell.
    TooFar,
    /// A normal piece was asked to move against its forward direction.
    MovedBackwards,
    /// A king's path crosses a cell held by its own side.
    BlockedByFriendly,
    /// The cell behind a piece to be jumped is not free.
    LandingOccupied,
    /// The destination already holds the mover's own piece.
    AlreadyOccupiedBySelf,
    /// An index or coordinate pair does not name a cell of the board.
    PositionOutOfRange,
    /// The owner of an empty cell was asked for.
    UnoccupiedTile,
}

} // verus!
