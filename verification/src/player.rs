use vstd::prelude::*;

verus! {

/// One of the two sides of the game.
#[derive(Debug, Copy, Clone, PartialEq, Eq, Structural)]
pub enum Player {
    Black,
    White,
}

impl Player {
    /// The other side.
    pub open spec fn spec_opponent(self) -> Player {
        match self {
            Player::Black => Player::White,
            Player::White => Player::Black,
        }
    }

    /// The direction (as a change of row index) in which this player's
    /// normal pieces advance: Black toward increasing rows, White toward
    /// decreasing rows.
    pub open spec fn spec_forward_dy(self) -> int {
        match self {
            Player::Black => 1,
            Player::White => -1,
        }
    }

    /// The row on which this player's normal pieces are promoted to kings:
    /// the row farthest from the player's starting edge.
    pub open spec fn spec_far_row(self) -> int {
        match self {
            Player::Black => 7,
            Player::White => 0,
        }
    }

    pub fn opponent(self) -> (r: Player)
        ensures
            r == self.spec_opponent(),
    {
        match self {
            Player::Black => Player::White,
            Player::White => Player::Black,
        }
    }

    pub fn forward_dy(self) -> (r: isize)
        ensures
            r as int == self.spec_forward_dy(),
    {
        match self {
            Player::Black => 1,
            Player::White => -1,
        }
    }

    pub fn far_row(self) -> (r: usize)
        ensures
            r as int == self.spec_far_row(),
    {
        match self {
            Player::Black => 7,
            Player::White => 0,
        }
    }
}

} // verus!
