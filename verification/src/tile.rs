use crate::error::MoveError;
use crate::player::Player;
use vstd::prelude::*;

verus! {

/// Whether a piece is still a normal piece or has been promoted to a king.
#[derive(Debug, Copy, Clone, PartialEq, Eq, Structural)]
pub enum TileKind {
    Normal,
    King,
}

/// One cell of the board: its occupant, if any, and the kind of the piece
/// standing on it. Cells are permanent; only their content changes.
///
/// An empty tile is expected to be of `Normal` kind: `leave` both clears
/// the occupant and demotes, so a vacated king square carries no residual
/// king-ness. `wf` states that shape.
#[derive(Debug, Copy, Clone, PartialEq, Eq)]
pub struct Tile {
    pub occupied_by: Option<Player>,
    pub kind: TileKind,
}

impl Tile {
    /// A king marking is only meaningful on an occupied tile.
    pub open spec fn wf(self) -> bool {
        self.occupied_by is None ==> self.kind == TileKind::Normal
    }

    pub open spec fn spec_empty() -> Tile {
        Tile { occupied_by: None, kind: TileKind::Normal }
    }

    pub open spec fn spec_is_owned_by(self, player: Player) -> bool {
        self.occupied_by == Some(player)
    }

    pub fn empty() -> (r: Self)
        ensures
            r == Tile::spec_empty(),
    {
        Self { occupied_by: None, kind: TileKind::Normal }
    }

    pub fn occupied(player: Player) -> (r: Self)
        ensures
            r == (Tile { occupied_by: Some(player), kind: TileKind::Normal }),
    {
        Self { occupied_by: Some(player), kind: TileKind::Normal }
    }

    /// Sets the occupant and leaves the kind as it was.
    pub fn take_ownership(&mut self, player: Player)
        ensures
            *final(self) == (Tile { occupied_by: Some(player), kind: old(self).kind }),
    {
        self.occupied_by = Some(player);
    }

    pub fn promote(&mut self)
        ensures
            *final(self) == (Tile { occupied_by: old(self).occupied_by, kind: TileKind::King }),
    {
        self.kind = TileKind::King;
    }

    pub fn demote(&mut self)
        ensures
            *final(self) == (Tile { occupied_by: old(self).occupied_by, kind: TileKind::Normal }),
    {
        self.kind = TileKind::Normal;
    }

    /// Clears the occupant and demotes: a vacated cell is an empty, normal
    /// cell, whatever stood on it before.
    pub fn leave(&mut self)
        ensures
            *final(self) == Tile::spec_empty(),
    {
        self.occupied_by = None;
        self.kind = TileKind::Normal;
    }

    pub fn is_occupied_by(&self, player: Player) -> (r: bool)
        ensures
            r == self.spec_is_owned_by(player),
    {
        match self.occupied_by {
            Some(p) => p == player,
            None => false,
        }
    }

    pub fn get_owner(&self) -> (r: Result<Player, MoveError>)
        ensures
            match r {
                Ok(p) => self.occupied_by == Some(p),
                Err(e) => self.occupied_by is None && e == MoveError::UnoccupiedTile,
            },
    {
        match self.occupied_by {
            Some(p) => Ok(p),
            None => Err(MoveError::UnoccupiedTile),
        }
    }

    pub fn is_empty(&self) -> (r: bool)
        ensures
            r == (self.occupied_by is None),
    {
        self.occupied_by.is_none()
    }

    pub fn kind(&self) -> (r: TileKind)
        ensures
            r == self.kind,
    {
        self.kind
    }
}

} // verus!
