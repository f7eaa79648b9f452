use vstd::prelude::*;

verus! {

/// One cell of the dungeon grid.
#[derive(Clone, Copy, Debug, PartialEq, Eq, Structural)]
pub struct Tile {
    /// Entities cannot step onto the tile.
    pub blocked: bool,
    /// The tile is opaque to sight.
    pub block_sight: bool,
    /// The tile has been visible to the player at some point.
    pub explored: bool,
}

impl Tile {
    /// The unexplored floor tile, for use in specifications.
    pub open spec fn spec_empty() -> Tile {
        Tile { blocked: false, block_sight: false, explored: false }
    }

    /// A passable, transparent tile that has never been seen.
    #[verifier::when_used_as_spec(spec_empty)]
    pub fn empty() -> (t: Tile)
        ensures
            t == (Tile { blocked: false, block_sight: false, explored: false }),
    {
        Tile { blocked: false, block_sight: false, explored: false }
    }

    /// The unexplored wall tile, for use in specifications.
    pub open spec fn spec_wall() -> Tile {
        Tile { blocked: true, block_sight: true, explored: false }
    }

    /// An impassable, opaque tile that has never been seen.
    #[verifier::when_used_as_spec(spec_wall)]
    pub fn wall() -> (t: Tile)
        ensures
            t == (Tile { blocked: true, block_sight: true, explored: false }),
    {
        Tile { blocked: true, block_sight: true, explored: false }
    }

    /// The tile turned into floor; what the player remembers of it stays.
    pub open spec fn opened(self) -> Tile {
        Tile { blocked: false, block_sight: false, explored: self.explored }
    }

    /// The tile once the player has seen it.
    pub open spec fn noticed(self) -> Tile {
        Tile { blocked: self.blocked, block_sight: self.block_sight, explored: true }
    }
}

} // verus!
