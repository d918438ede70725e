//! A single cell of the board: what it holds and how much of it the player sees.

use vstd::prelude::*;

verus! {

/// Sprite index that shows a tile whose content is still hidden.
pub const HIDDEN_INDEX: usize = 9;

/// Sprite index that shows a flagged tile.
pub const FLAGGED_INDEX: usize = 10;

/// Sprite index that shows a bomb.
pub const BOMB_INDEX: usize = 11;

/// A tile can either be empty with some amount of neighboring bombs, or a bomb itself.
#[derive(Clone, Copy, Debug, PartialEq, Eq, Structural)]
pub enum TileType {
    Empty(u8),
    Bomb,
}

/// While the game is played, the tile can show its contents, or be flagged, or not show anything.
#[derive(Clone, Copy, Debug, PartialEq, Eq, Structural)]
pub enum TileState {
    Visable,
    Flagged,
    Hidden,
}

/// A struct that stores a tile's type and its state.
#[derive(Clone, Copy, Debug, PartialEq, Eq, Structural)]
pub struct Tile {
    pub tile_type: TileType,
    pub state: TileState,
}

impl TileType {
    /// The sprite index that shows this content: the neighbor count of an
    /// empty tile, [`BOMB_INDEX`] for a bomb.
    pub open spec fn spec_display_index(self) -> usize {
        match self {
            TileType::Empty(count) => count as usize,
            TileType::Bomb => BOMB_INDEX,
        }
    }

    /// Returns the sprite index that shows this content.
    #[verifier::when_used_as_spec(spec_display_index)]
    pub fn display_index(self) -> (index: usize)
        ensures
            index == self.spec_display_index(),
    {
        match self {
            TileType::Empty(count) => count as usize,
            TileType::Bomb => BOMB_INDEX,
        }
    }
}

impl TileState {
    /// The state after one press of the flag button: `Hidden` and `Flagged`
    /// swap, `Visable` stays.
    pub open spec fn spec_toggled(self) -> TileState {
        match self {
            TileState::Hidden => TileState::Flagged,
            TileState::Flagged => TileState::Hidden,
            TileState::Visable => TileState::Visable,
        }
    }

    /// Returns the state after one press of the flag button.
    #[verifier::when_used_as_spec(spec_toggled)]
    pub fn toggled(self) -> (next: TileState)
        ensures
            next == self.spec_toggled(),
    {
        match self {
            TileState::Hidden => TileState::Flagged,
            TileState::Flagged => TileState::Hidden,
            TileState::Visable => TileState::Visable,
        }
    }

    /// The state after one press of the reveal button: `Hidden` becomes
    /// `Visable`, the other two stay.
    pub open spec fn spec_revealed(self) -> TileState {
        match self {
            TileState::Hidden => TileState::Visable,
            TileState::Flagged => TileState::Flagged,
            TileState::Visable => TileState::Visable,
        }
    }

    /// Returns the state after one press of the reveal button.
    #[verifier::when_used_as_spec(spec_revealed)]
    pub fn revealed(self) -> (next: TileState)
        ensures
            next == self.spec_revealed(),
    {
        match self {
            TileState::Hidden => TileState::Visable,
            TileState::Flagged => TileState::Flagged,
            TileState::Visable => TileState::Visable,
        }
    }
}

impl Tile {
    /// The tile every board starts from: empty, no bombs around it, hidden.
    pub open spec fn spec_default() -> Tile {
        Tile { tile_type: TileType::Empty(0), state: TileState::Hidden }
    }

    /// Whether the tile is a bomb.
    pub open spec fn spec_is_bomb(&self) -> bool {
        self.tile_type is Bomb
    }

    /// Returns true if the tile is a bomb.
    #[verifier::when_used_as_spec(spec_is_bomb)]
    pub fn is_bomb(&self) -> (bomb: bool)
        ensures
            bomb == self.spec_is_bomb(),
    {
        match self.tile_type {
            TileType::Bomb => true,
            TileType::Empty(_) => false,
        }
    }

    /// Returns a reference to the tile's type.
    pub fn get_type(&self) -> (tile_type: &TileType)
        ensures
            *tile_type == self.tile_type,
    {
        &self.tile_type
    }

    /// The sprite index to switch to when the reveal button is pressed on
    /// the tile: the one of its content for a hidden tile, none for a tile
    /// that does not change.
    pub open spec fn reveal_index(&self) -> Option<usize> {
        match self.state {
            TileState::Hidden => Some(self.tile_type.spec_display_index()),
            _ => None,
        }
    }

    /// The sprite index to switch to when the flag button is pressed on the
    /// tile: the flagged marker for a hidden tile, the hidden marker for a
    /// flagged one, none for a tile that does not change.
    pub open spec fn flag_index(&self) -> Option<usize> {
        match self.state {
            TileState::Hidden => Some(FLAGGED_INDEX),
            TileState::Flagged => Some(HIDDEN_INDEX),
            TileState::Visable => None,
        }
    }

    /// The sprite index under which the tile is drawn: its content once it is
    /// visible, the hidden or flagged marker before that.
    pub open spec fn spec_display_index(&self) -> usize {
        match self.state {
            TileState::Visable => self.tile_type.spec_display_index(),
            TileState::Flagged => FLAGGED_INDEX,
            TileState::Hidden => HIDDEN_INDEX,
        }
    }

    /// Returns the sprite index under which the tile is drawn.
    #[verifier::when_used_as_spec(spec_display_index)]
    pub fn display_index(&self) -> (index: usize)
        ensures
            index == self.spec_display_index(),
    {
        match self.state {
            TileState::Visable => self.tile_type.display_index(),
            TileState::Flagged => FLAGGED_INDEX,
            TileState::Hidden => HIDDEN_INDEX,
        }
    }
}

impl Default for Tile {
    fn default() -> (tile: Tile)
        ensures
            tile == Tile::spec_default(),
    {
        Tile { tile_type: TileType::Empty(0), state: TileState::Hidden }
    }
}

} // verus!
