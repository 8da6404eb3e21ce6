//! The cells of a board.
//!
//! A cell of an inner board is a tile that a player may take; a cell of the
//! outer board is an inner board. Both have an outcome, and a board derives
//! its own outcome from the outcomes of its nine cells.

use crate::board::PlaceSymbolError;
use crate::player::PlayerSymbol;
use crate::pos::TilePos;
use crate::state::TileBoardState;
use vstd::prelude::*;

verus! {

/// What a board needs of its cells: each has an outcome.
pub trait TileTrait: Sized {
    /// The cell is consistent in itself.
    spec fn tile_wf(&self) -> bool;

    /// The outcome of the cell.
    spec fn spec_tile_state(&self) -> TileBoardState;

    /// The outcome of the cell.
    fn tile_state(&self) -> (r: TileBoardState)
        ensures
            r == self.spec_tile_state(),
    ;
}

/// A tile of an inner board: free, or taken by a player.
#[derive(Debug, Clone, Copy, PartialEq, Eq, Hash, Structural)]
pub enum TrivialTileState {
    Free,
    Won(PlayerSymbol),
}

impl TrivialTileState {
    pub open spec fn spec_is_free(self) -> bool {
        self is Free
    }

    pub open spec fn spec_is_won(self) -> bool {
        self is Won
    }

    /// The character a tile is written as: `_` for a free tile, else the
    /// character of the player.
    pub open spec fn spec_as_char(self) -> char {
        match self {
            Self::Free => '_',
            Self::Won(p) => p.spec_as_char(),
        }
    }

    /// The tile a character stands for, if any.
    pub open spec fn spec_from_char(c: char) -> Option<Self> {
        if c == '_' {
            Some(Self::Free)
        } else {
            match PlayerSymbol::spec_from_char(c) {
                Some(p) => Some(Self::Won(p)),
                None => None,
            }
        }
    }

    /// The outcome of the tile: free, or won by the player who took it.
    pub open spec fn spec_state(self) -> TileBoardState {
        match self {
            Self::Free => TileBoardState::Free,
            Self::Won(p) => TileBoardState::Won(p),
        }
    }

    /// A tile read back from its own character is the same tile.
    pub proof fn lemma_char_round_trip(self)
        ensures
            Self::spec_from_char(self.spec_as_char()) == Some(self),
    {
    }

    #[verifier::when_used_as_spec(spec_is_free)]
    pub fn is_free(self) -> (r: bool)
        ensures
            r == self.spec_is_free(),
    {
        matches!(self, Self::Free)
    }

    #[verifier::when_used_as_spec(spec_is_won)]
    pub fn is_won(self) -> (r: bool)
        ensures
            r == self.spec_is_won(),
    {
        matches!(self, Self::Won(_))
    }

    /// The character a tile is written as.
    #[verifier::when_used_as_spec(spec_as_char)]
    pub fn as_char(self) -> (r: char)
        ensures
            r == self.spec_as_char(),
    {
        match self {
            Self::Free => '_',
            Self::Won(p) => p.as_char(),
        }
    }

    /// Takes the tile for `symbol` if it is free, and leaves it as it is if
    /// it is taken already.
    pub fn try_place_symbol_in_tile(&mut self, symbol: PlayerSymbol) -> (r: Result<
        (),
        PlaceSymbolError,
    >)
        ensures
            *old(self) is Free ==> r is Ok && *final(self) == Self::Won(symbol),
            *old(self) is Won ==> r == Err::<(), PlaceSymbolError>(
                PlaceSymbolError::TrivialTileNotFree,
            ) && *final(self) == *old(self),
    {
        if self.is_free() {
            *self = TrivialTileState::Won(symbol);
            Ok(())
        } else {
            Err(PlaceSymbolError::TrivialTileNotFree)
        }
    }

    /// Reads a tile from the character it is written as.
    #[verifier::when_used_as_spec(spec_from_char)]
    pub fn from_char(c: char) -> (r: Option<Self>)
        ensures
            r == Self::spec_from_char(c),
    {
        match c {
            '_' => Some(Self::Free),
            _ => match PlayerSymbol::from_char(c) {
                Some(p) => Some(Self::Won(p)),
                None => None,
            },
        }
    }
}

impl TileTrait for TrivialTileState {
    open spec fn tile_wf(&self) -> bool {
        true
    }

    open spec fn spec_tile_state(&self) -> TileBoardState {
        self.spec_state()
    }

    fn tile_state(&self) -> (r: TileBoardState) {
        match self {
            Self::Free => TileBoardState::Free,
            Self::Won(p) => TileBoardState::Won(*p),
        }
    }
}

impl Default for TrivialTileState {
    fn default() -> (r: Self)
        ensures
            r == Self::Free,
    {
        Self::Free
    }
}

impl From<TrivialTileState> for TileBoardState {
    fn from(tile: TrivialTileState) -> (r: Self) {
        tile.tile_state()
    }
}

impl vstd::std_specs::convert::FromSpecImpl<TrivialTileState> for TileBoardState {
    open spec fn obeys_from_spec() -> bool {
        true
    }

    open spec fn from_spec(tile: TrivialTileState) -> Self {
        tile.spec_state()
    }
}

/// The nine cells of a board, found by position.
#[derive(Debug)]
pub struct TileStates<T>(pub(crate) [T; 9]);

impl<T> View for TileStates<T> {
    type V = Seq<T>;

    /// The nine cells by row-major index.
    closed spec fn view(&self) -> Seq<T> {
        self.0@
    }
}

impl<T> TileStates<T> {
    /// There are nine cells.
    pub proof fn lemma_len(&self)
        ensures
            self@.len() == 9,
    {
    }

    /// Two sets of cells that agree cell by cell are the same.
    pub proof fn lemma_same_cells(&self, other: &Self)
        requires
            self@ == other@,
        ensures
            *self == *other,
    {
        assert(self.0 =~= other.0);
    }

    /// The cells in row-major order.
    pub fn new(tiles: [T; 9]) -> (r: Self)
        ensures
            r@ == tiles@,
    {
        TileStates(tiles)
    }

    /// The cell at `pos`.
    pub fn get(&self, pos: TilePos) -> (r: &T)
        ensures
            *r == self@[pos.spec_linear_idx() as int],
    {
        &self.0[pos.linear_idx()]
    }

    /// The cell at `pos`, to be changed in place.
    pub fn get_mut(&mut self, pos: TilePos) -> (r: &mut T)
        ensures
            *r == old(self)@[pos.spec_linear_idx() as int],
            final(self)@ == old(self)@.update(pos.spec_linear_idx() as int, *final(r)),
    {
        &mut self.0[pos.linear_idx()]
    }

    /// Puts `tile` in the cell at `pos`.
    pub fn set(&mut self, pos: TilePos, tile: T)
        ensures
            final(self)@ == old(self)@.update(pos.spec_linear_idx() as int, tile),
    {
        self.0[pos.linear_idx()] = tile;
    }
}

} // verus!
