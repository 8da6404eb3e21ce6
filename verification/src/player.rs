//! The two players of a round.

use vstd::prelude::*;

verus! {

/// Number of players in a round.
pub const NPLAYERS: u8 = 2;

/// The symbol a player marks tiles with.
#[derive(Debug, Copy, Clone, PartialEq, Eq, Hash, Structural)]
pub enum PlayerSymbol {
    X,
    O,
}

/// Both players, ordered by [`PlayerSymbol::idx`].
pub const PLAYERS: [PlayerSymbol; 2] = [PlayerSymbol::X, PlayerSymbol::O];

impl PlayerSymbol {
    /// Position of the player in score tables: 0 for `X`, 1 for `O`.
    pub open spec fn spec_idx(self) -> usize {
        match self {
            Self::X => 0,
            Self::O => 1,
        }
    }

    /// The player at a given position of a score table.
    pub open spec fn spec_from_idx(idx: usize) -> Self {
        if idx == 0 {
            Self::X
        } else {
            Self::O
        }
    }

    /// The opponent of `self`.
    pub open spec fn spec_other(self) -> Self {
        match self {
            Self::X => Self::O,
            Self::O => Self::X,
        }
    }

    /// The character a player is written as.
    pub open spec fn spec_as_char(self) -> char {
        match self {
            Self::X => 'X',
            Self::O => 'O',
        }
    }

    /// The player a character stands for, if any.
    pub open spec fn spec_from_char(c: char) -> Option<Self> {
        if c == 'X' {
            Some(Self::X)
        } else if c == 'O' {
            Some(Self::O)
        } else {
            None
        }
    }

    /// Position of the player in score tables: 0 for `X`, 1 for `O`.
    #[verifier::when_used_as_spec(spec_idx)]
    pub fn idx(self) -> (r: usize)
        ensures
            r == self.spec_idx(),
            r < 2,
    {
        match self {
            Self::X => 0,
            Self::O => 1,
        }
    }

    /// The player at position `idx` of a score table.
    #[verifier::when_used_as_spec(spec_from_idx)]
    pub fn from_idx(idx: usize) -> (r: Self)
        requires
            idx < 2,
        ensures
            r == Self::spec_from_idx(idx),
            r.spec_idx() == idx,
    {
        if idx == 0 {
            Self::X
        } else {
            Self::O
        }
    }

    /// The opponent of `self`.
    #[verifier::when_used_as_spec(spec_other)]
    pub fn other(self) -> (r: Self)
        ensures
            r == self.spec_other(),
            r != self,
    {
        match self {
            Self::X => Self::O,
            Self::O => Self::X,
        }
    }

    /// Hands the turn to the opponent.
    pub fn switch(&mut self)
        ensures
            *final(self) == old(self).spec_other(),
    {
        *self = self.other();
    }

    /// The character a player is written as.
    #[verifier::when_used_as_spec(spec_as_char)]
    pub fn as_char(self) -> (r: char)
        ensures
            r == self.spec_as_char(),
    {
        match self {
            Self::X => 'X',
            Self::O => 'O',
        }
    }

    /// Reads a player from the character it is written as.
    #[verifier::when_used_as_spec(spec_from_char)]
    pub fn from_char(c: char) -> (r: Option<Self>)
        ensures
            r == Self::spec_from_char(c),
            r matches Some(p) ==> p.spec_as_char() == c,
    {
        match c {
            'X' => Some(Self::X),
            'O' => Some(Self::O),
            _ => None,
        }
    }

    /// A player's opponent's opponent is the player, and a player read back
    /// from its own character or score-table position is the same player.
    pub proof fn lemma_round_trips(self)
        ensures
            self.spec_other().spec_other() == self,
            Self::spec_from_idx(self.spec_idx()) == self,
            Self::spec_from_char(self.spec_as_char()) == Some(self),
    {
    }
}

} // verus!
