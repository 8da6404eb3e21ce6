//! Outcomes and how they combine.
//!
//! A tile, a line and a board each have an outcome: still free, won by a
//! player, or drawn. The outcome of a line is the combination of the outcomes
//! of its three cells.

use crate::player::PlayerSymbol;
use vstd::prelude::*;

verus! {

/// The outcome of a tile, of a line or of a board.
#[derive(Debug, Clone, Copy, PartialEq, Eq, Hash, Structural)]
pub enum TileBoardState {
    /// Not decided yet.
    Free,
    /// Taken by a player.
    Won(PlayerSymbol),
    /// Decided without a winner.
    Drawn,
}

impl TileBoardState {
    pub open spec fn spec_is_free(self) -> bool {
        self is Free
    }

    pub open spec fn spec_is_won(self) -> bool {
        self is Won
    }

    pub open spec fn spec_is_drawn(self) -> bool {
        self is Drawn
    }

    /// Won or drawn.
    pub open spec fn spec_is_decided(self) -> bool {
        self is Won || self is Drawn
    }

    /// Still open to moves: not decided.
    pub open spec fn spec_is_placeable(self) -> bool {
        self is Free
    }

    /// The player who holds the outcome, if it is won.
    pub open spec fn spec_winner(self) -> Option<PlayerSymbol> {
        match self {
            Self::Won(p) => Some(p),
            _ => None,
        }
    }

    /// Two outcomes won by different players.
    pub open spec fn opposed(self, other: Self) -> bool {
        self is Won && other is Won && self != other
    }

    /// The outcome of two cells taken together. A drawn cell makes the pair
    /// drawn; otherwise a free cell keeps the pair free; otherwise both are
    /// won, and the pair is won by the player who holds both, or drawn when
    /// two players hold one each.
    pub open spec fn spec_combine(self, other: Self) -> Self {
        if self is Drawn || other is Drawn {
            Self::Drawn
        } else if self is Free || other is Free {
            Self::Free
        } else if self == other {
            self
        } else {
            Self::Drawn
        }
    }

    /// The outcome of a line whose cells have the outcomes `a`, `b` and `c`,
    /// in the order in which the line is walked.
    pub open spec fn fold_line(a: Self, b: Self, c: Self) -> Self {
        a.spec_combine(b).spec_combine(c)
    }

    /// Whether `(a + b) + c` and `a + (b + c)` agree, `+` being `combine`:
    /// they do unless a free cell stands at one end beside two cells won by
    /// different players.
    pub open spec fn regroups(a: Self, b: Self, c: Self) -> bool {
        !(c is Free && a.opposed(b)) && !(a is Free && b.opposed(c))
    }

    /// Whether a line of `a`, `b` and `c` has the same outcome in whatever
    /// order it is walked: it has unless the three are a free cell and two
    /// cells won by different players.
    pub open spec fn reorders(a: Self, b: Self, c: Self) -> bool {
        &&& !(a is Free && b.opposed(c))
        &&& !(b is Free && a.opposed(c))
        &&& !(c is Free && a.opposed(b))
    }

    /// `combine` does not depend on the order of its two arguments.
    pub proof fn lemma_combine_commutative(a: Self, b: Self)
        ensures
            a.spec_combine(b) == b.spec_combine(a),
    {
    }

    /// `combine` may be regrouped wherever `regroups` holds.
    pub proof fn lemma_combine_associative(a: Self, b: Self, c: Self)
        requires
            Self::regroups(a, b, c),
        ensures
            a.spec_combine(b).spec_combine(c) == a.spec_combine(b.spec_combine(c)),
    {
    }

    /// Where `regroups` does not hold, the two groupings differ: one is
    /// drawn and the other free.
    pub proof fn lemma_combine_regrouping_differs(a: Self, b: Self, c: Self)
        requires
            !Self::regroups(a, b, c),
        ensures
            a.spec_combine(b).spec_combine(c) != a.spec_combine(b.spec_combine(c)),
    {
    }

    /// The entries of the table of `combine`: free with free is free, won
    /// with free is free, a player with the same player is that player, a
    /// player with the other player is drawn, and anything with drawn is
    /// drawn.
    pub proof fn lemma_combine_table(p: PlayerSymbol, q: PlayerSymbol, any: Self)
        ensures
            Self::Free.spec_combine(Self::Free) == Self::Free,
            Self::Won(p).spec_combine(Self::Free) == Self::Free,
            Self::Free.spec_combine(Self::Won(p)) == Self::Free,
            Self::Won(p).spec_combine(Self::Won(p)) == Self::Won(p),
            p != q ==> Self::Won(p).spec_combine(Self::Won(q)) == Self::Drawn,
            any.spec_combine(Self::Drawn) == Self::Drawn,
            Self::Drawn.spec_combine(any) == Self::Drawn,
    {
    }

    /// The outcome of a line does not depend on the order of its cells
    /// wherever `reorders` holds.
    pub proof fn lemma_fold_line_any_order(a: Self, b: Self, c: Self)
        requires
            Self::reorders(a, b, c),
        ensures
            Self::fold_line(a, b, c) == Self::fold_line(a, c, b),
            Self::fold_line(a, b, c) == Self::fold_line(b, a, c),
            Self::fold_line(a, b, c) == Self::fold_line(b, c, a),
            Self::fold_line(a, b, c) == Self::fold_line(c, a, b),
            Self::fold_line(a, b, c) == Self::fold_line(c, b, a),
    {
    }

    /// A line is won by a player exactly if that player holds all three
    /// cells; a line without a free cell is won or drawn; and a line with a
    /// drawn cell is drawn.
    pub proof fn lemma_fold_line(a: Self, b: Self, c: Self)
        ensures
            forall|p: PlayerSymbol|
                Self::fold_line(a, b, c) == Self::Won(p) <==> a == Self::Won(p) && b == Self::Won(p)
                    && c == Self::Won(p),
            !(a is Free) && !(b is Free) && !(c is Free) ==> Self::fold_line(a, b, c).spec_is_decided(),
            a is Drawn || b is Drawn || c is Drawn ==> Self::fold_line(a, b, c) is Drawn,
    {
    }

    #[verifier::when_used_as_spec(spec_is_free)]
    pub fn is_free(self) -> (r: bool)
        ensures
            r == self.spec_is_free(),
    {
        matches!(self, Self::Free)
    }

    #[verifier::when_used_as_spec(spec_is_won)]
    pub fn is_won(self) -> (r: bool)
        ensures
            r == self.spec_is_won(),
    {
        matches!(self, Self::Won(_))
    }

    #[verifier::when_used_as_spec(spec_is_drawn)]
    pub fn is_drawn(self) -> (r: bool)
        ensures
            r == self.spec_is_drawn(),
    {
        matches!(self, Self::Drawn)
    }

    /// Won or drawn.
    #[verifier::when_used_as_spec(spec_is_decided)]
    pub fn is_decided(self) -> (r: bool)
        ensures
            r == self.spec_is_decided(),
    {
        self.is_won() || self.is_drawn()
    }

    /// Still open to moves: not decided.
    #[verifier::when_used_as_spec(spec_is_placeable)]
    pub fn is_placeable(self) -> (r: bool)
        ensures
            r == self.spec_is_placeable(),
            r == !self.spec_is_decided(),
    {
        !self.is_decided()
    }

    /// The player who holds the outcome, if it is won.
    #[verifier::when_used_as_spec(spec_winner)]
    pub fn winner(self) -> (r: Option<PlayerSymbol>)
        ensures
            r == self.spec_winner(),
    {
        match self {
            Self::Won(p) => Some(p),
            _ => None,
        }
    }

    /// The outcome of two cells taken together.
    #[verifier::when_used_as_spec(spec_combine)]
    pub fn combine(self, other: Self) -> (r: Self)
        ensures
            r == self.spec_combine(other),
    {
        match (self, other) {
            (Self::Drawn, _) => Self::Drawn,
            (_, Self::Drawn) => Self::Drawn,
            (Self::Free, _) => Self::Free,
            (_, Self::Free) => Self::Free,
            (Self::Won(p), Self::Won(q)) => {
                if p == q {
                    Self::Won(p)
                } else {
                    Self::Drawn
                }
            },
        }
    }
}

impl Default for TileBoardState {
    fn default() -> (r: Self)
        ensures
            r == Self::Free,
    {
        Self::Free
    }
}

} // verus!
