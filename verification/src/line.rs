//! The eight lines of a 3x3 board.
//!
//! A line is a row, a column or one of the two diagonals. Lines are numbered
//! 0 to 7: the three lines of constant `y`, the three lines of constant `x`,
//! the main diagonal, the anti-diagonal.

use crate::pos::TilePos;
use vstd::prelude::*;

verus! {

/// Number of lines of a board.
pub const NLINES: usize = 8;

/// One of the eight lines of a board.
#[derive(Debug, Clone, Copy, PartialEq, Eq, Hash, Structural)]
pub enum LineType {
    /// The tiles `(0, y)`, `(1, y)`, `(2, y)`.
    XAxis(u8),
    /// The tiles `(x, 0)`, `(x, 1)`, `(x, 2)`.
    YAxis(u8),
    /// The tiles `(0, 0)`, `(1, 1)`, `(2, 2)`.
    MainDiagonal,
    /// The tiles `(0, 2)`, `(1, 1)`, `(2, 0)`.
    AntiDiagonal,
}

impl LineType {
    /// The fixed component of a row or column is below 3.
    pub open spec fn is_valid(self) -> bool {
        match self {
            Self::XAxis(y) => y < 3,
            Self::YAxis(x) => x < 3,
            Self::MainDiagonal => true,
            Self::AntiDiagonal => true,
        }
    }

    /// Number of the line, from 0 to 7.
    pub open spec fn spec_idx(self) -> usize {
        match self {
            Self::XAxis(y) => y as usize,
            Self::YAxis(x) => (x + 3) as usize,
            Self::MainDiagonal => 6,
            Self::AntiDiagonal => 7,
        }
    }

    /// The line with the given number.
    pub open spec fn spec_from_idx(idx: usize) -> Self {
        if idx < 3 {
            Self::XAxis(idx as u8)
        } else if idx < 6 {
            Self::YAxis((idx - 3) as u8)
        } else if idx == 6 {
            Self::MainDiagonal
        } else {
            Self::AntiDiagonal
        }
    }

    /// The `x` component of the `k`-th tile of the line, for `k` from 0 to 2.
    pub open spec fn tile_x(self, k: int) -> int {
        match self {
            Self::XAxis(_) => k,
            Self::YAxis(x) => x as int,
            Self::MainDiagonal => k,
            Self::AntiDiagonal => k,
        }
    }

    /// The `y` component of the `k`-th tile of the line, for `k` from 0 to 2.
    pub open spec fn tile_y(self, k: int) -> int {
        match self {
            Self::XAxis(y) => y as int,
            Self::YAxis(_) => k,
            Self::MainDiagonal => k,
            Self::AntiDiagonal => 2 - k,
        }
    }

    /// The row-major index of the `k`-th tile of the line.
    pub open spec fn tile_idx(self, k: int) -> int {
        self.tile_x(k) * 3 + self.tile_y(k)
    }

    /// The `k`-th tile of the line, for `k` from 0 to 2.
    pub open spec fn tile(self, k: int) -> TilePos {
        TilePos::spec_new(self.tile_x(k) as u8, self.tile_y(k) as u8)
    }

    /// The three tiles of the line, in the order in which they are visited.
    pub open spec fn tiles(self) -> Seq<TilePos> {
        seq![self.tile(0), self.tile(1), self.tile(2)]
    }

    /// Whether the line passes through `pos`.
    pub open spec fn contains(self, pos: TilePos) -> bool {
        match self {
            Self::XAxis(y) => pos.spec_y() == y,
            Self::YAxis(x) => pos.spec_x() == x,
            Self::MainDiagonal => pos.spec_x() == pos.spec_y(),
            Self::AntiDiagonal => pos.spec_x() + pos.spec_y() == 2,
        }
    }

    /// All eight lines, by number.
    pub open spec fn spec_all() -> Seq<Self> {
        Seq::new(8, |i: int| Self::spec_from_idx(i as usize))
    }

    /// The lines through `pos`: its row, its column, then each diagonal that
    /// it lies on.
    pub open spec fn spec_all_through_point(pos: TilePos) -> Seq<Self> {
        let axes = seq![Self::XAxis(pos.spec_y()), Self::YAxis(pos.spec_x())];
        let with_main = if pos.spec_x() == pos.spec_y() {
            axes.push(Self::MainDiagonal)
        } else {
            axes
        };
        if pos.spec_x() + pos.spec_y() == 2 {
            with_main.push(Self::AntiDiagonal)
        } else {
            with_main
        }
    }

    /// A line and its number determine each other.
    pub proof fn lemma_idx(self)
        requires
            self.is_valid(),
        ensures
            self.spec_idx() < 8,
            Self::spec_from_idx(self.spec_idx()) == self,
    {
    }

    /// Every number below 8 is the number of one valid line.
    pub proof fn lemma_from_idx(idx: usize)
        requires
            idx < 8,
        ensures
            Self::spec_from_idx(idx).is_valid(),
            Self::spec_from_idx(idx).spec_idx() == idx,
    {
    }

    /// The `k`-th tile of a line is a position of the board, with the
    /// components and the row-major index that `tile_x`, `tile_y` and
    /// `tile_idx` give, and the line passes through it.
    pub proof fn lemma_tile(self, k: int)
        requires
            self.is_valid(),
            0 <= k < 3,
        ensures
            self.tile(k).is_valid(),
            self.tile(k).spec_x() == self.tile_x(k),
            self.tile(k).spec_y() == self.tile_y(k),
            self.tile(k).spec_linear_idx() == self.tile_idx(k),
            0 <= self.tile_idx(k) < 9,
            self.contains(self.tile(k)),
    {
        TilePos::lemma_components(self.tile_x(k) as u8, self.tile_y(k) as u8);
    }

    /// A line passes through a position exactly if the position is one of
    /// its three tiles.
    pub proof fn lemma_contains(self, pos: TilePos)
        requires
            self.is_valid(),
            pos.is_valid(),
        ensures
            self.contains(pos) <==> exists|k: int|
                0 <= k < 3 && self.tile_idx(k) == pos.spec_linear_idx(),
            self.contains(pos) <==> self.tiles().contains(pos),
    {
        self.lemma_tile(0);
        self.lemma_tile(1);
        self.lemma_tile(2);
        let tiles = self.tiles();
        assert(tiles[0] == self.tile(0) && tiles[1] == self.tile(1) && tiles[2] == self.tile(2));
        if self.contains(pos) {
            let k: int = match self {
                Self::XAxis(_) => pos.spec_x() as int,
                Self::YAxis(_) => pos.spec_y() as int,
                Self::MainDiagonal => pos.spec_x() as int,
                Self::AntiDiagonal => pos.spec_x() as int,
            };
            assert(0 <= k < 3 && self.tile_idx(k) == pos.spec_linear_idx());
            TilePos::lemma_components(pos.spec_x(), pos.spec_y());
            assert(tiles[k] == pos);
        }
        if tiles.contains(pos) {
            let k = choose|k: int| 0 <= k < tiles.len() && tiles[k] == pos;
            assert(self.tile_idx(k) == pos.spec_linear_idx());
        }
    }

    /// `all_through_point` lists exactly the lines that pass through the
    /// position, each once: two for the middle of an edge, three for a
    /// corner, four for the centre.
    pub proof fn lemma_all_through_point(pos: TilePos)
        requires
            pos.is_valid(),
        ensures
            2 <= Self::spec_all_through_point(pos).len() <= 4,
            Self::spec_all_through_point(pos).no_duplicates(),
            forall|i: int|
                0 <= i < Self::spec_all_through_point(pos).len() ==> (
                #[trigger] Self::spec_all_through_point(pos)[i]).is_valid(),
            forall|line: Self|
                line.is_valid() ==> (Self::spec_all_through_point(pos).contains(line)
                    <==> line.contains(pos)),
    {
        let lines = Self::spec_all_through_point(pos);
        assert forall|line: Self| line.is_valid() implies (lines.contains(line) <==> line.contains(
            pos,
        )) by {
            if line.contains(pos) {
                match line {
                    Self::XAxis(_) => {
                        assert(lines[0] == line);
                    },
                    Self::YAxis(_) => {
                        assert(lines[1] == line);
                    },
                    Self::MainDiagonal => {
                        assert(lines[2] == line);
                    },
                    Self::AntiDiagonal => {
                        assert(lines[lines.len() - 1] == line);
                    },
                }
            }
        }
    }

    /// `all` lists every valid line once, each at its own number.
    pub proof fn lemma_all()
        ensures
            Self::spec_all().len() == 8,
            Self::spec_all().no_duplicates(),
            forall|line: Self|
                line.is_valid() ==> Self::spec_all()[line.spec_idx() as int] == line,
            forall|i: int| 0 <= i < 8 ==> (#[trigger] Self::spec_all()[i]).is_valid(),
    {
    }

    /// The line of the tiles whose second component is `y`.
    pub fn x_axis(y: u8) -> (r: Self)
        requires
            y < 3,
        ensures
            r == Self::XAxis(y),
            r.is_valid(),
    {
        Self::XAxis(y)
    }

    /// The line of the tiles whose first component is `x`.
    pub fn y_axis(x: u8) -> (r: Self)
        requires
            x < 3,
        ensures
            r == Self::YAxis(x),
            r.is_valid(),
    {
        Self::YAxis(x)
    }

    /// Number of the line, from 0 to 7.
    #[verifier::when_used_as_spec(spec_idx)]
    pub fn idx(self) -> (r: usize)
        requires
            self.is_valid(),
        ensures
            r == self.spec_idx(),
            r < 8,
    {
        match self {
            LineType::XAxis(y) => y as usize,
            LineType::YAxis(x) => x as usize + 3,
            LineType::MainDiagonal => 6,
            LineType::AntiDiagonal => 7,
        }
    }

    /// The line with the given number.
    #[verifier::when_used_as_spec(spec_from_idx)]
    pub fn from_idx(idx: usize) -> (r: Self)
        requires
            idx < 8,
        ensures
            r == Self::spec_from_idx(idx),
            r.is_valid(),
            r.spec_idx() == idx,
    {
        if idx < 3 {
            LineType::XAxis(idx as u8)
        } else if idx < 6 {
            LineType::YAxis((idx - 3) as u8)
        } else if idx == 6 {
            LineType::MainDiagonal
        } else {
            LineType::AntiDiagonal
        }
    }

    /// Starts a walk over the three tiles of the line.
    pub fn iter(self) -> (r: LineIter)
        requires
            self.is_valid(),
        ensures
            r.line_type() == self,
            r@ == self.tiles(),
    {
        LineIter { line_type: self, i: 0 }
    }

    /// The lines through `pos`: its row, its column, then each diagonal that
    /// it lies on.
    pub fn all_through_point(pos: TilePos) -> (r: Vec<Self>)
        ensures
            r@ == Self::spec_all_through_point(pos),
            forall|i: int| 0 <= i < r.len() ==> (#[trigger] r[i]).is_valid(),
            forall|line: Self| line.is_valid() ==> (r@.contains(line) <==> line.contains(pos)),
    {
        let mut lines: Vec<Self> = Vec::new();
        lines.push(Self::x_axis(pos.y()));
        lines.push(Self::y_axis(pos.x()));
        if pos.x() == pos.y() {
            lines.push(Self::MainDiagonal);
        }
        if pos.x() + pos.y() == 2 {
            lines.push(Self::AntiDiagonal);
        }
        proof {
            Self::lemma_all_through_point(pos);
            assert(lines@ =~= Self::spec_all_through_point(pos));
        }
        lines
    }

    /// All eight lines, by number.
    pub fn all() -> (r: Vec<Self>)
        ensures
            r@ == Self::spec_all(),
            r.len() == 8,
            forall|i: int| 0 <= i < 8 ==> (#[trigger] r[i]).is_valid() && r[i].spec_idx() == i,
    {
        let mut lines: Vec<Self> = Vec::new();
        let mut i: usize = 0;
        while i < NLINES
            invariant
                i <= 8,
                lines.len() == i,
                forall|j: int| 0 <= j < i ==> #[trigger] lines[j] == Self::spec_from_idx(j as usize),
            decreases 8 - i,
        {
            lines.push(Self::from_idx(i));
            i += 1;
        }
        proof {
            assert(lines@ =~= Self::spec_all());
        }
        lines
    }
}

/// A walk over the three tiles of a line.
#[derive(Debug, Clone, Copy)]
pub struct LineIter {
    line_type: LineType,
    i: u8,
}

impl View for LineIter {
    type V = Seq<TilePos>;

    /// The tiles that the walk has still to visit, in order.
    closed spec fn view(&self) -> Seq<TilePos> {
        self.line_type.tiles().skip(self.i as int)
    }
}

impl LineIter {
    /// The walk is along a valid line and has visited at most three tiles.
    #[verifier::type_invariant]
    closed spec fn is_valid(self) -> bool {
        self.line_type.is_valid() && self.i <= 3
    }

    /// The line that is walked.
    pub closed spec fn line_type(self) -> LineType {
        self.line_type
    }

    /// Starts a walk over the tiles `(0, y)`, `(1, y)`, `(2, y)`.
    pub fn x_axis(y: u8) -> (r: Self)
        requires
            y < 3,
        ensures
            r.line_type() == LineType::XAxis(y),
            r@ == LineType::XAxis(y).tiles(),
    {
        LineType::x_axis(y).iter()
    }

    /// Starts a walk over the tiles `(x, 0)`, `(x, 1)`, `(x, 2)`.
    pub fn y_axis(x: u8) -> (r: Self)
        requires
            x < 3,
        ensures
            r.line_type() == LineType::YAxis(x),
            r@ == LineType::YAxis(x).tiles(),
    {
        LineType::y_axis(x).iter()
    }

    /// Starts a walk over the tiles `(0, 0)`, `(1, 1)`, `(2, 2)`.
    pub fn main_diagonal() -> (r: Self)
        ensures
            r.line_type() == LineType::MainDiagonal,
            r@ == LineType::MainDiagonal.tiles(),
    {
        LineType::MainDiagonal.iter()
    }

    /// Starts a walk over the tiles `(0, 2)`, `(1, 1)`, `(2, 0)`.
    pub fn anti_diagonal() -> (r: Self)
        ensures
            r.line_type() == LineType::AntiDiagonal,
            r@ == LineType::AntiDiagonal.tiles(),
    {
        LineType::AntiDiagonal.iter()
    }

    /// Visits the next tile of the line, if one is left.
    pub fn next(&mut self) -> (r: Option<TilePos>)
        ensures
            final(self).line_type() == old(self).line_type(),
            old(self)@.len() > 0 ==> r == Some(old(self)@[0]) && final(self)@ == old(self)@.skip(1),
            old(self)@.len() == 0 ==> r is None && final(self)@ == old(self)@,
    {
        proof {
            use_type_invariant(&*self);
        }
        if self.i >= 3 {
            return None;
        }
        let i = self.i;
        let ghost before = *self;
        self.i += 1;
        let pos = match self.line_type {
            LineType::XAxis(y) => TilePos::new(i, y),
            LineType::YAxis(x) => TilePos::new(x, i),
            LineType::MainDiagonal => TilePos::new(i, i),
            LineType::AntiDiagonal => TilePos::new(i, 2 - i),
        };
        proof {
            assert(before@[0] == before.line_type.tiles()[i as int]);
            assert(pos == before.line_type.tile(i as int));
            assert(self@ =~= before@.skip(1));
        }
        Some(pos)
    }
}

} // verus!
