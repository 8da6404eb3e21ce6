//! Coordinates.
//!
//! A tile of the game is addressed either by one global coordinate on the
//! 9x9 grid, or by the pair of the outer coordinate of its inner board and
//! its inner coordinate on that board. Every coordinate type is checked when
//! it is built, so a value that exists is in range.

use vstd::prelude::*;

verus! {

/// Side length of a board, at either level.
pub const BOARD_SIDE_LENGTH: u8 = 3;

/// Number of cells of a board, at either level.
pub const BOARD_AREA: u8 = 9;

/// A coordinate component was outside its range.
#[derive(Debug, Copy, Clone, PartialEq, Eq, Structural)]
pub struct InvalidCoordinate;

/// The position of a cell on its own board, whatever the board's level.
#[derive(Debug, Copy, Clone, PartialEq, Eq, Hash, Structural)]
pub struct TilePos {
    x: u8,
    y: u8,
}

impl TilePos {
    /// Both components are below 3.
    #[verifier::type_invariant]
    pub open spec fn is_valid(self) -> bool {
        self.spec_x() < 3 && self.spec_y() < 3
    }

    pub closed spec fn spec_x(self) -> u8 {
        self.x
    }

    pub closed spec fn spec_y(self) -> u8 {
        self.y
    }

    /// The position with the given components.
    pub closed spec fn spec_new(x: u8, y: u8) -> Self {
        TilePos { x, y }
    }

    /// Row-major index of the position: `x * 3 + y`.
    pub open spec fn spec_linear_idx(self) -> usize {
        (self.spec_x() * 3 + self.spec_y()) as usize
    }

    /// The position with the given row-major index.
    pub open spec fn spec_from_linear_idx(idx: usize) -> Self {
        Self::spec_new((idx / 3) as u8, (idx % 3) as u8)
    }

    pub open spec fn spec_is_on_main_diagonal(self) -> bool {
        self.spec_x() == self.spec_y()
    }

    pub open spec fn spec_is_on_anti_diagonal(self) -> bool {
        self.spec_x() + self.spec_y() == 2
    }

    /// A position is its two components and nothing more.
    pub proof fn lemma_components(x: u8, y: u8)
        ensures
            Self::spec_new(x, y).spec_x() == x,
            Self::spec_new(x, y).spec_y() == y,
            forall|p: Self| p.spec_x() == x && p.spec_y() == y ==> p == Self::spec_new(x, y),
    {
    }

    /// The row-major index numbers the nine positions from 0 to 8, and
    /// `from_linear_idx` undoes `linear_idx`.
    pub proof fn lemma_linear_idx(self)
        requires
            self.is_valid(),
        ensures
            self.spec_linear_idx() < 9,
            Self::spec_from_linear_idx(self.spec_linear_idx()) == self,
    {
    }

    /// `linear_idx` undoes `from_linear_idx`.
    pub proof fn lemma_from_linear_idx(idx: usize)
        requires
            idx < 9,
        ensures
            Self::spec_from_linear_idx(idx).is_valid(),
            Self::spec_from_linear_idx(idx).spec_linear_idx() == idx,
    {
    }

    /// Builds a position from its two components.
    #[verifier::when_used_as_spec(spec_new)]
    pub fn new(x: u8, y: u8) -> (r: Self)
        requires
            x < 3,
            y < 3,
        ensures
            r == Self::spec_new(x, y),
            r.spec_x() == x,
            r.spec_y() == y,
    {
        Self { x, y }
    }

    /// Builds a position from its two components, `x` first.
    pub fn new_arr(arr: [u8; 2]) -> (r: Self)
        requires
            arr[0] < 3,
            arr[1] < 3,
        ensures
            r == Self::spec_new(arr[0], arr[1]),
            r.spec_x() == arr[0],
            r.spec_y() == arr[1],
    {
        Self::new(arr[0], arr[1])
    }

    /// Builds a position, or reports that a component is 3 or more.
    pub fn try_new(x: u8, y: u8) -> (r: Result<Self, InvalidCoordinate>)
        ensures
            x < 3 && y < 3 ==> r == Ok::<Self, InvalidCoordinate>(Self::spec_new(x, y)),
            !(x < 3 && y < 3) ==> r is Err,
    {
        if x < 3 && y < 3 {
            Ok(Self::new(x, y))
        } else {
            Err(InvalidCoordinate)
        }
    }

    #[verifier::when_used_as_spec(spec_x)]
    pub fn x(self) -> (r: u8)
        ensures
            r == self.spec_x(),
            r < 3,
    {
        proof {
            use_type_invariant(&self);
        }
        self.x
    }

    #[verifier::when_used_as_spec(spec_y)]
    pub fn y(self) -> (r: u8)
        ensures
            r == self.spec_y(),
            r < 3,
    {
        proof {
            use_type_invariant(&self);
        }
        self.y
    }

    /// Row-major index of the position: `x * 3 + y`.
    #[verifier::when_used_as_spec(spec_linear_idx)]
    pub fn linear_idx(self) -> (r: usize)
        ensures
            r == self.spec_linear_idx(),
            r == self.spec_x() * 3 + self.spec_y(),
            r < 9,
    {
        proof {
            use_type_invariant(&self);
        }
        (self.x * 3 + self.y) as usize
    }

    /// The position with the given row-major index.
    #[verifier::when_used_as_spec(spec_from_linear_idx)]
    pub fn from_linear_idx(idx: usize) -> (r: Self)
        requires
            idx < 9,
        ensures
            r == Self::spec_from_linear_idx(idx),
            r.spec_linear_idx() == idx,
    {
        Self::new((idx / 3) as u8, (idx % 3) as u8)
    }

    /// The path from a board of tiles to this tile: the position alone.
    pub fn iter(self) -> (r: Vec<Self>)
        ensures
            r@ == seq![self],
    {
        let mut path: Vec<Self> = Vec::new();
        path.push(self);
        path
    }

    /// Reads the position as the place of an inner board on the outer board.
    pub fn as_outer(self) -> (r: OuterPos)
        ensures
            r.spec_x() == self.spec_x(),
            r.spec_y() == self.spec_y(),
    {
        OuterPos::new(self.x(), self.y())
    }

    /// Reads the position as the place of a tile on its inner board.
    pub fn as_inner(self) -> (r: InnerPos)
        ensures
            r.spec_x() == self.spec_x(),
            r.spec_y() == self.spec_y(),
    {
        InnerPos::new(self.x(), self.y())
    }

    /// Whether the position lies on the diagonal from (0, 0) to (2, 2).
    #[verifier::when_used_as_spec(spec_is_on_main_diagonal)]
    pub fn is_on_main_diagonal(self) -> (r: bool)
        ensures
            r == self.spec_is_on_main_diagonal(),
    {
        self.x() == self.y()
    }

    /// Whether the position lies on the diagonal from (0, 2) to (2, 0).
    #[verifier::when_used_as_spec(spec_is_on_anti_diagonal)]
    pub fn is_on_anti_diagonal(self) -> (r: bool)
        ensures
            r == self.spec_is_on_anti_diagonal(),
    {
        self.x() + self.y() == 2
    }
}

/// The position of an inner board on the outer board.
#[derive(Debug, Copy, Clone, PartialEq, Eq, Hash, Structural)]
pub struct OuterPos {
    x: u8,
    y: u8,
}

impl OuterPos {
    /// Both components are below 3.
    #[verifier::type_invariant]
    pub open spec fn is_valid(self) -> bool {
        self.spec_x() < 3 && self.spec_y() < 3
    }

    pub closed spec fn spec_x(self) -> u8 {
        self.x
    }

    pub closed spec fn spec_y(self) -> u8 {
        self.y
    }

    /// The position with the given components.
    pub closed spec fn spec_new(x: u8, y: u8) -> Self {
        OuterPos { x, y }
    }

    /// Row-major index of the position: `x * 3 + y`.
    pub open spec fn spec_linear_idx(self) -> usize {
        (self.spec_x() * 3 + self.spec_y()) as usize
    }

    /// The same position, without its level.
    pub open spec fn spec_tile_pos(self) -> TilePos {
        TilePos::spec_new(self.spec_x(), self.spec_y())
    }

    /// The position with the given row-major index.
    pub open spec fn spec_from_linear_idx(idx: usize) -> Self {
        Self::spec_new((idx / 3) as u8, (idx % 3) as u8)
    }

    /// A position is its two components and nothing more.
    pub proof fn lemma_components(x: u8, y: u8)
        ensures
            Self::spec_new(x, y).spec_x() == x,
            Self::spec_new(x, y).spec_y() == y,
            forall|p: Self| p.spec_x() == x && p.spec_y() == y ==> p == Self::spec_new(x, y),
    {
    }

    /// Builds a position from its two components.
    #[verifier::when_used_as_spec(spec_new)]
    pub fn new(x: u8, y: u8) -> (r: Self)
        requires
            x < 3,
            y < 3,
        ensures
            r == Self::spec_new(x, y),
            r.spec_x() == x,
            r.spec_y() == y,
    {
        Self { x, y }
    }

    /// Builds a position from its two components, `x` first.
    pub fn new_arr(arr: [u8; 2]) -> (r: Self)
        requires
            arr[0] < 3,
            arr[1] < 3,
        ensures
            r == Self::spec_new(arr[0], arr[1]),
            r.spec_x() == arr[0],
            r.spec_y() == arr[1],
    {
        Self::new(arr[0], arr[1])
    }

    /// Builds a position, or reports that a component is 3 or more.
    pub fn try_new(x: u8, y: u8) -> (r: Result<Self, InvalidCoordinate>)
        ensures
            x < 3 && y < 3 ==> r == Ok::<Self, InvalidCoordinate>(Self::spec_new(x, y)),
            !(x < 3 && y < 3) ==> r is Err,
    {
        if x < 3 && y < 3 {
            Ok(Self::new(x, y))
        } else {
            Err(InvalidCoordinate)
        }
    }

    #[verifier::when_used_as_spec(spec_x)]
    pub fn x(self) -> (r: u8)
        ensures
            r == self.spec_x(),
            r < 3,
    {
        proof {
            use_type_invariant(&self);
        }
        self.x
    }

    #[verifier::when_used_as_spec(spec_y)]
    pub fn y(self) -> (r: u8)
        ensures
            r == self.spec_y(),
            r < 3,
    {
        proof {
            use_type_invariant(&self);
        }
        self.y
    }

    /// Row-major index of the position: `x * 3 + y`.
    #[verifier::when_used_as_spec(spec_linear_idx)]
    pub fn linear_idx(self) -> (r: usize)
        ensures
            r == self.spec_linear_idx(),
            r == self.spec_x() * 3 + self.spec_y(),
            r < 9,
    {
        proof {
            use_type_invariant(&self);
        }
        (self.x * 3 + self.y) as usize
    }

    /// The position with the given row-major index.
    #[verifier::when_used_as_spec(spec_from_linear_idx)]
    pub fn from_linear_idx(idx: usize) -> (r: Self)
        requires
            idx < 9,
        ensures
            r == Self::spec_from_linear_idx(idx),
            r.spec_linear_idx() == idx,
    {
        Self::new((idx / 3) as u8, (idx % 3) as u8)
    }

    /// The row-major index numbers the nine positions from 0 to 8, and
    /// `from_linear_idx` undoes `linear_idx`.
    pub proof fn lemma_linear_idx(self)
        requires
            self.is_valid(),
        ensures
            self.spec_linear_idx() < 9,
            Self::spec_from_linear_idx(self.spec_linear_idx()) == self,
    {
    }

    /// `linear_idx` undoes `from_linear_idx`.
    pub proof fn lemma_from_linear_idx(idx: usize)
        requires
            idx < 9,
        ensures
            Self::spec_from_linear_idx(idx).is_valid(),
            Self::spec_from_linear_idx(idx).spec_linear_idx() == idx,
    {
    }

    /// The same position, without its level.
    #[verifier::when_used_as_spec(spec_tile_pos)]
    pub fn tile_pos(self) -> (r: TilePos)
        ensures
            r == self.spec_tile_pos(),
            r.spec_x() == self.spec_x(),
            r.spec_y() == self.spec_y(),
            r.spec_linear_idx() == self.spec_linear_idx(),
    {
        TilePos::new(self.x(), self.y())
    }
}

/// The position of a tile on its inner board.
#[derive(Debug, Copy, Clone, PartialEq, Eq, Hash, Structural)]
pub struct InnerPos {
    x: u8,
    y: u8,
}

impl InnerPos {
    /// Both components are below 3.
    #[verifier::type_invariant]
    pub open spec fn is_valid(self) -> bool {
        self.spec_x() < 3 && self.spec_y() < 3
    }

    pub closed spec fn spec_x(self) -> u8 {
        self.x
    }

    pub closed spec fn spec_y(self) -> u8 {
        self.y
    }

    /// The position with the given components.
    pub closed spec fn spec_new(x: u8, y: u8) -> Self {
        InnerPos { x, y }
    }

    /// Row-major index of the position: `x * 3 + y`.
    pub open spec fn spec_linear_idx(self) -> usize {
        (self.spec_x() * 3 + self.spec_y()) as usize
    }

    /// The same position, without its level.
    pub open spec fn spec_tile_pos(self) -> TilePos {
        TilePos::spec_new(self.spec_x(), self.spec_y())
    }

    /// The position of the inner board that a move on this tile points to.
    pub open spec fn spec_as_outer(self) -> OuterPos {
        OuterPos::spec_new(self.spec_x(), self.spec_y())
    }

    /// The position with the given row-major index.
    pub open spec fn spec_from_linear_idx(idx: usize) -> Self {
        Self::spec_new((idx / 3) as u8, (idx % 3) as u8)
    }

    /// A position is its two components and nothing more.
    pub proof fn lemma_components(x: u8, y: u8)
        ensures
            Self::spec_new(x, y).spec_x() == x,
            Self::spec_new(x, y).spec_y() == y,
            forall|p: Self| p.spec_x() == x && p.spec_y() == y ==> p == Self::spec_new(x, y),
    {
    }

    /// Builds a position from its two components.
    #[verifier::when_used_as_spec(spec_new)]
    pub fn new(x: u8, y: u8) -> (r: Self)
        requires
            x < 3,
            y < 3,
        ensures
            r == Self::spec_new(x, y),
            r.spec_x() == x,
            r.spec_y() == y,
    {
        Self { x, y }
    }

    /// Builds a position from its two components, `x` first.
    pub fn new_arr(arr: [u8; 2]) -> (r: Self)
        requires
            arr[0] < 3,
            arr[1] < 3,
        ensures
            r == Self::spec_new(arr[0], arr[1]),
            r.spec_x() == arr[0],
            r.spec_y() == arr[1],
    {
        Self::new(arr[0], arr[1])
    }

    /// Builds a position, or reports that a component is 3 or more.
    pub fn try_new(x: u8, y: u8) -> (r: Result<Self, InvalidCoordinate>)
        ensures
            x < 3 && y < 3 ==> r == Ok::<Self, InvalidCoordinate>(Self::spec_new(x, y)),
            !(x < 3 && y < 3) ==> r is Err,
    {
        if x < 3 && y < 3 {
            Ok(Self::new(x, y))
        } else {
            Err(InvalidCoordinate)
        }
    }

    #[verifier::when_used_as_spec(spec_x)]
    pub fn x(self) -> (r: u8)
        ensures
            r == self.spec_x(),
            r < 3,
    {
        proof {
            use_type_invariant(&self);
        }
        self.x
    }

    #[verifier::when_used_as_spec(spec_y)]
    pub fn y(self) -> (r: u8)
        ensures
            r == self.spec_y(),
            r < 3,
    {
        proof {
            use_type_invariant(&self);
        }
        self.y
    }

    /// Row-major index of the position: `x * 3 + y`.
    #[verifier::when_used_as_spec(spec_linear_idx)]
    pub fn linear_idx(self) -> (r: usize)
        ensures
            r == self.spec_linear_idx(),
            r == self.spec_x() * 3 + self.spec_y(),
            r < 9,
    {
        proof {
            use_type_invariant(&self);
        }
        (self.x * 3 + self.y) as usize
    }

    /// The position with the given row-major index.
    #[verifier::when_used_as_spec(spec_from_linear_idx)]
    pub fn from_linear_idx(idx: usize) -> (r: Self)
        requires
            idx < 9,
        ensures
            r == Self::spec_from_linear_idx(idx),
            r.spec_linear_idx() == idx,
    {
        Self::new((idx / 3) as u8, (idx % 3) as u8)
    }

    /// The row-major index numbers the nine positions from 0 to 8, and
    /// `from_linear_idx` undoes `linear_idx`.
    pub proof fn lemma_linear_idx(self)
        requires
            self.is_valid(),
        ensures
            self.spec_linear_idx() < 9,
            Self::spec_from_linear_idx(self.spec_linear_idx()) == self,
    {
    }

    /// `linear_idx` undoes `from_linear_idx`.
    pub proof fn lemma_from_linear_idx(idx: usize)
        requires
            idx < 9,
        ensures
            Self::spec_from_linear_idx(idx).is_valid(),
            Self::spec_from_linear_idx(idx).spec_linear_idx() == idx,
    {
    }

    /// The same position, without its level.
    #[verifier::when_used_as_spec(spec_tile_pos)]
    pub fn tile_pos(self) -> (r: TilePos)
        ensures
            r == self.spec_tile_pos(),
            r.spec_x() == self.spec_x(),
            r.spec_y() == self.spec_y(),
            r.spec_linear_idx() == self.spec_linear_idx(),
    {
        TilePos::new(self.x(), self.y())
    }

    /// The position of the inner board that a move on this tile points to:
    /// the same two components, read one level up.
    #[verifier::when_used_as_spec(spec_as_outer)]
    pub fn as_outer(self) -> (r: OuterPos)
        ensures
            r == self.spec_as_outer(),
            r.spec_x() == self.spec_x(),
            r.spec_y() == self.spec_y(),
            r.spec_linear_idx() == self.spec_linear_idx(),
    {
        OuterPos::new(self.x(), self.y())
    }
}

/// The position of a tile on the 9x9 grid of all tiles.
#[derive(Debug, Copy, Clone, PartialEq, Eq, Hash, Structural)]
pub struct GlobalPos {
    x: u8,
    y: u8,
}

impl GlobalPos {
    /// Both components are below 9.
    #[verifier::type_invariant]
    pub open spec fn is_valid(self) -> bool {
        self.spec_x() < 9 && self.spec_y() < 9
    }

    pub closed spec fn spec_x(self) -> u8 {
        self.x
    }

    pub closed spec fn spec_y(self) -> u8 {
        self.y
    }

    /// The position with the given components.
    pub closed spec fn spec_new(x: u8, y: u8) -> Self {
        GlobalPos { x, y }
    }

    /// Row-major index of the position: `x * 9 + y`.
    pub open spec fn spec_linear_idx(self) -> usize {
        (self.spec_x() * 9 + self.spec_y()) as usize
    }

    /// The inner board that holds the tile: each component divided by 3.
    pub open spec fn spec_outer(self) -> OuterPos {
        OuterPos::spec_new(self.spec_x() / 3, self.spec_y() / 3)
    }

    /// The place of the tile on its inner board: each component modulo 3.
    pub open spec fn spec_inner(self) -> InnerPos {
        InnerPos::spec_new(self.spec_x() % 3, self.spec_y() % 3)
    }

    /// The tile at `inner` on the inner board at `outer`: each component is
    /// three times the outer one plus the inner one.
    pub open spec fn spec_from_parts(outer: OuterPos, inner: InnerPos) -> Self {
        Self::spec_new(
            (outer.spec_x() * 3 + inner.spec_x()) as u8,
            (outer.spec_y() * 3 + inner.spec_y()) as u8,
        )
    }

    /// A position is its two components and nothing more.
    pub proof fn lemma_components(x: u8, y: u8)
        ensures
            Self::spec_new(x, y).spec_x() == x,
            Self::spec_new(x, y).spec_y() == y,
            forall|p: Self| p.spec_x() == x && p.spec_y() == y ==> p == Self::spec_new(x, y),
    {
    }

    /// Splitting a global position and putting the parts together again
    /// gives the position back.
    pub proof fn lemma_split_then_join(self)
        requires
            self.is_valid(),
        ensures
            self.spec_outer().is_valid(),
            self.spec_inner().is_valid(),
            Self::spec_from_parts(self.spec_outer(), self.spec_inner()) == self,
    {
        OuterPos::lemma_components(self.spec_x() / 3, self.spec_y() / 3);
        InnerPos::lemma_components(self.spec_x() % 3, self.spec_y() % 3);
    }

    /// Putting an outer and an inner position together and splitting the
    /// result gives the two positions back.
    pub proof fn lemma_join_then_split(outer: OuterPos, inner: InnerPos)
        requires
            outer.is_valid(),
            inner.is_valid(),
        ensures
            Self::spec_from_parts(outer, inner).is_valid(),
            Self::spec_from_parts(outer, inner).spec_outer() == outer,
            Self::spec_from_parts(outer, inner).spec_inner() == inner,
    {
        let g = Self::spec_from_parts(outer, inner);
        OuterPos::lemma_components(g.spec_x() / 3, g.spec_y() / 3);
        InnerPos::lemma_components(g.spec_x() % 3, g.spec_y() % 3);
    }

    /// Builds a position from its two components.
    #[verifier::when_used_as_spec(spec_new)]
    pub fn new(x: u8, y: u8) -> (r: Self)
        requires
            x < 9,
            y < 9,
        ensures
            r == Self::spec_new(x, y),
            r.spec_x() == x,
            r.spec_y() == y,
    {
        Self { x, y }
    }

    /// Builds a position from its two components, `x` first.
    pub fn new_arr(arr: [u8; 2]) -> (r: Self)
        requires
            arr[0] < 9,
            arr[1] < 9,
        ensures
            r == Self::spec_new(arr[0], arr[1]),
            r.spec_x() == arr[0],
            r.spec_y() == arr[1],
    {
        Self::new(arr[0], arr[1])
    }

    /// Builds a position, or reports that a component is 9 or more.
    pub fn try_new(x: u8, y: u8) -> (r: Result<Self, InvalidCoordinate>)
        ensures
            x < 9 && y < 9 ==> r == Ok::<Self, InvalidCoordinate>(Self::spec_new(x, y)),
            !(x < 9 && y < 9) ==> r is Err,
    {
        if x < 9 && y < 9 {
            Ok(Self::new(x, y))
        } else {
            Err(InvalidCoordinate)
        }
    }

    #[verifier::when_used_as_spec(spec_x)]
    pub fn x(self) -> (r: u8)
        ensures
            r == self.spec_x(),
            r < 9,
    {
        proof {
            use_type_invariant(&self);
        }
        self.x
    }

    #[verifier::when_used_as_spec(spec_y)]
    pub fn y(self) -> (r: u8)
        ensures
            r == self.spec_y(),
            r < 9,
    {
        proof {
            use_type_invariant(&self);
        }
        self.y
    }

    /// Row-major index of the position: `x * 9 + y`.
    #[verifier::when_used_as_spec(spec_linear_idx)]
    pub fn linear_idx(self) -> (r: usize)
        ensures
            r == self.spec_linear_idx(),
            r == self.spec_x() * 9 + self.spec_y(),
            r < 81,
    {
        proof {
            use_type_invariant(&self);
        }
        (self.x * 9 + self.y) as usize
    }

    /// The inner board that holds the tile.
    #[verifier::when_used_as_spec(spec_outer)]
    pub fn outer(self) -> (r: OuterPos)
        ensures
            r == self.spec_outer(),
            r.spec_x() == self.spec_x() / 3,
            r.spec_y() == self.spec_y() / 3,
    {
        OuterPos::new(self.x() / 3, self.y() / 3)
    }

    /// The place of the tile on its inner board.
    #[verifier::when_used_as_spec(spec_inner)]
    pub fn inner(self) -> (r: InnerPos)
        ensures
            r == self.spec_inner(),
            r.spec_x() == self.spec_x() % 3,
            r.spec_y() == self.spec_y() % 3,
    {
        InnerPos::new(self.x() % 3, self.y() % 3)
    }

    /// The path from the outer board to the tile: the place of its inner
    /// board, then its place on that board.
    pub fn iter(self) -> (r: Vec<TilePos>)
        ensures
            r@ == seq![self.spec_outer().spec_tile_pos(), self.spec_inner().spec_tile_pos()],
    {
        let mut path: Vec<TilePos> = Vec::new();
        path.push(self.outer().tile_pos());
        path.push(self.inner().tile_pos());
        path
    }

    /// The tile at `inner` on the inner board at `outer`.
    #[verifier::when_used_as_spec(spec_from_parts)]
    pub fn from_parts(outer: OuterPos, inner: InnerPos) -> (r: Self)
        ensures
            r == Self::spec_from_parts(outer, inner),
            r.spec_x() == outer.spec_x() * 3 + inner.spec_x(),
            r.spec_y() == outer.spec_y() * 3 + inner.spec_y(),
            r.spec_outer() == outer,
            r.spec_inner() == inner,
    {
        proof {
            use_type_invariant(&outer);
            use_type_invariant(&inner);
            Self::lemma_join_then_split(outer, inner);
        }
        Self::new(outer.x() * 3 + inner.x(), outer.y() * 3 + inner.y())
    }
}

impl From<(OuterPos, InnerPos)> for GlobalPos {
    fn from(parts: (OuterPos, InnerPos)) -> (r: Self) {
        GlobalPos::from_parts(parts.0, parts.1)
    }
}

impl vstd::std_specs::convert::FromSpecImpl<(OuterPos, InnerPos)> for GlobalPos {
    open spec fn obeys_from_spec() -> bool {
        true
    }

    open spec fn from_spec(parts: (OuterPos, InnerPos)) -> Self {
        GlobalPos::spec_from_parts(parts.0, parts.1)
    }
}

impl From<GlobalPos> for OuterPos {
    fn from(global: GlobalPos) -> (r: Self) {
        global.outer()
    }
}

impl vstd::std_specs::convert::FromSpecImpl<GlobalPos> for OuterPos {
    open spec fn obeys_from_spec() -> bool {
        true
    }

    open spec fn from_spec(global: GlobalPos) -> Self {
        global.spec_outer()
    }
}

impl From<GlobalPos> for InnerPos {
    fn from(global: GlobalPos) -> (r: Self) {
        global.inner()
    }
}

impl vstd::std_specs::convert::FromSpecImpl<GlobalPos> for InnerPos {
    open spec fn obeys_from_spec() -> bool {
        true
    }

    open spec fn from_spec(global: GlobalPos) -> Self {
        global.spec_inner()
    }
}

impl From<OuterPos> for TilePos {
    fn from(outer: OuterPos) -> (r: Self) {
        outer.tile_pos()
    }
}

impl vstd::std_specs::convert::FromSpecImpl<OuterPos> for TilePos {
    open spec fn obeys_from_spec() -> bool {
        true
    }

    open spec fn from_spec(outer: OuterPos) -> Self {
        outer.spec_tile_pos()
    }
}

impl From<InnerPos> for TilePos {
    fn from(inner: InnerPos) -> (r: Self) {
        inner.tile_pos()
    }
}

impl vstd::std_specs::convert::FromSpecImpl<InnerPos> for TilePos {
    open spec fn obeys_from_spec() -> bool {
        true
    }

    open spec fn from_spec(inner: InnerPos) -> Self {
        inner.spec_tile_pos()
    }
}

} // verus!
