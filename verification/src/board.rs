//! Boards and the outcomes derived from their cells.
//!
//! A board holds nine cells and remembers the outcome of each of its eight
//! lines and its own outcome. Both are functions of the outcomes of the
//! cells: after a cell has changed, the lines through it are combined anew
//! and the outcome of the board is derived from them.

use crate::line::LineType;
use crate::player::PlayerSymbol;
use crate::pos::{GlobalPos, InnerPos, OuterPos, TilePos};
use crate::state::TileBoardState;
use crate::tile::{TileStates, TileTrait, TrivialTileState};
use vstd::prelude::*;

verus! {

/// Why a symbol could not be placed.
#[derive(Debug, Clone, Copy, PartialEq, Eq, Structural)]
pub enum PlaceSymbolError {
    /// A board on the way to the tile is already won or drawn.
    BoardNotPlaceable,
    /// The tile is already taken.
    TrivialTileNotFree,
}

/// The outcome of `line` on a board whose cells have the outcomes `cells`:
/// the outcomes of its three cells combined in the order of the line.
pub open spec fn line_outcome(cells: Seq<TileBoardState>, line: LineType) -> TileBoardState {
    TileBoardState::fold_line(
        cells[line.tile_idx(0)],
        cells[line.tile_idx(1)],
        cells[line.tile_idx(2)],
    )
}

/// Whether some line of the board is won by `player`.
pub open spec fn has_won_line(cells: Seq<TileBoardState>, player: PlayerSymbol) -> bool {
    exists|line: LineType|
        line.is_valid() && #[trigger] line_outcome(cells, line) == TileBoardState::Won(player)
}

/// Whether none of the nine cells is free.
pub open spec fn all_occupied(cells: Seq<TileBoardState>) -> bool {
    forall|i: int| 0 <= i < 9 ==> !((#[trigger] cells[i]) is Free)
}

/// The outcome of a board whose cells have the outcomes `cells`: won by a
/// player who holds a line; else drawn if no cell is free; else free.
///
/// Play never leaves both players with a line, since a decided board takes
/// no symbol (see [`lemma_one_winner`]); for cells that play cannot bring
/// about, `X` is named where both hold one.
pub open spec fn board_outcome(cells: Seq<TileBoardState>) -> TileBoardState {
    if has_won_line(cells, PlayerSymbol::X) {
        TileBoardState::Won(PlayerSymbol::X)
    } else if has_won_line(cells, PlayerSymbol::O) {
        TileBoardState::Won(PlayerSymbol::O)
    } else if all_occupied(cells) {
        TileBoardState::Drawn
    } else {
        TileBoardState::Free
    }
}

/// A line is won by a player exactly if the player holds its three cells.
pub proof fn lemma_line_outcome_won(cells: Seq<TileBoardState>, line: LineType, p: PlayerSymbol)
    ensures
        line_outcome(cells, line) == TileBoardState::Won(p) <==> (forall|k: int|
            0 <= k < 3 ==> cells[#[trigger] line.tile_idx(k)] == TileBoardState::Won(p)),
{
    TileBoardState::lemma_fold_line(
        cells[line.tile_idx(0)],
        cells[line.tile_idx(1)],
        cells[line.tile_idx(2)],
    );
    if line_outcome(cells, line) == TileBoardState::Won(p) {
        assert forall|k: int| 0 <= k < 3 implies cells[#[trigger] line.tile_idx(k)]
            == TileBoardState::Won(p) by {
            assert(k == 0 || k == 1 || k == 2);
        }
    }
    if forall|k: int| 0 <= k < 3 ==> cells[#[trigger] line.tile_idx(k)] == TileBoardState::Won(p) {
        assert(cells[line.tile_idx(0)] == TileBoardState::Won(p));
        assert(cells[line.tile_idx(1)] == TileBoardState::Won(p));
        assert(cells[line.tile_idx(2)] == TileBoardState::Won(p));
    }
}

/// Win before draw: a board with a line held by one player is won, also
/// when none of its cells is free.
pub proof fn lemma_win_before_draw(cells: Seq<TileBoardState>, line: LineType, p: PlayerSymbol)
    requires
        line.is_valid(),
        forall|k: int| 0 <= k < 3 ==> cells[#[trigger] line.tile_idx(k)] == TileBoardState::Won(p),
    ensures
        board_outcome(cells) is Won,
        !(board_outcome(cells) is Drawn),
{
    lemma_line_outcome_won(cells, line, p);
    assert(has_won_line(cells, p));
}

/// A board is drawn exactly if none of its cells is free and no line is
/// won, and then every one of its lines is drawn.
pub proof fn lemma_drawn_board(cells: Seq<TileBoardState>)
    requires
        cells.len() == 9,
    ensures
        board_outcome(cells) is Drawn <==> all_occupied(cells) && !has_won_line(
            cells,
            PlayerSymbol::X,
        ) && !has_won_line(cells, PlayerSymbol::O),
        board_outcome(cells) is Drawn ==> (forall|line: LineType|
            line.is_valid() ==> #[trigger] line_outcome(cells, line) is Drawn),
        board_outcome(cells) is Free ==> exists|i: int| 0 <= i < 9 && cells[i] is Free,
{
    if board_outcome(cells) is Drawn {
        assert forall|line: LineType| line.is_valid() implies #[trigger] line_outcome(
            cells,
            line,
        ) is Drawn by {
            line.lemma_tile(0);
            line.lemma_tile(1);
            line.lemma_tile(2);
            let a = cells[line.tile_idx(0)];
            let b = cells[line.tile_idx(1)];
            let c = cells[line.tile_idx(2)];
            TileBoardState::lemma_fold_line(a, b, c);
            match line_outcome(cells, line) {
                TileBoardState::Won(p) => {
                    assert(has_won_line(cells, p));
                },
                _ => {},
            }
        }
    }
}

/// The outcomes of the eight lines of a board, found by line.
#[derive(Debug)]
pub struct LineStates(pub(crate) [TileBoardState; 8]);

impl View for LineStates {
    type V = Seq<TileBoardState>;

    /// The eight outcomes by line number.
    closed spec fn view(&self) -> Seq<TileBoardState> {
        self.0@
    }
}

impl LineStates {
    /// There are eight lines.
    pub proof fn lemma_len(&self)
        ensures
            self@.len() == 8,
    {
    }

    /// Eight free lines.
    pub fn new() -> (r: Self)
        ensures
            r@ == Seq::new(8, |i: int| TileBoardState::Free),
    {
        let states = LineStates(
            [
                TileBoardState::Free,
                TileBoardState::Free,
                TileBoardState::Free,
                TileBoardState::Free,
                TileBoardState::Free,
                TileBoardState::Free,
                TileBoardState::Free,
                TileBoardState::Free,
            ],
        );
        assert(states@ =~= Seq::new(8, |i: int| TileBoardState::Free));
        states
    }

    /// The outcome kept for `line`.
    pub fn get(&self, line: LineType) -> (r: TileBoardState)
        requires
            line.is_valid(),
        ensures
            r == self@[line.spec_idx() as int],
    {
        self.0[line.idx()]
    }

    /// Keeps `state` as the outcome of `line`.
    pub fn set(&mut self, line: LineType, state: TileBoardState)
        requires
            line.is_valid(),
        ensures
            final(self)@ == old(self)@.update(line.spec_idx() as int, state),
    {
        self.0[line.idx()] = state;
    }
}

/// A board of nine cells with the outcomes derived from them.
#[derive(Debug)]
pub struct GenericBoard<TileType: TileTrait> {
    /// The cells.
    tile_states: TileStates<TileType>,
    /// The outcome of each line, derived from the cells.
    line_states: LineStates,
    /// The outcome of the board, derived from the cells.
    board_state: TileBoardState,
}

impl<TileType: TileTrait> View for GenericBoard<TileType> {
    type V = Seq<TileType>;

    /// The nine cells by row-major index.
    closed spec fn view(&self) -> Seq<TileType> {
        self.tile_states@
    }
}

impl<TileType: TileTrait> GenericBoard<TileType> {
    /// A board has nine cells.
    pub proof fn lemma_len(&self)
        ensures
            self@.len() == 9,
    {
        self.tile_states.lemma_len();
    }

    /// The outcomes of the nine cells by row-major index.
    pub open spec fn cells(&self) -> Seq<TileBoardState> {
        Seq::new(9, |i: int| self@[i].spec_tile_state())
    }

    /// The outcomes that the board remembers for its lines.
    pub closed spec fn spec_line_states(&self) -> Seq<TileBoardState> {
        self.line_states@
    }

    /// The outcome that the board remembers for itself.
    pub closed spec fn spec_board_state(&self) -> TileBoardState {
        self.board_state
    }

    /// Every cell is consistent in itself.
    pub open spec fn tiles_wf(&self) -> bool {
        forall|i: int| 0 <= i < 9 ==> (#[trigger] self@[i]).tile_wf()
    }

    /// Every cell is consistent in itself, and what the board remembers of
    /// its lines and of itself is what its cells give.
    pub open spec fn wf(&self) -> bool {
        &&& self@.len() == 9
        &&& self.tiles_wf()
        &&& self.spec_line_states().len() == 8
        &&& forall|line: LineType|
            line.is_valid() ==> self.spec_line_states()[line.spec_idx() as int] == #[trigger] line_outcome(
                self.cells(),
                line,
            )
        &&& self.spec_board_state() == board_outcome(self.cells())
    }

    /// What the board remembers is right for a board that was free before
    /// the cell at `pos` changed: no line beside `pos` is won, and each of
    /// them is remembered with its outcome.
    spec fn wf_beside(&self, pos: TilePos) -> bool {
        &&& self.tiles_wf()
        &&& self.board_state is Free
        &&& forall|line: LineType|
            line.is_valid() && !line.contains(pos) ==> self.line_states@[line.spec_idx() as int]
                == #[trigger] line_outcome(self.cells(), line) && !(line_outcome(
                self.cells(),
                line,
            ) is Won)
    }

    /// Two consistent boards with the same cells are the same board.
    pub proof fn lemma_wf_same_cells(&self, other: &Self)
        requires
            self.wf(),
            other.wf(),
            self@ == other@,
        ensures
            *self == *other,
    {
        assert(self.cells() =~= other.cells());
        assert forall|i: int| 0 <= i < 8 implies self.line_states@[i] == other.line_states@[i] by {
            let line = LineType::spec_from_idx(i as usize);
            LineType::lemma_from_idx(i as usize);
            assert(self.line_states@[line.spec_idx() as int] == line_outcome(self.cells(), line));
            assert(other.line_states@[line.spec_idx() as int] == line_outcome(other.cells(), line));
        }
        assert(self.line_states@ =~= other.line_states@);
        assert(self.line_states.0 =~= other.line_states.0);
        self.tile_states.lemma_same_cells(&other.tile_states);
    }

    /// The cell at `pos`.
    pub fn tile_state(&self, pos: TilePos) -> (r: &TileType)
        ensures
            *r == self@[pos.spec_linear_idx() as int],
    {
        self.tile_states.get(pos)
    }

    /// The outcome of `line`.
    pub fn line_state(&self, line: LineType) -> (r: TileBoardState)
        requires
            self.wf(),
            line.is_valid(),
        ensures
            r == line_outcome(self.cells(), line),
    {
        self.line_states.get(line)
    }

    /// The outcome of the board.
    pub fn board_state(&self) -> (r: TileBoardState)
        requires
            self.wf(),
        ensures
            r == board_outcome(self.cells()),
            r == self.spec_board_state(),
    {
        self.board_state
    }

    /// Whether the board is still open to moves.
    pub fn is_free(&self) -> (r: bool)
        requires
            self.wf(),
        ensures
            r == board_outcome(self.cells()).spec_is_free(),
    {
        self.board_state.is_free()
    }

    /// Combines the outcomes of the cells of `line`.
    fn combined_line_state(&self, line: LineType) -> (r: TileBoardState)
        requires
            line.is_valid(),
        ensures
            r == line_outcome(self.cells(), line),
    {
        let ghost cells = self.cells();
        let mut walk = line.iter();
        let mut combined: Option<TileBoardState> = None;
        proof {
            self.tile_states.lemma_len();
        }
        loop
            invariant
                line.is_valid(),
                cells == self.cells(),
                self@.len() == 9,
                walk.line_type() == line,
                walk@.len() <= 3,
                walk@ == line.tiles().skip(3 - walk@.len()),
                walk@.len() == 3 ==> combined is None,
                walk@.len() == 2 ==> combined == Some(cells[line.tile_idx(0)]),
                walk@.len() == 1 ==> combined == Some(
                    cells[line.tile_idx(0)].spec_combine(cells[line.tile_idx(1)]),
                ),
                walk@.len() == 0 ==> combined == Some(line_outcome(cells, line)),
            ensures
                combined == Some(line_outcome(cells, line)),
            decreases walk@.len(),
        {
            let ghost k = 3 - walk@.len();
            let ghost before = walk@;
            match walk.next() {
                None => {
                    break ;
                },
                Some(pos) => {
                    proof {
                        line.lemma_tile(k);
                        assert(before[0] == line.tiles()[k]);
                        assert(pos == line.tile(k));
                        assert(walk@ =~= line.tiles().skip(3 - walk@.len()));
                    }
                    let state = self.tile_states.get(pos).tile_state();
                    assert(state == cells[line.tile_idx(k)]);
                    combined =
                    match combined {
                        None => Some(state),
                        Some(so_far) => Some(so_far.combine(state)),
                    };
                },
            }
        }
        combined.unwrap()
    }

    /// Whether none of the cells is free.
    fn all_tiles_occupied(&self) -> (r: bool)
        ensures
            r == all_occupied(self.cells()),
    {
        proof {
            self.tile_states.lemma_len();
        }
        let mut i: usize = 0;
        while i < 9
            invariant
                i <= 9,
                self@.len() == 9,
                forall|j: int| 0 <= j < i ==> !((#[trigger] self.cells()[j]) is Free),
            decreases 9 - i,
        {
            let pos = TilePos::from_linear_idx(i);
            if self.tile_states.get(pos).tile_state().is_free() {
                assert(self.cells()[i as int] is Free);
                return false;
            }
            i += 1;
        }
        true
    }

    /// Derives anew what the board remembers, after the cell at `local_pos`
    /// of a board that was free has changed: the lines through the cell are
    /// combined again, the board is won if one of them is, and drawn if
    /// none is and no cell is free.
    fn update_super_states(&mut self, local_pos: TilePos)
        requires
            old(self).wf_beside(local_pos),
        ensures
            final(self)@ == old(self)@,
            final(self).wf(),
    {
        proof {
            use_type_invariant(&local_pos);
            self.tile_states.lemma_len();
            self.line_states.lemma_len();
        }
        let ghost cells = self.cells();
        let ghost states_before = self.line_states@;
        let lines = LineType::all_through_point(local_pos);
        let mut i: usize = 0;
        while i < lines.len()
            invariant
                i <= lines.len(),
                forall|j: int| 0 <= j < lines.len() ==> (#[trigger] lines[j]).is_valid(),
                self@ == old(self)@,
                cells == self.cells(),
                self.line_states@ == refreshed_lines(states_before, cells, lines@, i as int),
                self.board_state == won_among(cells, lines@, i as int),
            decreases lines.len() - i,
        {
            let line = lines[i];
            let line_state = self.combined_line_state(line);
            self.line_states.set(line, line_state);
            if let Some(p) = line_state.winner() {
                self.board_state = TileBoardState::Won(p);
            }
            i += 1;
        }
        if self.board_state.is_free() && self.all_tiles_occupied() {
            self.board_state = TileBoardState::Drawn;
        }
        proof {
            lemma_refreshed(states_before, cells, local_pos);
        }
    }
}

/// What a board remembers of its lines after the first `n` of `lines` were
/// combined anew from `cells`.
spec fn refreshed_lines(
    states: Seq<TileBoardState>,
    cells: Seq<TileBoardState>,
    lines: Seq<LineType>,
    n: int,
) -> Seq<TileBoardState>
    decreases n,
{
    if n <= 0 {
        states
    } else {
        refreshed_lines(states, cells, lines, n - 1).update(
            lines[n - 1].spec_idx() as int,
            line_outcome(cells, lines[n - 1]),
        )
    }
}

/// The outcome of the last won line among the first `n` of `lines`, or free
/// if none of them is won.
spec fn won_among(cells: Seq<TileBoardState>, lines: Seq<LineType>, n: int) -> TileBoardState
    decreases n,
{
    if n <= 0 {
        TileBoardState::Free
    } else if line_outcome(cells, lines[n - 1]) is Won {
        line_outcome(cells, lines[n - 1])
    } else {
        won_among(cells, lines, n - 1)
    }
}

/// If a line through `pos` is won by `p`, then `p` holds the cell at `pos`.
proof fn lemma_won_line_holds(
    cells: Seq<TileBoardState>,
    line: LineType,
    pos: TilePos,
    p: PlayerSymbol,
)
    requires
        line.is_valid(),
        pos.is_valid(),
        line.contains(pos),
        line_outcome(cells, line) == TileBoardState::Won(p),
    ensures
        cells[pos.spec_linear_idx() as int] == TileBoardState::Won(p),
{
    lemma_line_outcome_won(cells, line, p);
    line.lemma_contains(pos);
    let k = choose|k: int| 0 <= k < 3 && line.tile_idx(k) == pos.spec_linear_idx();
    assert(cells[line.tile_idx(k)] == TileBoardState::Won(p));
}

/// Combining anew the lines through a cell is enough after that cell has
/// changed on a board that was free: every line is then remembered with its
/// outcome, and the board is won by the player of a won line through the
/// cell, if there is one, and else drawn or free as its cells are all
/// occupied or not.
proof fn lemma_refreshed(
    states: Seq<TileBoardState>,
    cells: Seq<TileBoardState>,
    pos: TilePos,
)
    requires
        pos.is_valid(),
        cells.len() == 9,
        states.len() == 8,
        forall|line: LineType|
            line.is_valid() && !line.contains(pos) ==> states[line.spec_idx() as int]
                == #[trigger] line_outcome(cells, line) && !(line_outcome(cells, line) is Won),
    ensures
        ({
            let lines = LineType::spec_all_through_point(pos);
            let refreshed = refreshed_lines(states, cells, lines, lines.len() as int);
            let won = won_among(cells, lines, lines.len() as int);
            &&& refreshed.len() == 8
            &&& won is Free || won is Won
            &&& forall|line: LineType|
                line.is_valid() ==> refreshed[line.spec_idx() as int] == #[trigger] line_outcome(
                    cells,
                    line,
                )
            &&& board_outcome(cells) == if won is Won {
                won
            } else if all_occupied(cells) {
                TileBoardState::Drawn
            } else {
                TileBoardState::Free
            }
        }),
{
    let lines = LineType::spec_all_through_point(pos);
    let n = lines.len() as int;
    let refreshed = refreshed_lines(states, cells, lines, n);
    let won = won_among(cells, lines, n);
    LineType::lemma_all_through_point(pos);
    lemma_refreshed_lines(states, cells, lines, n);
    lemma_won_among(cells, lines, n);
    assert forall|line: LineType| line.is_valid() implies refreshed[line.spec_idx() as int]
        == #[trigger] line_outcome(cells, line) by {
        if line.contains(pos) {
            assert(lines.contains(line));
        } else {
            assert forall|j: int| 0 <= j < n implies (#[trigger] lines[j]).spec_idx()
                != line.spec_idx() by {
                assert(lines.contains(lines[j]));
                lines[j].lemma_idx();
                line.lemma_idx();
            }
        }
    }
    // Every won line passes through the cell, so all of them are won by the
    // player who holds the cell, and so is the one that was seen last.
    assert forall|line: LineType|
        line.is_valid() && (#[trigger] line_outcome(cells, line)) is Won implies won
        == line_outcome(cells, line) by {
        assert(line.contains(pos));
        assert(lines.contains(line));
        let j = choose|j: int| 0 <= j < n && lines[j] == line;
        assert(won is Won);
        let j2 = choose|j2: int| 0 <= j2 < n && won == line_outcome(cells, #[trigger] lines[j2]);
        assert(lines.contains(lines[j2]));
        lemma_won_line_holds(cells, line, pos, line_outcome(cells, line)->Won_0);
        lemma_won_line_holds(cells, lines[j2], pos, won->Won_0);
    }
    if won is Won {
        let j = choose|j: int| 0 <= j < n && won == line_outcome(cells, #[trigger] lines[j]);
        assert(lines.contains(lines[j]));
        assert(has_won_line(cells, won->Won_0));
    }
}

/// Of the lines combined anew, each is remembered with its outcome, and the
/// others are remembered as before.
proof fn lemma_refreshed_lines(
    states: Seq<TileBoardState>,
    cells: Seq<TileBoardState>,
    lines: Seq<LineType>,
    n: int,
)
    requires
        0 <= n <= lines.len(),
        states.len() == 8,
        forall|j: int| 0 <= j < lines.len() ==> (#[trigger] lines[j]).is_valid(),
    ensures
        refreshed_lines(states, cells, lines, n).len() == 8,
        forall|j: int|
            0 <= j < n ==> refreshed_lines(states, cells, lines, n)[(#[trigger] lines[j]).spec_idx() as int]
                == line_outcome(cells, lines[j]),
        forall|k: int|
            0 <= k < 8 && (forall|j: int| 0 <= j < n ==> (#[trigger] lines[j]).spec_idx() != k)
                ==> #[trigger] refreshed_lines(states, cells, lines, n)[k] == states[k],
    decreases n,
{
    if n > 0 {
        lemma_refreshed_lines(states, cells, lines, n - 1);
        let before = refreshed_lines(states, cells, lines, n - 1);
        let last = lines[n - 1];
        assert(last.is_valid());
        assert forall|j: int| 0 <= j < n implies refreshed_lines(states, cells, lines, n)[(
        #[trigger] lines[j]).spec_idx() as int] == line_outcome(cells, lines[j]) by {
            assert(lines[j].is_valid());
            if lines[j].spec_idx() == last.spec_idx() {
                lines[j].lemma_idx();
                last.lemma_idx();
            }
        }
    }
}

/// The outcome that `won_among` finds is that of one of the lines, and it is
/// free only if none of them is won.
proof fn lemma_won_among(cells: Seq<TileBoardState>, lines: Seq<LineType>, n: int)
    requires
        0 <= n <= lines.len(),
    ensures
        won_among(cells, lines, n) is Free || won_among(cells, lines, n) is Won,
        won_among(cells, lines, n) is Won ==> exists|j: int|
            0 <= j < n && won_among(cells, lines, n) == line_outcome(cells, #[trigger] lines[j]),
        won_among(cells, lines, n) is Free ==> forall|j: int|
            0 <= j < n ==> !(line_outcome(cells, #[trigger] lines[j]) is Won),
    decreases n,
{
    if n > 0 {
        lemma_won_among(cells, lines, n - 1);
        if !(line_outcome(cells, lines[n - 1]) is Won) {
            if won_among(cells, lines, n) is Won {
                let j = choose|j: int|
                    0 <= j < n - 1 && won_among(cells, lines, n - 1) == line_outcome(
                        cells,
                        #[trigger] lines[j],
                    );
                assert(0 <= j < n && won_among(cells, lines, n) == line_outcome(cells, lines[j]));
            }
        }
    }
}

impl<TileType: TileTrait> TileTrait for GenericBoard<TileType> {
    open spec fn tile_wf(&self) -> bool {
        self.wf()
    }

    open spec fn spec_tile_state(&self) -> TileBoardState {
        self.spec_board_state()
    }

    fn tile_state(&self) -> (r: TileBoardState) {
        self.board_state
    }
}

/// Changing one cell of a free board leaves the lines beside the cell as
/// they were, and none of them is won.
pub proof fn lemma_lines_beside(
    before: Seq<TileBoardState>,
    after: Seq<TileBoardState>,
    pos: TilePos,
)
    requires
        pos.is_valid(),
        before.len() == 9,
        after.len() == 9,
        board_outcome(before) is Free,
        forall|i: int| 0 <= i < 9 && i != pos.spec_linear_idx() ==> after[i] == before[i],
    ensures
        forall|line: LineType|
            line.is_valid() && !line.contains(pos) ==> #[trigger] line_outcome(after, line)
                == line_outcome(before, line) && !(line_outcome(after, line) is Won),
{
    assert forall|line: LineType| line.is_valid() && !line.contains(pos) implies #[trigger] line_outcome(
        after,
        line,
    ) == line_outcome(before, line) && !(line_outcome(after, line) is Won) by {
        line.lemma_contains(pos);
        line.lemma_tile(0);
        line.lemma_tile(1);
        line.lemma_tile(2);
        match line_outcome(before, line) {
            TileBoardState::Won(p) => {
                assert(has_won_line(before, p));
            },
            _ => {},
        }
    }
}

/// After one cell of a free board has changed, at most one player holds a
/// line: every won line passes through the cell, and so is won by the player
/// who holds it.
pub proof fn lemma_one_winner(before: Seq<TileBoardState>, after: Seq<TileBoardState>, pos: TilePos)
    requires
        pos.is_valid(),
        before.len() == 9,
        after.len() == 9,
        board_outcome(before) is Free,
        forall|i: int| 0 <= i < 9 && i != pos.spec_linear_idx() ==> after[i] == before[i],
    ensures
        !(has_won_line(after, PlayerSymbol::X) && has_won_line(after, PlayerSymbol::O)),
        forall|p: PlayerSymbol|
            has_won_line(after, p) ==> after[pos.spec_linear_idx() as int] == TileBoardState::Won(p),
{
    lemma_lines_beside(before, after, pos);
    assert forall|p: PlayerSymbol| has_won_line(after, p) implies after[pos.spec_linear_idx() as int]
        == TileBoardState::Won(p) by {
        let line = choose|line: LineType|
            line.is_valid() && #[trigger] line_outcome(after, line) == TileBoardState::Won(p);
        assert(line.contains(pos));
        lemma_won_line_holds(after, line, pos, p);
    }
}

/// An inner board: a board of tiles.
pub type TrivialBoard = GenericBoard<TrivialTileState>;

/// An inner board: a board of tiles.
pub type InnerBoard = TrivialBoard;

/// The outer board: a board of inner boards.
pub type OuterBoard = GenericBoard<InnerBoard>;

impl GenericBoard<TrivialTileState> {
    /// The outcomes of nine tiles.
    pub open spec fn tile_outcomes(tiles: Seq<TrivialTileState>) -> Seq<TileBoardState> {
        Seq::new(9, |i: int| tiles[i].spec_state())
    }

    /// The outcome of a board with the given tiles.
    pub open spec fn outcome_of(tiles: Seq<TrivialTileState>) -> TileBoardState {
        board_outcome(Self::tile_outcomes(tiles))
    }

    /// Why a symbol cannot be placed at `pos` on a board with the given
    /// tiles, if it cannot: the board is decided, or else the tile is taken.
    pub open spec fn place_error(tiles: Seq<TrivialTileState>, pos: InnerPos) -> Option<
        PlaceSymbolError,
    > {
        if Self::outcome_of(tiles).spec_is_decided() {
            Some(PlaceSymbolError::BoardNotPlaceable)
        } else if tiles[pos.spec_linear_idx() as int] is Won {
            Some(PlaceSymbolError::TrivialTileNotFree)
        } else {
            None
        }
    }

    /// The tiles after an attempt to place `symbol` at `pos`: the tile is
    /// taken where nothing stands against it, and nothing changes otherwise.
    pub open spec fn placed(
        tiles: Seq<TrivialTileState>,
        pos: InnerPos,
        symbol: PlayerSymbol,
    ) -> Seq<TrivialTileState> {
        if Self::place_error(tiles, pos) is None {
            tiles.update(pos.spec_linear_idx() as int, TrivialTileState::Won(symbol))
        } else {
            tiles
        }
    }

    /// The tiles after one attempt for each of `moves`, in order.
    pub open spec fn placed_all(
        tiles: Seq<TrivialTileState>,
        moves: Seq<(InnerPos, PlayerSymbol)>,
    ) -> Seq<TrivialTileState>
        decreases moves.len(),
    {
        if moves.len() == 0 {
            tiles
        } else {
            Self::placed(Self::placed_all(tiles, moves.drop_last()), moves.last().0, moves.last().1)
        }
    }

    /// The outcomes of the cells of an inner board are the outcomes of its
    /// tiles.
    pub proof fn lemma_cells(&self)
        ensures
            self.cells() == Self::tile_outcomes(self@),
            board_outcome(self.cells()) == Self::outcome_of(self@),
    {
        assert(self.cells() =~= Self::tile_outcomes(self@));
    }

    /// A tile is taken once: no attempt changes a tile that is taken, and an
    /// attempt changes no tile but the one it is made on.
    pub proof fn lemma_taken_tile_is_final(
        tiles: Seq<TrivialTileState>,
        pos: InnerPos,
        symbol: PlayerSymbol,
        i: int,
    )
        requires
            tiles.len() == 9,
            pos.is_valid(),
            0 <= i < 9,
            tiles[i] is Won || i != pos.spec_linear_idx(),
        ensures
            Self::placed(tiles, pos, symbol)[i] == tiles[i],
            Self::placed(tiles, pos, symbol).len() == tiles.len(),
    {
    }

    /// A decided board is final: whatever is tried on it, and however often,
    /// is refused because the board is decided, and leaves every tile, and
    /// so the outcome, as it was.
    pub proof fn lemma_decided_is_final(
        tiles: Seq<TrivialTileState>,
        moves: Seq<(InnerPos, PlayerSymbol)>,
    )
        requires
            Self::outcome_of(tiles).spec_is_decided(),
        ensures
            Self::placed_all(tiles, moves) == tiles,
            Self::outcome_of(Self::placed_all(tiles, moves)) == Self::outcome_of(tiles),
            forall|k: int|
                0 <= k < moves.len() ==> Self::place_error(
                    #[trigger] Self::placed_all(tiles, moves.take(k)),
                    moves[k].0,
                ) == Some(PlaceSymbolError::BoardNotPlaceable),
        decreases moves.len(),
    {
        if moves.len() > 0 {
            Self::lemma_decided_is_final(tiles, moves.drop_last());
        }
        assert forall|k: int| 0 <= k < moves.len() implies Self::place_error(
            #[trigger] Self::placed_all(tiles, moves.take(k)),
            moves[k].0,
        ) == Some(PlaceSymbolError::BoardNotPlaceable) by {
            Self::lemma_decided_is_final(tiles, moves.take(k));
        }
    }

    /// A board of nine free tiles.
    pub fn new() -> (r: Self)
        ensures
            r.wf(),
            r@ == Seq::new(9, |i: int| TrivialTileState::Free),
            Self::outcome_of(r@) is Free,
            r.spec_tile_state() is Free,
    {
        let board = GenericBoard {
            tile_states: TileStates::new(
                [
                    TrivialTileState::Free,
                    TrivialTileState::Free,
                    TrivialTileState::Free,
                    TrivialTileState::Free,
                    TrivialTileState::Free,
                    TrivialTileState::Free,
                    TrivialTileState::Free,
                    TrivialTileState::Free,
                    TrivialTileState::Free,
                ],
            ),
            line_states: LineStates::new(),
            board_state: TileBoardState::Free,
        };
        proof {
            assert(board@ =~= Seq::new(9, |i: int| TrivialTileState::Free));
            lemma_free_cells(board.cells());
            board.lemma_cells();
        }
        board
    }

    /// The positions of the free tiles, in row-major order.
    pub fn free_tiles(&self) -> (r: Vec<InnerPos>)
        ensures
            forall|k: int| 0 <= k < r.len() ==> (#[trigger] r[k]).is_valid() && self@[r[k].spec_linear_idx() as int] is Free,
            forall|j: int, k: int|
                0 <= j < k < r.len() ==> r[j].spec_linear_idx() < r[k].spec_linear_idx(),
            forall|pos: InnerPos|
                pos.is_valid() && self@[pos.spec_linear_idx() as int] is Free ==> r@.contains(pos),
    {
        proof {
            self.tile_states.lemma_len();
        }
        let mut free: Vec<InnerPos> = Vec::new();
        let mut i: usize = 0;
        while i < 9
            invariant
                i <= 9,
                self@.len() == 9,
                forall|k: int|
                    0 <= k < free.len() ==> (#[trigger] free[k]).is_valid() && free[k].spec_linear_idx()
                        < i && self@[free[k].spec_linear_idx() as int] is Free,
                forall|j: int, k: int|
                    0 <= j < k < free.len() ==> free[j].spec_linear_idx() < free[k].spec_linear_idx(),
                forall|pos: InnerPos|
                    pos.is_valid() && pos.spec_linear_idx() < i && self@[pos.spec_linear_idx() as int] is Free
                        ==> free@.contains(pos),
            decreases 9 - i,
        {
            let pos = InnerPos::from_linear_idx(i);
            proof {
                InnerPos::lemma_from_linear_idx(i);
            }
            let ghost before = free@;
            if self.tile_states.get(pos.tile_pos()).is_free() {
                free.push(pos);
            }
            proof {
                assert forall|other: InnerPos|
                    other.is_valid() && other.spec_linear_idx() < i + 1 && self@[other.spec_linear_idx() as int] is Free
                    implies free@.contains(other) by {
                    if other.spec_linear_idx() < i {
                        assert(before.contains(other));
                        let k = choose|k: int| 0 <= k < before.len() && before[k] == other;
                        assert(free@[k] == other);
                    } else {
                        other.lemma_linear_idx();
                        assert(other == pos);
                        assert(free@[free.len() - 1] == other);
                    }
                }
            }
            i += 1;
        }
        free
    }

    /// The tile at `pos`.
    pub fn trivial_tile(&self, pos: InnerPos) -> (r: TrivialTileState)
        ensures
            r == self@[pos.spec_linear_idx() as int],
    {
        *self.tile_states.get(pos.tile_pos())
    }

    /// Whether a symbol can be placed at `pos`: the board is not decided and
    /// the tile is free.
    pub fn could_place_symbol(&self, pos: InnerPos) -> (r: bool)
        requires
            self.wf(),
        ensures
            r == (Self::place_error(self@, pos) is None),
    {
        proof {
            self.lemma_cells();
        }
        self.board_state.is_placeable() && self.tile_states.get(pos.tile_pos()).is_free()
    }

    /// Places `symbol` at `pos` and derives the outcomes anew, unless the
    /// board is decided or the tile is taken; then nothing changes.
    pub fn try_place_symbol(&mut self, pos: InnerPos, symbol: PlayerSymbol) -> (r: Result<
        (),
        PlaceSymbolError,
    >)
        requires
            old(self).wf(),
        ensures
            final(self).wf(),
            final(self)@ == Self::placed(old(self)@, pos, symbol),
            match Self::place_error(old(self)@, pos) {
                None => r is Ok,
                Some(e) => r == Err::<(), PlaceSymbolError>(e),
            },
            r is Err ==> *final(self) == *old(self),
    {
        proof {
            use_type_invariant(&pos);
            self.lemma_cells();
            self.tile_states.lemma_len();
        }
        if !self.board_state.is_placeable() {
            return Err(PlaceSymbolError::BoardNotPlaceable);
        }
        let local_pos = pos.tile_pos();
        let ghost cells_before = self.cells();
        match self.tile_states.get_mut(local_pos).try_place_symbol_in_tile(symbol) {
            Err(e) => {
                proof {
                    assert(self.tile_states@ =~= old(self).tile_states@);
                    self.tile_states.lemma_same_cells(&old(self).tile_states);
                }
                Err(e)
            },
            Ok(()) => {
                proof {
                    lemma_lines_beside(cells_before, self.cells(), local_pos);
                }
                self.update_super_states(local_pos);
                Ok(())
            },
        }
    }
    /// Places `symbol` at `pos`, where a symbol can be placed.
    pub fn place_symbol(&mut self, pos: InnerPos, symbol: PlayerSymbol)
        requires
            old(self).wf(),
            Self::place_error(old(self)@, pos) is None,
        ensures
            final(self).wf(),
            final(self)@ == old(self)@.update(
                pos.spec_linear_idx() as int,
                TrivialTileState::Won(symbol),
            ),
    {
        let _ = self.try_place_symbol(pos, symbol);
    }
}

impl Default for GenericBoard<TrivialTileState> {
    fn default() -> (r: Self)
        ensures
            r.wf(),
            r@ == Seq::new(9, |i: int| TrivialTileState::Free),
    {
        Self::new()
    }
}

/// A board with nine free cells has eight free lines and is free.
pub proof fn lemma_free_cells(cells: Seq<TileBoardState>)
    requires
        cells.len() == 9,
        forall|i: int| 0 <= i < 9 ==> (#[trigger] cells[i]) is Free,
    ensures
        forall|line: LineType| line.is_valid() ==> (#[trigger] line_outcome(cells, line)) is Free,
        board_outcome(cells) is Free,
{
    assert forall|line: LineType| line.is_valid() implies (#[trigger] line_outcome(
        cells,
        line,
    )) is Free by {
        line.lemma_tile(0);
        line.lemma_tile(1);
        line.lemma_tile(2);
    }
    assert(cells[0] is Free);
}

impl GenericBoard<GenericBoard<TrivialTileState>> {
    /// The tiles of the nine inner boards: `grid()[o][i]` is the tile with
    /// row-major index `i` on the inner board with row-major index `o`.
    pub open spec fn grid(&self) -> Seq<Seq<TrivialTileState>> {
        Seq::new(9, |o: int| self@[o]@)
    }

    /// The outcomes of the nine inner boards of a grid of tiles.
    pub open spec fn board_outcomes(grid: Seq<Seq<TrivialTileState>>) -> Seq<TileBoardState> {
        Seq::new(9, |o: int| InnerBoard::outcome_of(grid[o]))
    }

    /// The outcome of the outer board of a grid of tiles.
    pub open spec fn outcome_of(grid: Seq<Seq<TrivialTileState>>) -> TileBoardState {
        board_outcome(Self::board_outcomes(grid))
    }

    /// The tile at `pos` of a grid of tiles.
    pub open spec fn tile_of(grid: Seq<Seq<TrivialTileState>>, pos: GlobalPos) -> TrivialTileState {
        grid[pos.spec_outer().spec_linear_idx() as int][pos.spec_inner().spec_linear_idx() as int]
    }

    /// Why a symbol cannot be placed at `pos` of a grid of tiles, if it
    /// cannot: the outer board is decided, or else the inner board is
    /// decided, or else the tile is taken.
    pub open spec fn place_error(grid: Seq<Seq<TrivialTileState>>, pos: GlobalPos) -> Option<
        PlaceSymbolError,
    > {
        if Self::outcome_of(grid).spec_is_decided() {
            Some(PlaceSymbolError::BoardNotPlaceable)
        } else {
            InnerBoard::place_error(grid[pos.spec_outer().spec_linear_idx() as int], pos.spec_inner())
        }
    }

    /// The grid after an attempt to place `symbol` at `pos`: the tile is
    /// taken where nothing stands against it, and nothing changes otherwise.
    pub open spec fn placed(
        grid: Seq<Seq<TrivialTileState>>,
        pos: GlobalPos,
        symbol: PlayerSymbol,
    ) -> Seq<Seq<TrivialTileState>> {
        if Self::place_error(grid, pos) is None {
            grid.update(
                pos.spec_outer().spec_linear_idx() as int,
                grid[pos.spec_outer().spec_linear_idx() as int].update(
                    pos.spec_inner().spec_linear_idx() as int,
                    TrivialTileState::Won(symbol),
                ),
            )
        } else {
            grid
        }
    }

    /// The grid after one attempt for each of `moves`, in order.
    pub open spec fn placed_all(
        grid: Seq<Seq<TrivialTileState>>,
        moves: Seq<(GlobalPos, PlayerSymbol)>,
    ) -> Seq<Seq<TrivialTileState>>
        decreases moves.len(),
    {
        if moves.len() == 0 {
            grid
        } else {
            Self::placed(Self::placed_all(grid, moves.drop_last()), moves.last().0, moves.last().1)
        }
    }

    /// The outcomes of the cells of a consistent outer board are the
    /// outcomes of its inner boards, each derived from its tiles.
    pub proof fn lemma_cells(&self)
        requires
            self.wf(),
        ensures
            self.cells() == Self::board_outcomes(self.grid()),
            board_outcome(self.cells()) == Self::outcome_of(self.grid()),
    {
        assert forall|o: int| 0 <= o < 9 implies self.cells()[o] == Self::board_outcomes(
            self.grid(),
        )[o] by {
            assert(self@[o].tile_wf());
            self@[o].lemma_cells();
        }
        assert(self.cells() =~= Self::board_outcomes(self.grid()));
    }

    /// Two consistent outer boards with the same tiles are the same board.
    pub proof fn lemma_wf_same_grid(&self, other: &Self)
        requires
            self.wf(),
            other.wf(),
            self.grid() == other.grid(),
        ensures
            *self == *other,
    {
        assert forall|o: int| 0 <= o < 9 implies self@[o] == other@[o] by {
            assert(self@[o].tile_wf());
            assert(other@[o].tile_wf());
            assert(self.grid()[o] == other.grid()[o]);
            self@[o].lemma_wf_same_cells(&other@[o]);
        }
        assert(self@ =~= other@);
        self.lemma_wf_same_cells(other);
    }

    /// A decided outer board is final: whatever is tried on it, and however
    /// often, is refused because a board is decided, and leaves every tile,
    /// and so every outcome, as it was.
    pub proof fn lemma_decided_is_final(
        grid: Seq<Seq<TrivialTileState>>,
        moves: Seq<(GlobalPos, PlayerSymbol)>,
    )
        requires
            Self::outcome_of(grid).spec_is_decided(),
        ensures
            Self::placed_all(grid, moves) == grid,
            Self::outcome_of(Self::placed_all(grid, moves)) == Self::outcome_of(grid),
            forall|k: int|
                0 <= k < moves.len() ==> Self::place_error(
                    #[trigger] Self::placed_all(grid, moves.take(k)),
                    moves[k].0,
                ) == Some(PlaceSymbolError::BoardNotPlaceable),
        decreases moves.len(),
    {
        if moves.len() > 0 {
            Self::lemma_decided_is_final(grid, moves.drop_last());
        }
        assert forall|k: int| 0 <= k < moves.len() implies Self::place_error(
            #[trigger] Self::placed_all(grid, moves.take(k)),
            moves[k].0,
        ) == Some(PlaceSymbolError::BoardNotPlaceable) by {
            Self::lemma_decided_is_final(grid, moves.take(k));
        }
    }

    /// A decided inner board stays as it is whatever is tried on the outer
    /// board: no attempt changes one of its tiles, and so none changes its
    /// outcome.
    pub proof fn lemma_decided_inner_is_final(
        grid: Seq<Seq<TrivialTileState>>,
        outer: OuterPos,
        moves: Seq<(GlobalPos, PlayerSymbol)>,
    )
        requires
            grid.len() == 9,
            outer.is_valid(),
            forall|k: int| 0 <= k < moves.len() ==> (#[trigger] moves[k]).0.is_valid(),
            InnerBoard::outcome_of(grid[outer.spec_linear_idx() as int]).spec_is_decided(),
        ensures
            Self::placed_all(grid, moves).len() == 9,
            Self::placed_all(grid, moves)[outer.spec_linear_idx() as int]
                == grid[outer.spec_linear_idx() as int],
        decreases moves.len(),
    {
        if moves.len() > 0 {
            Self::lemma_decided_inner_is_final(grid, outer, moves.drop_last());
            let pos = moves.last().0;
            assert(pos.is_valid());
            pos.lemma_split_then_join();
        }
    }

    /// An outer board of nine free inner boards.
    pub fn new() -> (r: Self)
        ensures
            r.wf(),
            r.grid() == Seq::new(9, |o: int| Seq::new(9, |i: int| TrivialTileState::Free)),
            Self::outcome_of(r.grid()) is Free,
    {
        let board = GenericBoard {
            tile_states: TileStates::new(
                [
                    InnerBoard::new(),
                    InnerBoard::new(),
                    InnerBoard::new(),
                    InnerBoard::new(),
                    InnerBoard::new(),
                    InnerBoard::new(),
                    InnerBoard::new(),
                    InnerBoard::new(),
                    InnerBoard::new(),
                ],
            ),
            line_states: LineStates::new(),
            board_state: TileBoardState::Free,
        };
        proof {
            assert(board.grid() =~= Seq::new(
                9,
                |o: int| Seq::new(9, |i: int| TrivialTileState::Free),
            ));
            lemma_free_cells(board.cells());
            board.lemma_cells();
        }
        board
    }

    /// The positions of the inner boards that are not decided, in row-major
    /// order.
    pub fn placeable_boards(&self) -> (r: Vec<OuterPos>)
        requires
            self.wf(),
        ensures
            forall|k: int|
                0 <= k < r.len() ==> (#[trigger] r[k]).is_valid() && InnerBoard::outcome_of(
                    self.grid()[r[k].spec_linear_idx() as int],
                ).spec_is_placeable(),
            forall|j: int, k: int|
                0 <= j < k < r.len() ==> r[j].spec_linear_idx() < r[k].spec_linear_idx(),
            forall|pos: OuterPos|
                pos.is_valid() && InnerBoard::outcome_of(
                    self.grid()[pos.spec_linear_idx() as int],
                ).spec_is_placeable() ==> r@.contains(pos),
    {
        proof {
            self.tile_states.lemma_len();
            self.lemma_cells();
        }
        let ghost boards = Self::board_outcomes(self.grid());
        let mut open: Vec<OuterPos> = Vec::new();
        let mut i: usize = 0;
        while i < 9
            invariant
                i <= 9,
                self@.len() == 9,
                self.cells() == boards,
                boards == Self::board_outcomes(self.grid()),
                forall|k: int|
                    0 <= k < open.len() ==> (#[trigger] open[k]).is_valid() && open[k].spec_linear_idx()
                        < i && boards[open[k].spec_linear_idx() as int] is Free,
                forall|j: int, k: int|
                    0 <= j < k < open.len() ==> open[j].spec_linear_idx() < open[k].spec_linear_idx(),
                forall|pos: OuterPos|
                    pos.is_valid() && pos.spec_linear_idx() < i && boards[pos.spec_linear_idx() as int] is Free
                        ==> open@.contains(pos),
            decreases 9 - i,
        {
            let pos = OuterPos::from_linear_idx(i);
            proof {
                OuterPos::lemma_from_linear_idx(i);
            }
            let ghost before = open@;
            let state = TileTrait::tile_state(self.tile_states.get(pos.tile_pos()));
            assert(state == boards[i as int]);
            if state.is_placeable() {
                open.push(pos);
            }
            proof {
                assert forall|other: OuterPos|
                    other.is_valid() && other.spec_linear_idx() < i + 1 && boards[other.spec_linear_idx() as int] is Free
                    implies open@.contains(other) by {
                    if other.spec_linear_idx() < i {
                        assert(before.contains(other));
                        let k = choose|k: int| 0 <= k < before.len() && before[k] == other;
                        assert(open@[k] == other);
                    } else {
                        other.lemma_linear_idx();
                        assert(other == pos);
                        assert(open@[open.len() - 1] == other);
                    }
                }
            }
            i += 1;
        }
        open
    }

    /// The inner board at `pos`.
    pub fn inner_board(&self, pos: OuterPos) -> (r: &InnerBoard)
        ensures
            *r == self@[pos.spec_linear_idx() as int],
            r@ == self.grid()[pos.spec_linear_idx() as int],
            self.wf() ==> r.wf(),
    {
        proof {
            use_type_invariant(&pos);
        }
        self.tile_states.get(pos.tile_pos())
    }

    /// The tile at `pos`.
    pub fn trivial_tile(&self, pos: GlobalPos) -> (r: TrivialTileState)
        ensures
            r == Self::tile_of(self.grid(), pos),
    {
        let outer = pos.outer();
        proof {
            use_type_invariant(&outer);
        }
        self.inner_board(outer).trivial_tile(pos.inner())
    }

    /// Whether a symbol can be placed at `pos`: neither the outer board nor
    /// the inner board of the tile is decided, and the tile is free.
    pub fn could_place_symbol(&self, pos: GlobalPos) -> (r: bool)
        requires
            self.wf(),
        ensures
            r == (Self::place_error(self.grid(), pos) is None),
    {
        let outer = pos.outer();
        proof {
            use_type_invariant(&outer);
            self.lemma_cells();
        }
        self.board_state.is_placeable() && self.inner_board(outer).could_place_symbol(pos.inner())
    }

    /// Places `symbol` at `pos` and derives the outcomes of the inner board
    /// and of the outer board anew, unless a board on the way is decided or
    /// the tile is taken; then nothing changes.
    pub fn try_place_symbol(&mut self, pos: GlobalPos, symbol: PlayerSymbol) -> (r: Result<
        (),
        PlaceSymbolError,
    >)
        requires
            old(self).wf(),
        ensures
            final(self).wf(),
            final(self).grid() == Self::placed(old(self).grid(), pos, symbol),
            match Self::place_error(old(self).grid(), pos) {
                None => r is Ok,
                Some(e) => r == Err::<(), PlaceSymbolError>(e),
            },
            r is Err ==> *final(self) == *old(self),
    {
        let outer = pos.outer();
        let inner = pos.inner();
        proof {
            use_type_invariant(&outer);
            self.lemma_cells();
            self.tile_states.lemma_len();
        }
        if !self.board_state.is_placeable() {
            return Err(PlaceSymbolError::BoardNotPlaceable);
        }
        let local_pos = outer.tile_pos();
        let ghost cells_before = self.cells();
        assert(self@[local_pos.spec_linear_idx() as int].tile_wf());
        match self.tile_states.get_mut(local_pos).try_place_symbol(inner, symbol) {
            Err(e) => {
                proof {
                    assert(self.tile_states@ =~= old(self).tile_states@);
                    self.tile_states.lemma_same_cells(&old(self).tile_states);
                }
                Err(e)
            },
            Ok(()) => {
                proof {
                    assert forall|i: int| 0 <= i < 9 implies (#[trigger] self@[i]).tile_wf() by {
                        if i != local_pos.spec_linear_idx() {
                            assert(self@[i] == old(self)@[i]);
                        }
                    }
                    lemma_lines_beside(cells_before, self.cells(), local_pos);
                    assert(self.grid() =~= Self::placed(old(self).grid(), pos, symbol));
                }
                self.update_super_states(local_pos);
                Ok(())
            },
        }
    }
    /// Places `symbol` at `pos`, where a symbol can be placed.
    pub fn place_symbol(&mut self, pos: GlobalPos, symbol: PlayerSymbol)
        requires
            old(self).wf(),
            Self::place_error(old(self).grid(), pos) is None,
        ensures
            final(self).wf(),
            final(self).grid() == Self::placed(old(self).grid(), pos, symbol),
            Self::tile_of(final(self).grid(), pos) == TrivialTileState::Won(symbol),
    {
        proof {
            use_type_invariant(&pos);
            pos.lemma_split_then_join();
            self.lemma_len();
        }
        let _ = self.try_place_symbol(pos, symbol);
    }
}

impl Default for GenericBoard<GenericBoard<TrivialTileState>> {
    fn default() -> (r: Self)
        ensures
            r.wf(),
            r.grid() == Seq::new(9, |o: int| Seq::new(9, |i: int| TrivialTileState::Free)),
    {
        Self::new()
    }
}

} // verus!
