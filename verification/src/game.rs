//! A round of the game.
//!
//! A round owns the outer board, knows whose turn it is, and knows the inner
//! board that the next move is bound to, if it is bound to one. A move on a
//! tile sends the opponent to the inner board at the place of that tile,
//! unless that board is decided: then the opponent may play on any board
//! that is still open.

use crate::board::{lemma_drawn_board, InnerBoard, OuterBoard, PlaceSymbolError};
use crate::player::PlayerSymbol;
use crate::pos::{GlobalPos, InnerPos, OuterPos};
use crate::tile::{TileTrait, TrivialTileState};
use vstd::prelude::*;

verus! {

/// Why a move was refused.
#[derive(Debug, Clone, Copy, PartialEq, Eq, Structural)]
pub enum MoveError {
    /// The board refused the symbol.
    PlaceSymbol(PlaceSymbolError),
    /// The move is bound to another inner board.
    WrongOuterPos,
}

/// How a round ended.
#[derive(Debug, Clone, Copy, PartialEq, Eq, Structural)]
pub enum RoundOutcome {
    Win(PlayerSymbol),
    Draw,
}

/// What a player does on their turn.
#[derive(Debug, Clone, Copy, PartialEq, Eq, Structural)]
pub enum PlayerAction {
    MakeMove(GlobalPos),
    GiveUp,
}

impl PlayerAction {
    /// The tile of a move.
    pub fn make_move(self) -> (r: GlobalPos)
        requires
            self is MakeMove,
        ensures
            self == Self::MakeMove(r),
    {
        match self {
            Self::MakeMove(p) => p,
            Self::GiveUp => unreached(),
        }
    }

    /// Takes note that the player gave up.
    pub fn opponent_give_up(self)
        requires
            self is GiveUp,
    {
    }
}

/// A round as the rules see it: the tiles, the player to move, and the
/// inner board that the move is bound to.
pub struct RoundView {
    /// The tiles: `grid[o][i]` is the tile with row-major index `i` on the
    /// inner board with row-major index `o`.
    pub grid: Seq<Seq<TrivialTileState>>,
    /// The player to move.
    pub current_player: PlayerSymbol,
    /// The inner board that the move is bound to, if any.
    pub current_outer_pos: Option<OuterPos>,
}

impl RoundView {
    /// A round that `starting_player` opens on an empty board.
    pub open spec fn start(starting_player: PlayerSymbol) -> Self {
        RoundView {
            grid: Seq::new(9, |o: int| Seq::new(9, |i: int| TrivialTileState::Free)),
            current_player: starting_player,
            current_outer_pos: None,
        }
    }

    /// The board has nine inner boards of nine tiles, and a bound move is
    /// bound to an inner board of the board that is not decided.
    pub open spec fn wf(self) -> bool {
        &&& self.grid.len() == 9
        &&& forall|o: int| 0 <= o < 9 ==> (#[trigger] self.grid[o]).len() == 9
        &&& self.current_outer_pos matches Some(zone) ==> zone.is_valid() && InnerBoard::outcome_of(
            self.grid[zone.spec_linear_idx() as int],
        ).spec_is_placeable()
    }

    /// Whether a move at `pos` is in the zone: it is unless the move is
    /// bound to another inner board than that of `pos`.
    pub open spec fn in_zone(self, pos: GlobalPos) -> bool {
        match self.current_outer_pos {
            Some(zone) => zone == pos.spec_outer(),
            None => true,
        }
    }

    /// Whether a move at `pos` is legal: it is in the zone and the board
    /// accepts a symbol there.
    pub open spec fn legal(self, pos: GlobalPos) -> bool {
        self.in_zone(pos) && OuterBoard::place_error(self.grid, pos) is None
    }

    /// Why a move at `pos` is refused, if it is: first for its zone, then
    /// for what the board has against it.
    pub open spec fn move_error(self, pos: GlobalPos) -> Option<MoveError> {
        if !self.in_zone(pos) {
            Some(MoveError::WrongOuterPos)
        } else {
            match OuterBoard::place_error(self.grid, pos) {
                Some(e) => Some(MoveError::PlaceSymbol(e)),
                None => None,
            }
        }
    }

    /// The inner board that a move at `pos` sends the opponent to, on the
    /// board as it is after the move: the board at the place of the tile
    /// that was played, unless that board is decided.
    pub open spec fn next_outer_pos(grid: Seq<Seq<TrivialTileState>>, pos: GlobalPos) -> Option<
        OuterPos,
    > {
        let target = pos.spec_inner().spec_as_outer();
        if InnerBoard::outcome_of(grid[target.spec_linear_idx() as int]).spec_is_placeable() {
            Some(target)
        } else {
            None
        }
    }

    /// The round after an attempt to move at `pos`: a legal move places the
    /// symbol of the player to move, binds the next move and hands the turn
    /// over; any other changes nothing.
    pub open spec fn played(self, pos: GlobalPos) -> Self {
        if self.legal(pos) {
            let grid = OuterBoard::placed(self.grid, pos, self.current_player);
            RoundView {
                grid,
                current_player: self.current_player.spec_other(),
                current_outer_pos: Self::next_outer_pos(grid, pos),
            }
        } else {
            self
        }
    }

    /// The round after one attempt for each of `moves`, in order.
    pub open spec fn played_all(self, moves: Seq<GlobalPos>) -> Self
        decreases moves.len(),
    {
        if moves.len() == 0 {
            self
        } else {
            self.played_all(moves.drop_last()).played(moves.last())
        }
    }

    /// How the round ended, if it has: with the outcome of the outer board.
    pub open spec fn outcome(self) -> Option<RoundOutcome> {
        match OuterBoard::outcome_of(self.grid) {
            crate::state::TileBoardState::Won(p) => Some(RoundOutcome::Win(p)),
            crate::state::TileBoardState::Drawn => Some(RoundOutcome::Draw),
            crate::state::TileBoardState::Free => None,
        }
    }

    /// The legality check and the move agree: a move is legal exactly if it
    /// is not refused.
    pub proof fn lemma_legal_moves_succeed(self, pos: GlobalPos)
        ensures
            self.legal(pos) <==> self.move_error(pos) is None,
            !self.legal(pos) ==> self.played(pos) == self,
    {
    }

    /// After a legal move at `pos` the next move is bound to the inner board
    /// at the place of the tile that was played, unless that board is
    /// decided by then: in that case it is bound to none.
    pub proof fn lemma_forced_zone(self, pos: GlobalPos)
        requires
            self.wf(),
            pos.is_valid(),
            self.legal(pos),
        ensures
            self.played(pos).wf(),
            self.played(pos).current_player == self.current_player.spec_other(),
            self.played(pos).current_outer_pos == (if InnerBoard::outcome_of(
                self.played(pos).grid[pos.spec_inner().spec_as_outer().spec_linear_idx() as int],
            ).spec_is_decided() {
                None
            } else {
                Some(pos.spec_inner().spec_as_outer())
            }),
    {
        pos.lemma_split_then_join();
        OuterPos::lemma_components(pos.spec_inner().spec_x(), pos.spec_inner().spec_y());
        let after = self.played(pos);
        assert forall|o: int| 0 <= o < 9 implies (#[trigger] after.grid[o]).len() == 9 by {
            assert(self.grid[o].len() == 9);
        }
    }

    /// A player who is bound to no inner board may play on every tile that
    /// the board accepts: on every free tile of an inner board that is not
    /// decided, as long as the outer board is not decided.
    pub proof fn lemma_unbound_move(self, pos: GlobalPos)
        requires
            self.current_outer_pos is None,
        ensures
            self.legal(pos) <==> OuterBoard::place_error(self.grid, pos) is None,
            self.legal(pos) <==> !OuterBoard::outcome_of(self.grid).spec_is_decided()
                && !InnerBoard::outcome_of(
                self.grid[pos.spec_outer().spec_linear_idx() as int],
            ).spec_is_decided() && OuterBoard::tile_of(self.grid, pos) is Free,
    {
    }

    /// A round that has not ended has a legal move: on the inner board that
    /// the move is bound to, or on some inner board that is not decided.
    pub proof fn lemma_open_round_has_move(self)
        requires
            self.wf(),
            self.outcome() is None,
        ensures
            exists|pos: GlobalPos| pos.is_valid() && self.legal(pos),
    {
        let boards = OuterBoard::board_outcomes(self.grid);
        lemma_drawn_board(boards);
        let o: int = match self.current_outer_pos {
            Some(zone) => zone.spec_linear_idx() as int,
            None => choose|o: int| 0 <= o < 9 && boards[o] is Free,
        };
        assert(0 <= o < 9 && boards[o] is Free);
        let outer = OuterPos::spec_new((o / 3) as u8, (o % 3) as u8);
        OuterPos::lemma_components((o / 3) as u8, (o % 3) as u8);
        assert(self.current_outer_pos matches Some(zone) ==> zone == outer);
        let tiles = self.grid[o];
        let outcomes = InnerBoard::tile_outcomes(tiles);
        lemma_drawn_board(outcomes);
        let i = choose|i: int| 0 <= i < 9 && outcomes[i] is Free;
        assert(0 <= i < 9 && tiles[i] is Free);
        let inner = InnerPos::spec_new((i / 3) as u8, (i % 3) as u8);
        InnerPos::lemma_components((i / 3) as u8, (i % 3) as u8);
        let pos = GlobalPos::spec_from_parts(outer, inner);
        GlobalPos::lemma_join_then_split(outer, inner);
        assert(pos.is_valid() && self.legal(pos));
    }

    /// A round that has ended is final: whatever moves are tried, and
    /// however many, none is accepted and nothing changes.
    pub proof fn lemma_decided_is_final(self, moves: Seq<GlobalPos>)
        requires
            self.outcome() is Some,
        ensures
            self.played_all(moves) == self,
            forall|k: int|
                0 <= k < moves.len() ==> (#[trigger] self.played_all(moves.take(k))).move_error(
                    moves[k],
                ) is Some,
        decreases moves.len(),
    {
        if moves.len() > 0 {
            self.lemma_decided_is_final(moves.drop_last());
        }
        assert forall|k: int| 0 <= k < moves.len() implies (#[trigger] self.played_all(
            moves.take(k),
        )).move_error(moves[k]) is Some by {
            self.lemma_decided_is_final(moves.take(k));
        }
    }
}

/// A round of the game.
#[derive(Debug)]
pub struct RoundState {
    outer_board: OuterBoard,
    curr_player: PlayerSymbol,
    curr_outer_pos: Option<OuterPos>,
}

impl View for RoundState {
    type V = RoundView;

    closed spec fn view(&self) -> RoundView {
        RoundView {
            grid: self.outer_board.grid(),
            current_player: self.curr_player,
            current_outer_pos: self.curr_outer_pos,
        }
    }
}

impl RoundState {
    /// The outer board of the round.
    pub closed spec fn spec_board(&self) -> OuterBoard {
        self.outer_board
    }

    /// The board is consistent, it is the board that the round is seen with,
    /// and a bound move is bound to an inner board that is not decided.
    pub open spec fn wf(&self) -> bool {
        &&& self.spec_board().wf()
        &&& self.spec_board().grid() == self@.grid
        &&& self@.wf()
    }

    /// Two consistent rounds that the rules see alike are the same round.
    pub proof fn lemma_wf_same_view(&self, other: &Self)
        requires
            self.wf(),
            other.wf(),
            self@ == other@,
        ensures
            *self == *other,
    {
        self.outer_board.lemma_wf_same_grid(&other.outer_board);
    }

    /// Opens a round on an empty board, with `starting_player` to move and
    /// bound to no inner board.
    pub fn new(starting_player: PlayerSymbol) -> (r: Self)
        ensures
            r.wf(),
            r@ == RoundView::start(starting_player),
            r@.outcome() is None,
    {
        let round = Self {
            outer_board: OuterBoard::new(),
            curr_player: starting_player,
            curr_outer_pos: None,
        };
        proof {
            round.outer_board.lemma_cells();
        }
        round
    }

    /// Whether the player to move may play at `global_pos`.
    pub fn could_play_move(&self, global_pos: GlobalPos) -> (r: bool)
        requires
            self.wf(),
        ensures
            r == self@.legal(global_pos),
    {
        self.is_in_zone(global_pos) && self.outer_board.could_place_symbol(global_pos)
    }

    /// Plays the move of the player to move at `chosen_tile`, binds the next
    /// move and hands the turn over; or refuses the move and changes
    /// nothing.
    pub fn try_play_move(&mut self, chosen_tile: GlobalPos) -> (r: Result<(), MoveError>)
        requires
            old(self).wf(),
        ensures
            final(self).wf(),
            final(self)@ == old(self)@.played(chosen_tile),
            match old(self)@.move_error(chosen_tile) {
                None => r is Ok,
                Some(e) => r == Err::<(), MoveError>(e),
            },
            r is Ok <==> old(self)@.legal(chosen_tile),
            r is Err ==> *final(self) == *old(self),
    {
        match self.try_place_symbol(chosen_tile) {
            Err(e) => Err(e),
            Ok(()) => {
                self.update_outer_pos(chosen_tile);
                self.curr_player.switch();
                Ok(())
            },
        }
    }

    /// The outer board of the round.
    pub fn board(&self) -> (r: &OuterBoard)
        ensures
            *r == self.spec_board(),
            r.grid() == self@.grid,
            self.wf() ==> r.wf(),
    {
        &self.outer_board
    }

    /// The player to move.
    pub fn current_player(&self) -> (r: PlayerSymbol)
        ensures
            r == self@.current_player,
    {
        self.curr_player
    }

    /// The inner board that the next move is bound to, if any.
    pub fn current_outer_pos(&self) -> (r: Option<OuterPos>)
        ensures
            r == self@.current_outer_pos,
    {
        self.curr_outer_pos
    }

    /// How the round ended, if it has.
    pub fn outcome(&self) -> (r: Option<RoundOutcome>)
        requires
            self.wf(),
        ensures
            r == self@.outcome(),
    {
        proof {
            self.outer_board.lemma_cells();
        }
        match self.outer_board.board_state() {
            crate::state::TileBoardState::Won(p) => Some(RoundOutcome::Win(p)),
            crate::state::TileBoardState::Drawn => Some(RoundOutcome::Draw),
            crate::state::TileBoardState::Free => None,
        }
    }

    /// Whether a move at `global_pos` is on the inner board that the move is
    /// bound to, if it is bound to one.
    fn is_in_zone(&self, global_pos: GlobalPos) -> (r: bool)
        ensures
            r == self@.in_zone(global_pos),
    {
        match self.curr_outer_pos {
            Some(curr_outer_pos) => curr_outer_pos == global_pos.outer(),
            None => true,
        }
    }

    /// Places the symbol of the player to move, if the move is in the zone
    /// and the board accepts it.
    fn try_place_symbol(&mut self, global_pos: GlobalPos) -> (r: Result<(), MoveError>)
        requires
            old(self).wf(),
        ensures
            final(self).outer_board.wf(),
            final(self).curr_player == old(self).curr_player,
            final(self).curr_outer_pos == old(self).curr_outer_pos,
            match old(self)@.move_error(global_pos) {
                None => r is Ok && final(self).outer_board.grid() == OuterBoard::placed(
                    old(self)@.grid,
                    global_pos,
                    old(self).curr_player,
                ),
                Some(e) => r == Err::<(), MoveError>(e) && *final(self) == *old(self),
            },
    {
        if !self.is_in_zone(global_pos) {
            return Err(MoveError::WrongOuterPos);
        }
        match self.outer_board.try_place_symbol(global_pos, self.curr_player) {
            Ok(()) => Ok(()),
            Err(e) => Err(MoveError::PlaceSymbol(e)),
        }
    }

    /// Binds the next move to the inner board at the place of the tile that
    /// was played, unless that board is decided.
    fn update_outer_pos(&mut self, last_move_pos: GlobalPos)
        requires
            old(self).outer_board.wf(),
        ensures
            final(self).outer_board == old(self).outer_board,
            final(self).curr_player == old(self).curr_player,
            final(self).curr_outer_pos == RoundView::next_outer_pos(
                old(self).outer_board.grid(),
                last_move_pos,
            ),
            final(self).curr_outer_pos matches Some(zone) ==> zone.is_valid(),
    {
        let next_outer_pos = last_move_pos.inner().as_outer();
        proof {
            use_type_invariant(&next_outer_pos);
            assert(self.outer_board@[next_outer_pos.spec_linear_idx() as int].tile_wf());
            self.outer_board@[next_outer_pos.spec_linear_idx() as int].lemma_cells();
        }
        let target = self.outer_board.inner_board(next_outer_pos);
        self.curr_outer_pos =
        if target.board_state().is_placeable() {
            Some(next_outer_pos)
        } else {
            None
        };
    }
}

/// The score over the rounds of a game.
#[derive(Debug, Clone, Copy)]
pub struct Stats {
    /// Number of rounds played.
    pub ngames: usize,
    /// Number of rounds won by each player, by [`PlayerSymbol::idx`].
    pub scores: [usize; 2],
}

impl Stats {
    /// The score before the first round.
    pub fn new() -> (r: Self)
        ensures
            r.ngames == 0,
            r.scores[0] == 0,
            r.scores[1] == 0,
    {
        Stats { ngames: 0, scores: [0, 0] }
    }

    /// Counts a round that ended with `outcome`: one more round, and one
    /// more win for the winner if there is one.
    pub fn update(&mut self, outcome: RoundOutcome)
        requires
            old(self).ngames < usize::MAX,
            outcome matches RoundOutcome::Win(p) ==> old(self).scores[p.spec_idx() as int]
                < usize::MAX,
        ensures
            final(self).ngames == old(self).ngames + 1,
            forall|i: int|
                0 <= i < 2 ==> #[trigger] final(self).scores[i] == old(self).scores[i] + (
                if outcome == RoundOutcome::Win(PlayerSymbol::spec_from_idx(i as usize)) {
                    1int
                } else {
                    0int
                }),
    {
        self.ngames += 1;
        match outcome {
            RoundOutcome::Win(p) => {
                let i = p.idx();
                self.scores[i] = self.scores[i] + 1;
            },
            RoundOutcome::Draw => (),
        }
    }
}

impl Default for Stats {
    fn default() -> (r: Self)
        ensures
            r.ngames == 0,
            r.scores[0] == 0,
            r.scores[1] == 0,
    {
        Self::new()
    }
}

} // verus!
