//! A random legal move.
//!
//! The move is drawn in two steps: first the inner board, among those that
//! the player may play on, then the tile, among the free tiles of that
//! board. Each step draws uniformly.

use crate::board::{lemma_drawn_board, InnerBoard, OuterBoard};
use crate::game::RoundState;
use crate::pos::{GlobalPos, InnerPos, OuterPos};
use rand::Rng;
use vstd::prelude::*;

verus! {

/// A number below `n`, drawn by `rand::Rng::gen_range` on the generator of
/// the thread, `rand::thread_rng`, from the range `0..n`.
///
/// Not proved, taken from the source of `rand`: `gen_range` panics on an
/// empty range, which `n > 0` rules out, and returns a value of the range.
/// Nothing is claimed of which value comes back, so two calls may differ.
/// `thread_rng` panics if the system gives it no seed.
#[verifier::external_body]
fn random_below(n: usize) -> (r: usize)
    requires
        n > 0,
    ensures
        r < n,
{
    rand::thread_rng().gen_range(0..n)
}

/// The inner boards that the player to move may play on: the board that the
/// move is bound to, or else every board that is not decided.
pub fn open_boards(round: &RoundState) -> (r: Vec<OuterPos>)
    requires
        round.wf(),
    ensures
        forall|k: int|
            0 <= k < r.len() ==> (#[trigger] r[k]).is_valid() && InnerBoard::outcome_of(
                round@.grid[r[k].spec_linear_idx() as int],
            ).spec_is_placeable(),
        forall|k: int|
            0 <= k < r.len() ==> (round@.current_outer_pos matches Some(zone) ==> #[trigger] r[k]
                == zone),
        forall|pos: OuterPos|
            pos.is_valid() && InnerBoard::outcome_of(
                round@.grid[pos.spec_linear_idx() as int],
            ).spec_is_placeable() && (round@.current_outer_pos matches Some(zone) ==> pos == zone)
                ==> r@.contains(pos),
        round@.outcome() is None ==> r.len() > 0,
{
    let boards = match round.current_outer_pos() {
        Some(zone) => {
            let mut bound: Vec<OuterPos> = Vec::new();
            bound.push(zone);
            assert(bound@[0] == zone);
            bound
        },
        None => round.board().placeable_boards(),
    };
    proof {
        if round@.outcome() is None && round@.current_outer_pos is None {
            let outcomes = OuterBoard::board_outcomes(round@.grid);
            lemma_drawn_board(outcomes);
            let o = choose|o: int| 0 <= o < 9 && outcomes[o] is Free;
            let pos = OuterPos::spec_from_linear_idx(o as usize);
            OuterPos::lemma_from_linear_idx(o as usize);
            assert(boards@.contains(pos));
        }
    }
    boards
}

/// The free tile at place `n` among the free tiles of `board` in row-major
/// order, if the board has that many.
pub fn nth_free_tile(board: &InnerBoard, n: usize) -> (r: Option<InnerPos>)
    ensures
        match r {
            Some(pos) => pos.is_valid() && board@[pos.spec_linear_idx() as int] is Free
                && free_tile_count(board@.take(pos.spec_linear_idx() as int)) == n,
            None => n >= free_tile_count(board@),
        },
{
    let free = board.free_tiles();
    proof {
        board.lemma_len();
        lemma_free_tiles(board@, free@);
    }
    if n < free.len() {
        Some(free[n])
    } else {
        None
    }
}

/// How many of `tiles` are free.
pub open spec fn free_tile_count(tiles: Seq<crate::tile::TrivialTileState>) -> nat
    decreases tiles.len(),
{
    if tiles.len() == 0 {
        0
    } else {
        free_tile_count(tiles.drop_last()) + if tiles.last() is Free {
            1nat
        } else {
            0nat
        }
    }
}

/// The list of the free tiles of a board in row-major order has as many
/// entries as the board has free tiles, and before its entry at place `k`
/// the board has `k` free tiles.
proof fn lemma_free_tiles(tiles: Seq<crate::tile::TrivialTileState>, free: Seq<InnerPos>)
    requires
        tiles.len() == 9,
        forall|k: int|
            0 <= k < free.len() ==> (#[trigger] free[k]).is_valid() && tiles[free[k].spec_linear_idx() as int] is Free,
        forall|j: int, k: int|
            0 <= j < k < free.len() ==> free[j].spec_linear_idx() < free[k].spec_linear_idx(),
        forall|pos: InnerPos|
            pos.is_valid() && tiles[pos.spec_linear_idx() as int] is Free ==> free.contains(pos),
    ensures
        free.len() == free_tile_count(tiles),
        forall|k: int|
            0 <= k < free.len() ==> free_tile_count(
                tiles.take((#[trigger] free[k]).spec_linear_idx() as int),
            ) == k,
{
    lemma_free_before(tiles, free, 9);
    assert(tiles.take(9) =~= tiles);
    if free.len() > 0 {
        let last = free.len() - 1;
        assert(free[last].is_valid());
        assert(free[last].spec_linear_idx() < 9);
    }
    assert forall|k: int| 0 <= k < free.len() implies free_tile_count(
        tiles.take((#[trigger] free[k]).spec_linear_idx() as int),
    ) == k by {
        let n = free[k].spec_linear_idx() as int;
        assert(free[k].is_valid());
        lemma_free_before(tiles, free, n);
        assert(!(free[k].spec_linear_idx() < n));
        if k > 0 {
            assert(free[k - 1].spec_linear_idx() < free[k].spec_linear_idx());
        }
    }
}

/// Among the first `n` tiles of a board, as many are free as the list of
/// its free tiles has entries below `n`.
proof fn lemma_free_before(tiles: Seq<crate::tile::TrivialTileState>, free: Seq<InnerPos>, n: int)
    requires
        tiles.len() == 9,
        0 <= n <= 9,
        forall|k: int|
            0 <= k < free.len() ==> (#[trigger] free[k]).is_valid() && tiles[free[k].spec_linear_idx() as int] is Free,
        forall|j: int, k: int|
            0 <= j < k < free.len() ==> free[j].spec_linear_idx() < free[k].spec_linear_idx(),
        forall|pos: InnerPos|
            pos.is_valid() && tiles[pos.spec_linear_idx() as int] is Free ==> free.contains(pos),
    ensures
        0 <= free_tile_count(tiles.take(n)) <= free.len(),
        forall|k: int|
            0 <= k < free.len() ==> ((#[trigger] free[k]).spec_linear_idx() < n <==> k
                < free_tile_count(tiles.take(n))),
    decreases n,
{
    if n > 0 {
        lemma_free_before(tiles, free, n - 1);
        assert(tiles.take(n).drop_last() =~= tiles.take(n - 1));
        assert(tiles.take(n).last() == tiles[n - 1]);
        let before = free_tile_count(tiles.take(n - 1)) as int;
        if tiles[n - 1] is Free {
            let pos = InnerPos::spec_from_linear_idx((n - 1) as usize);
            InnerPos::lemma_from_linear_idx((n - 1) as usize);
            assert(free.contains(pos));
            let at = choose|at: int| 0 <= at < free.len() && free[at] == pos;
            assert(!(at < before));
            if at > before {
                assert(free[before].spec_linear_idx() < free[at].spec_linear_idx());
            }
            assert(at == before);
        } else {
            assert forall|k: int| 0 <= k < free.len() implies (#[trigger] free[k]).spec_linear_idx()
                != n - 1 by {}
        }
    }
}

/// Draws a legal move for the player to move: an inner board among those
/// that the player may play on, then a tile among the free tiles of that
/// board.
pub fn choose_random_tile(round: &RoundState) -> (r: GlobalPos)
    requires
        round.wf(),
        round@.outcome() is None,
    ensures
        round@.legal(r),
{
    let boards = open_boards(round);
    let outer = boards[random_below(boards.len())];
    let board = round.board().inner_board(outer);
    let free = board.free_tiles();
    proof {
        use_type_invariant(&outer);
        board.lemma_len();
        lemma_free_tiles(board@, free@);
        lemma_drawn_board(InnerBoard::tile_outcomes(board@));
        let i = choose|i: int| 0 <= i < 9 && InnerBoard::tile_outcomes(board@)[i] is Free;
        lemma_has_free_tile(board@, i);
    }
    match nth_free_tile(board, random_below(free.len())) {
        Some(inner) => GlobalPos::from_parts(outer, inner),
        None => unreached(),
    }
}

/// A board with a free tile has at least one free tile.
proof fn lemma_has_free_tile(tiles: Seq<crate::tile::TrivialTileState>, i: int)
    requires
        0 <= i < tiles.len(),
        tiles[i] is Free,
    ensures
        free_tile_count(tiles) > 0,
    decreases tiles.len(),
{
    if i < tiles.len() - 1 {
        lemma_has_free_tile(tiles.drop_last(), i);
    }
}

} // verus!
