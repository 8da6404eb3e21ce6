//! Inner boards written as text.
//!
//! A board is written as its nine tiles in row-major order, `X` or `O` for a
//! tile that a player took and `_` for a free tile, with white space
//! anywhere between them. Reading a board places the symbols one after the
//! other, as play would.

use crate::board::{InnerBoard, TrivialBoard};
use crate::pos::InnerPos;
use crate::tile::TrivialTileState;
use vstd::prelude::*;

verus! {

/// Why a text is not a board.
#[derive(Debug, Clone, Copy, PartialEq, Eq, Structural)]
pub enum TrivialBoardParseError {
    /// A character is neither white space nor a tile.
    InvalidChar(char),
    /// The text does not hold nine tiles.
    BadSymbolCount,
    /// The board is decided before the last symbol of the text is placed.
    SymbolAfterDecision,
}

/// Whether `char::is_whitespace` of the standard library holds of `c`: it
/// does of the characters with the Unicode property `White_Space`.
pub uninterp spec fn spec_is_whitespace(c: char) -> bool;

/// Whether `c` is white space, by `char::is_whitespace` of the standard
/// library.
///
/// Not proved: the result is what the standard library answers for `c`, and
/// the same for the same character.
#[verifier::external_body]
fn is_whitespace(c: char) -> (r: bool)
    ensures
        r == spec_is_whitespace(c),
{
    c.is_whitespace()
}

/// The characters of a text that are not white space, in order.
pub open spec fn symbols(text: Seq<char>) -> Seq<char> {
    text.filter(|c: char| !spec_is_whitespace(c))
}

/// Whether every one of `symbols` stands for a tile.
pub open spec fn all_tiles(symbols: Seq<char>) -> bool {
    forall|i: int| 0 <= i < symbols.len() ==> TrivialTileState::spec_from_char(#[trigger] symbols[i]) is Some
}

/// The tiles that `symbols` stand for.
pub open spec fn tiles_of(symbols: Seq<char>) -> Seq<TrivialTileState> {
    Seq::new(symbols.len(), |i: int| TrivialTileState::spec_from_char(symbols[i])->Some_0)
}

/// The board on which the first `n` of `tiles` are placed and the others
/// are free.
pub open spec fn placed_before(tiles: Seq<TrivialTileState>, n: int) -> Seq<TrivialTileState> {
    Seq::new(
        9,
        |i: int|
            if i < n {
                tiles[i]
            } else {
                TrivialTileState::Free
            },
    )
}

/// Whether one of the nine `tiles` is taken although the tiles before it
/// decide the board.
pub open spec fn decided_early(tiles: Seq<TrivialTileState>) -> bool {
    exists|k: int|
        0 <= k < 9 && tiles[k] is Won && InnerBoard::outcome_of(
            #[trigger] placed_before(tiles, k),
        ).spec_is_decided()
}

/// Whether `r` is what reading `text` gives.
///
/// A board is given exactly for a text of nine tiles none of which is placed
/// on a board that the tiles before it decide, and it is the consistent
/// board with those tiles. Any other text gives its error: the first
/// character that is neither white space nor a tile; else that the tiles
/// are not nine; else that a symbol follows the decision.
pub open spec fn reads_as(
    text: Seq<char>,
    r: Result<TrivialBoard, TrivialBoardParseError>,
) -> bool {
    match r {
        Ok(board) => {
            &&& all_tiles(symbols(text))
            &&& symbols(text).len() == 9
            &&& !decided_early(tiles_of(symbols(text)))
            &&& board.wf()
            &&& board@ == tiles_of(symbols(text))
        },
        Err(TrivialBoardParseError::InvalidChar(c)) => exists|i: int|
            0 <= i < symbols(text).len() && symbols(text)[i] == c
                && TrivialTileState::spec_from_char(c) is None && all_tiles(
                symbols(text).take(i),
            ),
        Err(TrivialBoardParseError::BadSymbolCount) => all_tiles(symbols(text)) && symbols(
            text,
        ).len() != 9,
        Err(TrivialBoardParseError::SymbolAfterDecision) => all_tiles(symbols(text)) && symbols(
            text,
        ).len() == 9 && decided_early(tiles_of(symbols(text))),
    }
}

/// Reads a board from its text.
///
/// The first character that is neither white space nor a tile is reported;
/// else a number of tiles other than nine; else a symbol that would be
/// placed on a board that the symbols before it decide. Any other text
/// gives the board with the tiles of the text.
pub fn parse_board(s: &str) -> (r: Result<TrivialBoard, TrivialBoardParseError>)
    ensures
        reads_as(s@, r),
{
    let tiles = match read_tiles(s) {
        Ok(tiles) => tiles,
        Err(e) => {
            return Err(e);
        },
    };
    if tiles.len() != 9 {
        return Err(TrivialBoardParseError::BadSymbolCount);
    }
    let mut board = TrivialBoard::new();
    let mut i: usize = 0;
    proof {
        assert(board@ =~= placed_before(tiles@, 0));
    }
    while i < 9
        invariant
            i <= 9,
            tiles.len() == 9,
            all_tiles(symbols(s@)),
            tiles@ == tiles_of(symbols(s@)),
            board.wf(),
            board@ == placed_before(tiles@, i as int),
            forall|k: int|
                0 <= k < i && tiles[k] is Won ==> !InnerBoard::outcome_of(
                    #[trigger] placed_before(tiles@, k),
                ).spec_is_decided(),
        decreases 9 - i,
    {
        let pos = InnerPos::from_linear_idx(i);
        match tiles[i] {
            TrivialTileState::Won(p) => {
                match board.try_place_symbol(pos, p) {
                    Ok(()) => {},
                    Err(_) => {
                        proof {
                            assert(decided_early(tiles@));
                        }
                        return Err(TrivialBoardParseError::SymbolAfterDecision);
                    },
                }
            },
            TrivialTileState::Free => {},
        }
        proof {
            assert(board@ =~= placed_before(tiles@, i + 1));
        }
        i += 1;
    }
    proof {
        assert(board@ =~= tiles@);
    }
    Ok(board)
}

/// Reads the tiles of a text, or reports the first character that is
/// neither white space nor a tile.
fn read_tiles(s: &str) -> (r: Result<Vec<TrivialTileState>, TrivialBoardParseError>)
    ensures
        match r {
            Ok(tiles) => all_tiles(symbols(s@)) && tiles@ == tiles_of(symbols(s@)),
            Err(TrivialBoardParseError::InvalidChar(c)) => exists|i: int|
                0 <= i < symbols(s@).len() && symbols(s@)[i] == c && TrivialTileState::spec_from_char(
                    c,
                ) is None && all_tiles(symbols(s@).take(i)),
            Err(_) => false,
        },
{
    let mut tiles: Vec<TrivialTileState> = Vec::new();
    proof {
        assert(s@.take(0) =~= Seq::<char>::empty());
    }
    for c in walk: s.chars()
        invariant
            walk.seq() == s@,
            all_tiles(symbols(s@.take(walk.index() as int))),
            tiles@ == tiles_of(symbols(s@.take(walk.index() as int))),
    {
        let ghost n = walk.index() as int;
        let white = is_whitespace(c);
        let ghost so_far = symbols(s@.take(n));
        proof {
            lemma_symbols_push(s@, n);
        }
        if !white {
            match TrivialTileState::from_char(c) {
                Some(tile) => {
                    tiles.push(tile);
                    proof {
                        assert(tiles@ =~= tiles_of(symbols(s@.take(n + 1))));
                    }
                },
                None => {
                    proof {
                        let rest = s@.skip(n + 1);
                        assert(s@ =~= s@.take(n + 1) + rest);
                        Seq::filter_distributes_over_add(
                            s@.take(n + 1),
                            rest,
                            |c: char| !spec_is_whitespace(c),
                        );
                        let i = so_far.len() as int;
                        assert(symbols(s@)[i] == c);
                        assert(symbols(s@).take(i) =~= so_far);
                    }
                    return Err(TrivialBoardParseError::InvalidChar(c));
                },
            }
        }
    }
    proof {
        assert(s@.take(s@.len() as int) =~= s@);
    }
    Ok(tiles)
}

/// The symbols of the first `n + 1` characters of a text are those of its
/// first `n` characters, followed by the character at place `n` unless it
/// is white space.
proof fn lemma_symbols_push(text: Seq<char>, n: int)
    requires
        0 <= n < text.len(),
    ensures
        symbols(text.take(n + 1)) == if spec_is_whitespace(text[n]) {
            symbols(text.take(n))
        } else {
            symbols(text.take(n)).push(text[n])
        },
{
    let longer = text.take(n + 1);
    assert(longer.drop_last() =~= text.take(n));
    assert(longer.last() == text[n]);
    reveal(Seq::filter);
}

impl core::str::FromStr for TrivialBoard {
    type Err = TrivialBoardParseError;

    /// Reads a board from its text, as [`parse_board`] does.
    fn from_str(s: &str) -> (r: Result<Self, Self::Err>)
        ensures
            reads_as(s@, r),
    {
        parse_board(s)
    }
}

} // verus!
