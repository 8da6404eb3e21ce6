use uttt::board::{InnerBoard, OuterBoard, PlaceSymbolError, TrivialBoard};
use uttt::line::LineType;
use uttt::player::{PlayerSymbol, PLAYERS};
use uttt::pos::{GlobalPos, InnerPos, OuterPos, TilePos};
use uttt::state::TileBoardState;
use uttt::tile::{TileTrait, TrivialTileState};

const F: TileBoardState = TileBoardState::Free;
const D: TileBoardState = TileBoardState::Drawn;
const X: TileBoardState = TileBoardState::Won(PlayerSymbol::X);
const O: TileBoardState = TileBoardState::Won(PlayerSymbol::O);

fn all_states() -> Vec<TileBoardState> {
    vec![F, X, O, D]
}

#[test]
fn combine_follows_its_table() {
    assert_eq!(F.combine(F), F);
    for p in PLAYERS {
        let w = TileBoardState::Won(p);
        let v = TileBoardState::Won(p.other());
        assert_eq!(w.combine(F), F);
        assert_eq!(F.combine(w), F);
        assert_eq!(w.combine(w), w);
        assert_eq!(w.combine(v), D);
    }
    for s in all_states() {
        assert_eq!(s.combine(D), D);
        assert_eq!(D.combine(s), D);
    }
}

#[test]
fn combine_is_commutative() {
    for a in all_states() {
        for b in all_states() {
            assert_eq!(a.combine(b), b.combine(a));
        }
    }
}

fn opposed(a: TileBoardState, b: TileBoardState) -> bool {
    a.is_won() && b.is_won() && a != b
}

#[test]
fn combine_regroups_unless_a_free_end_meets_two_players() {
    for a in all_states() {
        for b in all_states() {
            for c in all_states() {
                let left = a.combine(b).combine(c);
                let right = a.combine(b.combine(c));
                let excluded = (c.is_free() && opposed(a, b)) || (a.is_free() && opposed(b, c));
                assert_eq!(left == right, !excluded);
            }
        }
    }
    assert_eq!(X.combine(O).combine(F), D);
    assert_eq!(X.combine(O.combine(F)), F);
}

#[test]
fn outcome_predicates() {
    assert!(F.is_free() && !F.is_won() && !F.is_drawn() && !F.is_decided() && F.is_placeable());
    assert!(!X.is_free() && X.is_won() && !X.is_drawn() && X.is_decided() && !X.is_placeable());
    assert!(!D.is_free() && !D.is_won() && D.is_drawn() && D.is_decided() && !D.is_placeable());
    assert_eq!(X.winner(), Some(PlayerSymbol::X));
    assert_eq!(O.winner(), Some(PlayerSymbol::O));
    assert_eq!(F.winner(), None);
    assert_eq!(D.winner(), None);
    assert_eq!(TileBoardState::default(), F);
}

#[test]
fn tiles_are_written_as_characters() {
    assert_eq!(TrivialTileState::Free.as_char(), '_');
    assert_eq!(TrivialTileState::Won(PlayerSymbol::X).as_char(), 'X');
    assert_eq!(TrivialTileState::from_char('_'), Some(TrivialTileState::Free));
    assert_eq!(TrivialTileState::from_char('O'), Some(TrivialTileState::Won(PlayerSymbol::O)));
    assert_eq!(TrivialTileState::from_char('x'), None);
    assert!(TrivialTileState::Free.is_free());
    assert!(TrivialTileState::Won(PlayerSymbol::X).is_won());
    assert_eq!(TrivialTileState::Won(PlayerSymbol::O).tile_state(), O);
    assert_eq!(TileBoardState::from(TrivialTileState::Free), F);
    assert_eq!(TrivialTileState::default(), TrivialTileState::Free);
}

#[test]
fn a_tile_is_taken_once() {
    let mut tile = TrivialTileState::Free;
    assert_eq!(tile.try_place_symbol_in_tile(PlayerSymbol::O), Ok(()));
    assert_eq!(tile, TrivialTileState::Won(PlayerSymbol::O));
    assert_eq!(
        tile.try_place_symbol_in_tile(PlayerSymbol::X),
        Err(PlaceSymbolError::TrivialTileNotFree)
    );
    assert_eq!(tile, TrivialTileState::Won(PlayerSymbol::O));
}

fn board_from(text: &str) -> TrivialBoard {
    let mut board = TrivialBoard::new();
    let symbols: Vec<char> = text.chars().filter(|c| !c.is_whitespace()).collect();
    assert_eq!(symbols.len(), 9);
    for (i, c) in symbols.into_iter().enumerate() {
        if let Some(TrivialTileState::Won(p)) = TrivialTileState::from_char(c) {
            let pos = TilePos::from_linear_idx(i).as_inner();
            assert_eq!(board.try_place_symbol(pos, p), Ok(()));
        }
    }
    board
}

#[test]
fn a_new_board_is_free() {
    let board = InnerBoard::new();
    assert_eq!(board.board_state(), F);
    assert!(board.is_free());
    for line in LineType::all() {
        assert_eq!(board.line_state(line), F);
    }
    for i in 0..9usize {
        let pos = InnerPos::from_linear_idx(i);
        assert_eq!(board.trivial_tile(pos), TrivialTileState::Free);
        assert!(board.could_place_symbol(pos));
    }
    assert_eq!(board.free_tiles().len(), 9);
    assert_eq!(InnerBoard::default().board_state(), F);
}

#[test]
fn three_in_a_row_wins_the_inner_board() {
    let mut board = InnerBoard::new();
    assert_eq!(board.try_place_symbol(InnerPos::new(0, 0), PlayerSymbol::X), Ok(()));
    assert_eq!(board.try_place_symbol(InnerPos::new(0, 1), PlayerSymbol::X), Ok(()));
    assert_eq!(board.board_state(), F);
    assert_eq!(board.line_state(LineType::YAxis(0)), F);
    assert_eq!(board.try_place_symbol(InnerPos::new(0, 2), PlayerSymbol::X), Ok(()));
    assert_eq!(board.board_state(), X);
    assert_eq!(board.line_state(LineType::YAxis(0)), X);
    assert_eq!(*board.tile_state(TilePos::new(0, 2)), TrivialTileState::Won(PlayerSymbol::X));
}

#[test]
fn every_line_can_be_won() {
    for line in LineType::all() {
        for p in PLAYERS {
            let mut board = InnerBoard::new();
            let mut walk = line.iter();
            while let Some(pos) = walk.next() {
                assert_eq!(board.board_state(), F);
                assert_eq!(board.try_place_symbol(pos.as_inner(), p), Ok(()));
            }
            assert_eq!(board.board_state(), TileBoardState::Won(p));
            assert_eq!(board.line_state(line), TileBoardState::Won(p));
        }
    }
}

#[test]
fn a_taken_tile_is_refused() {
    let mut board = InnerBoard::new();
    let pos = InnerPos::new(1, 1);
    assert_eq!(board.try_place_symbol(pos, PlayerSymbol::X), Ok(()));
    assert!(!board.could_place_symbol(pos));
    assert_eq!(
        board.try_place_symbol(pos, PlayerSymbol::O),
        Err(PlaceSymbolError::TrivialTileNotFree)
    );
    assert_eq!(board.trivial_tile(pos), TrivialTileState::Won(PlayerSymbol::X));
    assert_eq!(board.free_tiles().len(), 8);
}

#[test]
fn a_full_board_without_a_line_is_drawn() {
    let board = board_from("XOX XOO OXX");
    assert_eq!(board.board_state(), D);
    assert_eq!(TileTrait::tile_state(&board), D);
    for line in LineType::all() {
        assert_eq!(board.line_state(line), D);
    }
    assert!(board.free_tiles().is_empty());
}

#[test]
fn a_board_with_a_free_tile_and_no_line_is_free() {
    let board = board_from("XOO OXX _XO");
    assert_eq!(board.board_state(), F);
    assert_eq!(board.free_tiles(), vec![InnerPos::new(2, 0)]);
    assert!(board.could_place_symbol(InnerPos::new(2, 0)));
}

#[test]
fn the_last_tile_wins_before_it_draws() {
    let mut board = board_from("XOX OXO OX_");
    assert_eq!(board.board_state(), F);
    assert_eq!(board.try_place_symbol(InnerPos::new(2, 2), PlayerSymbol::X), Ok(()));
    assert_eq!(board.board_state(), X);
    assert_eq!(board.line_state(LineType::MainDiagonal), X);
    assert!(board.free_tiles().is_empty());
}

#[test]
fn a_decided_inner_board_stays_as_it_is() {
    let mut won = board_from("XX_ OO_ ___");
    assert_eq!(won.try_place_symbol(InnerPos::new(0, 2), PlayerSymbol::X), Ok(()));
    let drawn = board_from("XOX XOO OXX");
    for mut board in [won, drawn] {
        let state = board.board_state();
        let tiles: Vec<TrivialTileState> =
            (0..9).map(|i| board.trivial_tile(InnerPos::from_linear_idx(i))).collect();
        for round in 0..3 {
            for i in 0..9usize {
                let pos = InnerPos::from_linear_idx(i);
                let p = PLAYERS[(i + round) % 2];
                assert!(!board.could_place_symbol(pos));
                assert_eq!(
                    board.try_place_symbol(pos, p),
                    Err(PlaceSymbolError::BoardNotPlaceable)
                );
                assert_eq!(board.board_state(), state);
            }
        }
        for i in 0..9usize {
            assert_eq!(board.trivial_tile(InnerPos::from_linear_idx(i)), tiles[i]);
        }
    }
}

fn fill(outer: &mut OuterBoard, at: OuterPos, text: &str) {
    let symbols: Vec<char> = text.chars().filter(|c| !c.is_whitespace()).collect();
    assert_eq!(symbols.len(), 9);
    for (i, c) in symbols.into_iter().enumerate() {
        if let Some(TrivialTileState::Won(p)) = TrivialTileState::from_char(c) {
            let pos = GlobalPos::from_parts(at, InnerPos::from_linear_idx(i));
            assert_eq!(outer.try_place_symbol(pos, p), Ok(()));
        }
    }
}

#[test]
fn winning_an_inner_board_takes_the_outer_cell() {
    let mut outer = OuterBoard::new();
    assert_eq!(outer.board_state(), F);
    let at = OuterPos::new(0, 0);
    fill(&mut outer, at, "XX_ ___ ___");
    assert_eq!(outer.inner_board(at).board_state(), F);
    let pos = GlobalPos::from_parts(at, InnerPos::new(0, 2));
    assert!(outer.could_place_symbol(pos));
    assert_eq!(outer.try_place_symbol(pos, PlayerSymbol::X), Ok(()));
    assert_eq!(outer.inner_board(at).board_state(), X);
    assert_eq!(outer.tile_state(at.tile_pos()).board_state(), X);
    assert_eq!(outer.trivial_tile(pos), TrivialTileState::Won(PlayerSymbol::X));
    assert_eq!(outer.board_state(), F);
    assert_eq!(outer.line_state(LineType::YAxis(0)), F);
    assert_eq!(outer.placeable_boards().len(), 8);
    assert!(!outer.placeable_boards().contains(&at));
}

#[test]
fn a_drawn_inner_board_draws_the_lines_of_the_outer_board() {
    let mut outer = OuterBoard::new();
    let at = OuterPos::new(1, 1);
    fill(&mut outer, at, "XOX XOO OXX");
    assert_eq!(outer.inner_board(at).board_state(), D);
    assert_eq!(outer.board_state(), F);
    for line in LineType::all_through_point(at.tile_pos()) {
        assert_eq!(outer.line_state(line), D);
    }
    assert_eq!(outer.line_state(LineType::XAxis(0)), F);
    fill(&mut outer, OuterPos::new(0, 0), "XXX ___ ___");
    fill(&mut outer, OuterPos::new(2, 2), "XXX ___ ___");
    assert_eq!(outer.line_state(LineType::MainDiagonal), D);
    assert_eq!(outer.board_state(), F);
}

#[test]
fn a_decided_inner_board_refuses_symbols_on_the_outer_board() {
    let mut outer = OuterBoard::new();
    let at = OuterPos::new(2, 1);
    fill(&mut outer, at, "OOO ___ ___");
    let pos = GlobalPos::from_parts(at, InnerPos::new(2, 2));
    assert!(!outer.could_place_symbol(pos));
    assert_eq!(
        outer.try_place_symbol(pos, PlayerSymbol::X),
        Err(PlaceSymbolError::BoardNotPlaceable)
    );
    assert_eq!(outer.trivial_tile(pos), TrivialTileState::Free);
    let taken = GlobalPos::from_parts(OuterPos::new(0, 0), InnerPos::new(0, 0));
    assert_eq!(outer.try_place_symbol(taken, PlayerSymbol::X), Ok(()));
    assert_eq!(
        outer.try_place_symbol(taken, PlayerSymbol::O),
        Err(PlaceSymbolError::TrivialTileNotFree)
    );
}

#[test]
fn three_inner_boards_in_a_row_win_the_outer_board() {
    let mut outer = OuterBoard::new();
    for x in 0..3u8 {
        assert_eq!(outer.board_state(), F);
        fill(&mut outer, OuterPos::new(x, 1), "O__ _O_ __O");
    }
    assert_eq!(outer.board_state(), O);
    assert_eq!(outer.line_state(LineType::XAxis(1)), O);
    for i in 0..81usize {
        let pos = GlobalPos::new((i / 9) as u8, (i % 9) as u8);
        assert!(!outer.could_place_symbol(pos));
        assert_eq!(
            outer.try_place_symbol(pos, PlayerSymbol::X),
            Err(PlaceSymbolError::BoardNotPlaceable)
        );
    }
    assert_eq!(outer.board_state(), O);
}

#[test]
fn an_outer_board_of_decided_boards_without_a_line_is_drawn() {
    let mut outer = OuterBoard::new();
    let winners = "XOX XOO OX_";
    for (i, c) in winners.chars().filter(|c| !c.is_whitespace()).enumerate() {
        let at = OuterPos::from_linear_idx(i);
        match c {
            'X' => fill(&mut outer, at, "XXX ___ ___"),
            'O' => fill(&mut outer, at, "OOO ___ ___"),
            _ => fill(&mut outer, at, "XOX XOO OX_"),
        }
    }
    assert_eq!(outer.board_state(), F);
    let last = GlobalPos::from_parts(OuterPos::new(2, 2), InnerPos::new(2, 2));
    assert_eq!(outer.try_place_symbol(last, PlayerSymbol::O), Ok(()));
    assert_eq!(outer.inner_board(OuterPos::new(2, 2)).board_state(), D);
    assert_eq!(outer.board_state(), D);
    assert!(outer.placeable_boards().is_empty());
    assert_eq!(OuterBoard::default().board_state(), F);
}
