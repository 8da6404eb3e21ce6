use uttt::board::TrivialBoard;
use uttt::line::LineType;
use uttt::parse::{parse_board, TrivialBoardParseError};
use uttt::player::PlayerSymbol;
use uttt::pos::InnerPos;
use uttt::state::TileBoardState;
use uttt::tile::TrivialTileState;

#[test]
fn check_draw_detection() {
    let text = "\n      XOO\n      OXX\n      _XO\n      ";
    let mut board = text.parse::<TrivialBoard>().unwrap();
    assert_eq!(board.board_state(), TileBoardState::Free);
    assert_eq!(board.free_tiles(), vec![InnerPos::new(2, 0)]);
    assert_eq!(board.try_place_symbol(InnerPos::new(2, 0), PlayerSymbol::O), Ok(()));
    assert_eq!(board.board_state(), TileBoardState::Drawn);
}

#[test]
fn a_board_is_read_tile_by_tile() {
    let board = parse_board("X_O\n_X_\nO__").unwrap();
    let expected = [
        TrivialTileState::Won(PlayerSymbol::X),
        TrivialTileState::Free,
        TrivialTileState::Won(PlayerSymbol::O),
        TrivialTileState::Free,
        TrivialTileState::Won(PlayerSymbol::X),
        TrivialTileState::Free,
        TrivialTileState::Won(PlayerSymbol::O),
        TrivialTileState::Free,
        TrivialTileState::Free,
    ];
    for i in 0..9usize {
        assert_eq!(board.trivial_tile(InnerPos::from_linear_idx(i)), expected[i]);
    }
    assert_eq!(board.board_state(), TileBoardState::Free);
    assert_eq!(board.line_state(LineType::AntiDiagonal), TileBoardState::Drawn);
    assert_eq!(board.line_state(LineType::YAxis(1)), TileBoardState::Free);
}

#[test]
fn white_space_of_any_kind_is_skipped() {
    let board = parse_board(" \tX\u{a0}X\u{2003}X\r\n___\u{3000}___ ").unwrap();
    assert_eq!(board.board_state(), TileBoardState::Won(PlayerSymbol::X));
    assert_eq!(parse_board("_________").unwrap().board_state(), TileBoardState::Free);
}

#[test]
fn a_win_on_the_last_symbol_is_read() {
    let board = parse_board("XOX OXO OXX").unwrap();
    assert_eq!(board.board_state(), TileBoardState::Won(PlayerSymbol::X));
    let drawn = parse_board("XOX XOO OXX").unwrap();
    assert_eq!(drawn.board_state(), TileBoardState::Drawn);
}

#[test]
fn the_first_character_that_is_no_tile_is_reported() {
    assert_eq!(parse_board("XO? OXX _XO").err(), Some(TrivialBoardParseError::InvalidChar('?')));
    assert_eq!(parse_board("xO_ !__ ___").err(), Some(TrivialBoardParseError::InvalidChar('x')));
    assert_eq!(parse_board("XO_ 0").err(), Some(TrivialBoardParseError::InvalidChar('0')));
    assert_eq!(
        "XXXXXXXXXXXXa".parse::<TrivialBoard>().err(),
        Some(TrivialBoardParseError::InvalidChar('a'))
    );
}

#[test]
fn a_text_without_nine_tiles_is_refused() {
    assert_eq!(parse_board("").err(), Some(TrivialBoardParseError::BadSymbolCount));
    assert_eq!(parse_board("   \n").err(), Some(TrivialBoardParseError::BadSymbolCount));
    assert_eq!(parse_board("XOX XOO OX").err(), Some(TrivialBoardParseError::BadSymbolCount));
    assert_eq!(parse_board("XOX XOO OXX _").err(), Some(TrivialBoardParseError::BadSymbolCount));
}

#[test]
fn a_symbol_after_the_decision_is_refused() {
    assert_eq!(
        parse_board("XXX OO_ ___").err(),
        Some(TrivialBoardParseError::SymbolAfterDecision)
    );
    assert_eq!(
        parse_board("XXX OOO ___").err(),
        Some(TrivialBoardParseError::SymbolAfterDecision)
    );
    assert!(parse_board("OO_ XXX ___").is_ok());
    assert!(parse_board("OO_ ___ XXX").is_ok());
}
