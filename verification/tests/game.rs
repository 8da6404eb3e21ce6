use uttt::board::PlaceSymbolError;
use uttt::game::{MoveError, PlayerAction, RoundOutcome, RoundState, Stats};
use uttt::player::PlayerSymbol;
use uttt::pos::{GlobalPos, InnerPos, OuterPos};
use uttt::state::TileBoardState;
use uttt::tile::TrivialTileState;

fn all_tiles() -> Vec<GlobalPos> {
    let mut tiles = Vec::new();
    for x in 0..9u8 {
        for y in 0..9u8 {
            tiles.push(GlobalPos::new(x, y));
        }
    }
    tiles
}

fn at(outer: (u8, u8), inner: (u8, u8)) -> GlobalPos {
    GlobalPos::from_parts(OuterPos::new(outer.0, outer.1), InnerPos::new(inner.0, inner.1))
}

#[test]
fn a_new_round_is_unbound_and_open() {
    let round = RoundState::new(PlayerSymbol::O);
    assert_eq!(round.current_player(), PlayerSymbol::O);
    assert_eq!(round.current_outer_pos(), None);
    assert_eq!(round.outcome(), None);
    assert_eq!(round.board().board_state(), TileBoardState::Free);
    for pos in all_tiles() {
        assert!(round.could_play_move(pos));
    }
}

#[test]
fn the_first_move_binds_the_opponent() {
    let mut round = RoundState::new(PlayerSymbol::X);
    let pos = GlobalPos::new(4, 4);
    assert_eq!(pos.outer(), OuterPos::new(1, 1));
    assert_eq!(pos.inner(), InnerPos::new(1, 1));
    assert_eq!(round.try_play_move(pos), Ok(()));
    assert_eq!(round.board().inner_board(OuterPos::new(1, 1)).board_state(), TileBoardState::Free);
    assert_eq!(round.board().trivial_tile(pos), TrivialTileState::Won(PlayerSymbol::X));
    assert_eq!(round.current_outer_pos(), Some(OuterPos::new(1, 1)));
    assert_eq!(round.current_player(), PlayerSymbol::O);
    assert_eq!(round.outcome(), None);
}

#[test]
fn a_move_outside_the_zone_is_refused() {
    let mut round = RoundState::new(PlayerSymbol::X);
    assert_eq!(round.try_play_move(at((0, 0), (2, 1))), Ok(()));
    assert_eq!(round.current_outer_pos(), Some(OuterPos::new(2, 1)));
    let outside = at((0, 0), (1, 1));
    assert!(!round.could_play_move(outside));
    assert_eq!(round.try_play_move(outside), Err(MoveError::WrongOuterPos));
    assert_eq!(round.current_player(), PlayerSymbol::O);
    assert_eq!(round.current_outer_pos(), Some(OuterPos::new(2, 1)));
    assert_eq!(round.board().trivial_tile(outside), TrivialTileState::Free);
    let inside = at((2, 1), (0, 0));
    assert!(round.could_play_move(inside));
    assert_eq!(round.try_play_move(inside), Ok(()));
    assert_eq!(round.board().trivial_tile(inside), TrivialTileState::Won(PlayerSymbol::O));
}

#[test]
fn a_taken_tile_in_the_zone_is_refused() {
    let mut round = RoundState::new(PlayerSymbol::X);
    assert_eq!(round.try_play_move(at((1, 1), (1, 1))), Ok(()));
    let taken = at((1, 1), (1, 1));
    assert!(!round.could_play_move(taken));
    assert_eq!(
        round.try_play_move(taken),
        Err(MoveError::PlaceSymbol(PlaceSymbolError::TrivialTileNotFree))
    );
    assert_eq!(round.current_player(), PlayerSymbol::O);
    assert_eq!(round.board().trivial_tile(taken), TrivialTileState::Won(PlayerSymbol::X));
}

/// A step of a fixed sequence of numbers, for play that is the same on
/// every run.
fn step(seed: &mut u64) -> usize {
    *seed = seed.wrapping_mul(6364136223846793005).wrapping_add(1442695040888963407);
    (*seed >> 33) as usize
}

struct Seen {
    rounds_won: usize,
    rounds_drawn: usize,
    sent_to_drawn_board: usize,
    sent_to_won_board: usize,
}

fn play_fixed_rounds(rounds: u64) -> Seen {
    let mut seen = Seen { rounds_won: 0, rounds_drawn: 0, sent_to_drawn_board: 0, sent_to_won_board: 0 };
    for game in 0..rounds {
        let mut seed = game * 7919 + 17;
        let mut round = RoundState::new(PlayerSymbol::X);
        let mut moves = 0;
        while round.outcome().is_none() {
            let legal: Vec<GlobalPos> =
                all_tiles().into_iter().filter(|p| round.could_play_move(*p)).collect();
            assert!(!legal.is_empty());
            if let Some(zone) = round.current_outer_pos() {
                assert!(round.board().inner_board(zone).board_state().is_free());
                assert!(legal.iter().all(|p| p.outer() == zone));
            }
            for pos in all_tiles() {
                if !legal.contains(&pos) {
                    let player = round.current_player();
                    let zone = round.current_outer_pos();
                    assert!(round.try_play_move(pos).is_err());
                    assert_eq!(round.current_player(), player);
                    assert_eq!(round.current_outer_pos(), zone);
                    assert_eq!(round.board().trivial_tile(pos) == TrivialTileState::Free,
                        !round.board().trivial_tile(pos).is_won());
                }
            }
            let pos = legal[step(&mut seed) % legal.len()];
            let player = round.current_player();
            let decided_before: Vec<TileBoardState> = (0..9)
                .map(|o| round.board().inner_board(OuterPos::from_linear_idx(o)).board_state())
                .collect();
            assert_eq!(round.try_play_move(pos), Ok(()));
            moves += 1;
            assert_eq!(round.board().trivial_tile(pos), TrivialTileState::Won(player));
            assert_eq!(round.current_player(), player.other());
            let target = pos.inner().as_outer();
            let target_state = round.board().inner_board(target).board_state();
            if target_state.is_decided() {
                assert_eq!(round.current_outer_pos(), None);
                if target_state.is_drawn() {
                    seen.sent_to_drawn_board += 1;
                } else {
                    seen.sent_to_won_board += 1;
                }
                if round.outcome().is_none() {
                    for other in all_tiles() {
                        let open = round.board().inner_board(other.outer()).board_state().is_free()
                            && round.board().trivial_tile(other).is_free();
                        assert_eq!(round.could_play_move(other), open);
                    }
                }
            } else {
                assert_eq!(round.current_outer_pos(), Some(target));
            }
            for o in 0..9usize {
                let now = round.board().inner_board(OuterPos::from_linear_idx(o)).board_state();
                if decided_before[o].is_decided() {
                    assert_eq!(now, decided_before[o]);
                }
            }
        }
        assert!(moves <= 81);
        match round.outcome() {
            Some(RoundOutcome::Win(_)) => seen.rounds_won += 1,
            Some(RoundOutcome::Draw) => seen.rounds_drawn += 1,
            None => unreachable!(),
        }
        let outcome = round.outcome();
        for pos in all_tiles() {
            assert!(!round.could_play_move(pos));
            assert!(round.try_play_move(pos).is_err());
            assert_eq!(round.outcome(), outcome);
        }
    }
    seen
}

#[test]
fn fixed_rounds_keep_the_rules() {
    let seen = play_fixed_rounds(60);
    assert_eq!(seen.rounds_won + seen.rounds_drawn, 60);
    assert!(seen.rounds_won > 0);
    assert!(seen.sent_to_won_board > 0);
    assert!(seen.sent_to_drawn_board > 0);
}

#[test]
fn player_actions_give_their_move() {
    let pos = GlobalPos::new(3, 8);
    assert_eq!(PlayerAction::MakeMove(pos).make_move(), pos);
    PlayerAction::GiveUp.opponent_give_up();
}

#[test]
fn stats_count_rounds_and_wins() {
    let mut stats = Stats::new();
    assert_eq!(stats.ngames, 0);
    assert_eq!(stats.scores, [0, 0]);
    stats.update(RoundOutcome::Win(PlayerSymbol::O));
    stats.update(RoundOutcome::Draw);
    stats.update(RoundOutcome::Win(PlayerSymbol::O));
    stats.update(RoundOutcome::Win(PlayerSymbol::X));
    assert_eq!(stats.ngames, 4);
    assert_eq!(stats.scores, [1, 2]);
    let fresh = Stats::default();
    assert_eq!(fresh.ngames, 0);
    assert_eq!(fresh.scores, [0, 0]);
}

#[test]
fn sending_the_opponent_to_a_drawn_board_frees_them() {
    let drawn_target = OuterPos::new(2, 2);
    let mut found = false;
    let mut game = 0u64;
    while !found && game < 2000 {
        let mut seed = game * 104729 + 3;
        game += 1;
        let mut round = RoundState::new(PlayerSymbol::O);
        while round.outcome().is_none() && !found {
            let legal: Vec<GlobalPos> =
                all_tiles().into_iter().filter(|p| round.could_play_move(*p)).collect();
            let pos = legal[step(&mut seed) % legal.len()];
            assert_eq!(round.try_play_move(pos), Ok(()));
            let sent_to = pos.inner().as_outer();
            if sent_to == drawn_target
                && round.board().inner_board(drawn_target).board_state() == TileBoardState::Drawn
                && round.outcome().is_none()
            {
                found = true;
                assert_eq!(round.current_outer_pos(), None);
                let mut open_boards = 0;
                for o in 0..9usize {
                    let outer = OuterPos::from_linear_idx(o);
                    let board = round.board().inner_board(outer);
                    let free = board.free_tiles();
                    if board.board_state().is_free() {
                        open_boards += 1;
                        assert!(!free.is_empty());
                        for inner in free {
                            assert!(round.could_play_move(GlobalPos::from_parts(outer, inner)));
                        }
                    } else {
                        for i in 0..9usize {
                            let inner = InnerPos::from_linear_idx(i);
                            let pos = GlobalPos::from_parts(outer, inner);
                            assert!(!round.could_play_move(pos));
                            assert_eq!(
                                round.clone_free_try(pos),
                                Err(MoveError::PlaceSymbol(PlaceSymbolError::BoardNotPlaceable))
                            );
                        }
                    }
                }
                assert!(open_boards > 0);
            }
        }
    }
    assert!(found);
}

trait TryWithoutChange {
    fn clone_free_try(&mut self, pos: GlobalPos) -> Result<(), MoveError>;
}

impl TryWithoutChange for RoundState {
    fn clone_free_try(&mut self, pos: GlobalPos) -> Result<(), MoveError> {
        let player = self.current_player();
        let zone = self.current_outer_pos();
        let result = self.try_play_move(pos);
        if result.is_err() {
            assert_eq!(self.current_player(), player);
            assert_eq!(self.current_outer_pos(), zone);
        }
        result
    }
}
