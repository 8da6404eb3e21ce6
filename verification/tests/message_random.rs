use uttt::game::RoundState;
use uttt::message::{
    frame_message, length_bytes, length_of, ClientMessage, ClientReqRoundStart, MessageBuffer,
    ServerMessage, NBYTES_MESSAGE_LENGTH,
};
use uttt::player::PlayerSymbol;
use uttt::pos::{GlobalPos, InnerPos, OuterPos};
use uttt::random::{choose_random_tile, nth_free_tile, open_boards};

#[test]
fn lengths_are_written_most_significant_byte_first() {
    assert_eq!(NBYTES_MESSAGE_LENGTH, 4);
    assert_eq!(length_bytes(0), [0, 0, 0, 0]);
    assert_eq!(length_bytes(5), [0, 0, 0, 5]);
    assert_eq!(length_bytes(0x0102_0304), [1, 2, 3, 4]);
    assert_eq!(length_bytes(u32::MAX), [255, 255, 255, 255]);
    assert_eq!(length_of([1, 2, 3, 4]), 0x0102_0304);
    assert_eq!(length_of([0, 0, 1, 0]), 256);
    for len in [0u32, 1, 255, 256, 65_535, 65_536, 16_777_216, u32::MAX] {
        assert_eq!(length_bytes(len), len.to_be_bytes());
        assert_eq!(length_of(length_bytes(len)), len);
    }
}

#[test]
fn a_frame_is_length_then_payload() {
    assert_eq!(frame_message(b"abc"), vec![0, 0, 0, 3, b'a', b'b', b'c']);
    assert_eq!(frame_message(b""), vec![0, 0, 0, 0]);
    let long = vec![7u8; 300];
    let frame = frame_message(&long);
    assert_eq!(&frame[..4], &[0, 0, 1, 44]);
    assert_eq!(&frame[4..], &long[..]);
}

#[test]
fn a_message_is_read_once_it_is_whole() {
    let mut buffer = MessageBuffer::new();
    assert_eq!(buffer.try_read_message(), None);
    let mut bytes = frame_message(b"GiveUp");
    bytes.extend_from_slice(&frame_message(b"StartRoundRequest"));
    let last = bytes.len() - 1;
    for piece in bytes[..last].chunks(3) {
        buffer.receive(piece);
    }
    assert_eq!(buffer.try_read_message(), Some(b"GiveUp".to_vec()));
    assert_eq!(buffer.try_read_message(), None);
    buffer.receive(&bytes[last..]);
    assert_eq!(buffer.try_read_message(), Some(b"StartRoundRequest".to_vec()));
    assert_eq!(buffer.try_read_message(), None);
}

#[test]
fn every_piece_of_a_frame_short_of_all_is_no_message() {
    let frame = frame_message(b"PlaceSymbol((4,4))");
    for n in 0..frame.len() {
        let mut buffer = MessageBuffer::new();
        buffer.receive(&frame[..n]);
        assert_eq!(buffer.try_read_message(), None);
        buffer.receive(&frame[n..]);
        assert_eq!(buffer.try_read_message(), Some(b"PlaceSymbol((4,4))".to_vec()));
    }
}

#[test]
fn queued_messages_leave_in_pieces() {
    let mut buffer = MessageBuffer::new();
    assert!(buffer.unsent_bytes().is_empty());
    assert!(buffer.mark_sent(0));
    buffer.queue_message(b"ab");
    buffer.queue_message(b"c");
    assert_eq!(buffer.unsent_bytes(), &[0, 0, 0, 2, b'a', b'b', 0, 0, 0, 1, b'c']);
    assert!(!buffer.mark_sent(5));
    assert_eq!(buffer.unsent_bytes(), &[b'b', 0, 0, 0, 1, b'c']);
    assert!(!buffer.mark_sent(0));
    assert!(buffer.mark_sent(6));
    assert!(buffer.unsent_bytes().is_empty());
}

#[test]
fn messages_give_what_they_carry() {
    let pos = GlobalPos::new(2, 6);
    assert_eq!(ServerMessage::SymbolAssignment(PlayerSymbol::O).symbol_assignment(), PlayerSymbol::O);
    assert_eq!(ServerMessage::RoundStart(PlayerSymbol::X).round_start(), PlayerSymbol::X);
    assert_eq!(ServerMessage::OpponentPlaceSymbol(pos).opponent_place_symbol(), pos);
    ServerMessage::OpponentGiveUp.opponent_give_up();
    assert_eq!(ClientMessage::PlaceSymbol(pos).place_symbol(), pos);
    ClientMessage::StartRoundRequest.start_round_request();
    ClientMessage::GiveUp.give_up();
    assert_eq!(ClientReqRoundStart, ClientReqRoundStart);
}

#[test]
fn an_unbound_player_may_play_on_every_open_board() {
    let round = RoundState::new(PlayerSymbol::X);
    let boards = open_boards(&round);
    assert_eq!(boards.len(), 9);
    for (i, board) in boards.iter().enumerate() {
        assert_eq!(*board, OuterPos::from_linear_idx(i));
    }
}

#[test]
fn a_bound_player_may_play_on_one_board() {
    let mut round = RoundState::new(PlayerSymbol::X);
    assert_eq!(round.try_play_move(GlobalPos::new(0, 5)), Ok(()));
    assert_eq!(open_boards(&round), vec![OuterPos::new(0, 2)]);
}

#[test]
fn free_tiles_are_counted_in_row_major_order() {
    let mut round = RoundState::new(PlayerSymbol::X);
    assert_eq!(round.try_play_move(GlobalPos::new(4, 4)), Ok(()));
    assert_eq!(round.try_play_move(GlobalPos::new(3, 3)), Ok(()));
    let board = round.board().inner_board(OuterPos::new(1, 1));
    assert_eq!(nth_free_tile(board, 0), Some(InnerPos::new(0, 1)));
    assert_eq!(nth_free_tile(board, 2), Some(InnerPos::new(1, 0)));
    assert_eq!(nth_free_tile(board, 3), Some(InnerPos::new(1, 2)));
    assert_eq!(nth_free_tile(board, 6), Some(InnerPos::new(2, 2)));
    assert_eq!(nth_free_tile(board, 7), None);
}

#[test]
fn random_moves_are_legal_until_the_round_ends() {
    for starting_player in [PlayerSymbol::X, PlayerSymbol::O] {
        for _ in 0..20 {
            let mut round = RoundState::new(starting_player);
            let mut moves = 0;
            while round.outcome().is_none() {
                let pos = choose_random_tile(&round);
                assert!(round.could_play_move(pos));
                if let Some(zone) = round.current_outer_pos() {
                    assert_eq!(pos.outer(), zone);
                }
                assert_eq!(round.try_play_move(pos), Ok(()));
                moves += 1;
            }
            assert!(moves >= 17 && moves <= 81);
        }
    }
}

#[test]
fn random_moves_do_not_all_fall_on_one_tile() {
    let round = RoundState::new(PlayerSymbol::X);
    let first = choose_random_tile(&round);
    let mut differs = false;
    for _ in 0..200 {
        if choose_random_tile(&round) != first {
            differs = true;
        }
    }
    assert!(differs);
}
