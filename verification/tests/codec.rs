use knights::codec::{decode_game_state, decode_move, encode_game_state, encode_move};
use knights::gamestate::GameState;
use knights::types::{Move, Player, Position};

fn mv(player: Player, from: (u8, u8), to: (u8, u8)) -> Move {
    Move {
        player,
        from: Position { x: from.0, y: from.1 },
        to: Position { x: to.0, y: to.1 },
    }
}

#[test]
fn move_frame_layout() {
    let frame = encode_move(&mv(Player::White, (2, 6), (0, 5)));
    assert_eq!(frame, vec![0, 2, 6, 0, 5]);
    let frame = encode_move(&mv(Player::Black, (1, 0), (2, 2)));
    assert_eq!(frame, vec![1, 1, 0, 2, 2]);
}

#[test]
fn move_round_trip() {
    let moves = [
        mv(Player::White, (2, 6), (0, 5)),
        mv(Player::Black, (7, 7), (6, 5)),
        mv(Player::White, (0, 0), (0, 0)),
        mv(Player::Black, (255, 9), (8, 77)),
    ];
    for m in moves.iter() {
        assert_eq!(decode_move(&encode_move(m)), Some(*m));
    }
}

#[test]
fn move_decode_rejects_bad_frames() {
    assert_eq!(decode_move(&vec![]), None);
    assert_eq!(decode_move(&vec![0, 1, 2, 3]), None);
    assert_eq!(decode_move(&vec![0, 1, 2, 3, 4, 5]), None);
    assert_eq!(decode_move(&vec![2, 1, 2, 3, 4]), None);
    assert_eq!(decode_move(&vec![255, 1, 2, 3, 4]), None);
}

#[test]
fn state_frame_layout() {
    let state = GameState::default();
    let frame = encode_game_state(&state);
    assert_eq!(frame.len(), 75);
    // Board cells come first, row-major: Empty, Black, Empty, Black ...
    assert_eq!(frame[0], 0);
    assert_eq!(frame[1], 2);
    // White on the bottom rows.
    assert_eq!(frame[48], 1);
    // White to move, not finished, no winner, no history.
    assert!(frame[64..75].iter().all(|&b| b == 0));
}

#[test]
fn state_round_trip_fresh() {
    let state = GameState::default();
    let decoded = decode_game_state(&encode_game_state(&state));
    assert_eq!(decoded, Some(state));
}

#[test]
fn state_round_trip_with_history() {
    let mut state = GameState::default();
    state.make_move(mv(Player::White, (2, 6), (0, 5)));
    state.make_move(mv(Player::Black, (1, 0), (2, 2)));
    assert_eq!(state.move_history.len(), 2);
    let decoded = decode_game_state(&encode_game_state(&state)).expect("frame must decode");
    assert_eq!(decoded, state);
    assert_eq!(decoded.move_history, state.move_history);
    assert_eq!(decoded.board, state.board);
}

#[test]
fn state_decode_rejects_bad_frames() {
    // Too short.
    assert_eq!(decode_game_state(&vec![]), None);
    assert_eq!(decode_game_state(&vec![0; 74]), None);
    // A board byte that stands for no piece.
    let mut frame = encode_game_state(&GameState::default());
    frame[10] = 9;
    assert_eq!(decode_game_state(&frame), None);
    // A player byte that stands for no player.
    let mut frame = encode_game_state(&GameState::default());
    frame[64] = 7;
    assert_eq!(decode_game_state(&frame), None);
    // Finished without a winner.
    let mut frame = encode_game_state(&GameState::default());
    frame[65] = 1;
    assert_eq!(decode_game_state(&frame), None);
    // A winner without being finished.
    let mut frame = encode_game_state(&GameState::default());
    frame[66] = 1;
    assert_eq!(decode_game_state(&frame), None);
    // A length field that disagrees with the frame length.
    let mut frame = encode_game_state(&GameState::default());
    frame[67] = 1;
    assert_eq!(decode_game_state(&frame), None);
    // A truncated history.
    let mut state = GameState::default();
    state.make_move(mv(Player::White, (2, 6), (0, 5)));
    let mut frame = encode_game_state(&state);
    frame.pop();
    assert_eq!(decode_game_state(&frame), None);
    // A history entry that names no player.
    let mut frame = encode_game_state(&state);
    frame[75] = 9;
    assert_eq!(decode_game_state(&frame), None);
}
