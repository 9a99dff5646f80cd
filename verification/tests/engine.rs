use knights::codec::encode_move;
use knights::engine::{assign_role, classify_frame, engine_step, ChannelMsg, EngineStatus};
use knights::gamestate::GameState;
use knights::types::{Board, Move, Piece, Player, Position};

fn mv(player: Player, from: (u8, u8), to: (u8, u8)) -> Move {
    Move {
        player,
        from: Position { x: from.0, y: from.1 },
        to: Position { x: to.0, y: to.1 },
    }
}

#[test]
fn roles_are_assigned_by_connection_order() {
    assert_eq!(assign_role(0), Some(Player::White));
    assert_eq!(assign_role(1), Some(Player::Black));
    assert_eq!(assign_role(2), None);
    assert_eq!(assign_role(7), None);
}

#[test]
fn empty_frame_signals_close() {
    assert!(matches!(
        classify_frame(Player::White, &vec![]),
        ChannelMsg::Close
    ));
}

#[test]
fn own_frame_is_forwarded() {
    let m = mv(Player::White, (2, 6), (0, 5));
    let msg = classify_frame(Player::White, &encode_move(&m));
    assert!(matches!(msg, ChannelMsg::Msg(Some(got)) if got == m));
}

#[test]
fn foreign_frame_is_dropped() {
    let m = mv(Player::Black, (1, 0), (2, 2));
    let msg = classify_frame(Player::White, &encode_move(&m));
    assert!(matches!(msg, ChannelMsg::Msg(None)));
}

#[test]
fn undecodable_frame_is_dropped() {
    let msg = classify_frame(Player::White, &vec![255, 255]);
    assert!(matches!(msg, ChannelMsg::Msg(None)));
}

#[test]
fn close_aborts_without_touching_state() {
    let mut state = GameState::default();
    let before = state.clone();
    let status = engine_step(&mut state, ChannelMsg::Close);
    assert_eq!(status, EngineStatus::Aborted);
    assert_eq!(state, before);
}

#[test]
fn dropped_frame_keeps_running() {
    let mut state = GameState::default();
    let before = state.clone();
    let status = engine_step(&mut state, ChannelMsg::Msg(None));
    assert_eq!(status, EngineStatus::Running);
    assert_eq!(state, before);
}

#[test]
fn move_message_is_applied() {
    let mut state = GameState::default();
    let status = engine_step(
        &mut state,
        ChannelMsg::Msg(Some(mv(Player::White, (2, 6), (0, 5)))),
    );
    assert_eq!(status, EngineStatus::Running);
    assert_eq!(state.current_player, Player::Black);
    assert_eq!(state.move_history.len(), 1);
}

#[test]
fn winning_move_finishes_the_session() {
    let mut board = Board(vec![Piece::Empty; 64]);
    for &(x, y) in [(0u8, 0u8), (4, 4), (5, 5), (2, 5)].iter() {
        board.0[y as usize * 8 + x as usize] = Piece::White;
    }
    for &(x, y) in [(1u8, 2u8), (7, 7), (7, 5), (6, 2)].iter() {
        board.0[y as usize * 8 + x as usize] = Piece::Black;
    }
    let mut state = GameState {
        board,
        current_player: Player::White,
        move_history: vec![],
        finished: false,
        winner: None,
    };
    let status = engine_step(
        &mut state,
        ChannelMsg::Msg(Some(mv(Player::White, (0, 0), (1, 2)))),
    );
    assert_eq!(status, EngineStatus::Finished);
    assert!(state.is_finished());
    assert_eq!(state.get_winner(), Some(Player::White));
}
