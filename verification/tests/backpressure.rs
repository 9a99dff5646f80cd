//! The per-player move channel holds exactly one frame: a second submission
//! is refused until the engine consumes the first, and frames are neither
//! lost nor reordered within one player's stream.

use crossbeam::channel::{bounded, TrySendError};
use knights::engine::ChannelMsg;
use knights::types::{Move, Player, Position};

fn mv(from: (u8, u8), to: (u8, u8)) -> Move {
    Move {
        player: Player::White,
        from: Position { x: from.0, y: from.1 },
        to: Position { x: to.0, y: to.1 },
    }
}

#[test]
fn second_move_waits_for_the_first() {
    let (tx, rx) = bounded::<ChannelMsg>(1);
    let first = mv((2, 6), (0, 5));
    let second = mv((0, 5), (2, 4));

    tx.send(ChannelMsg::Msg(Some(first))).unwrap();
    // The slot is occupied: the second submission does not go through.
    match tx.try_send(ChannelMsg::Msg(Some(second))) {
        Err(TrySendError::Full(_)) => {}
        other => panic!("expected the channel to be full, got {:?}", other),
    }

    // Once the engine consumes the first move, the second goes through,
    // and the two arrive in submission order.
    let got = rx.recv().unwrap();
    assert!(matches!(got, ChannelMsg::Msg(Some(m)) if m == first));
    tx.try_send(ChannelMsg::Msg(Some(second))).unwrap();
    let got = rx.recv().unwrap();
    assert!(matches!(got, ChannelMsg::Msg(Some(m)) if m == second));
}
