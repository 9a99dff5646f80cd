//! The engine's per-iteration decision logic, the per-player frame intake
//! filter, and the listener's role assignment.
//!
//! The blocking work around these functions — the socket reads, the
//! single-slot channels, the multiplexed wait and the broadcast writes —
//! runs outside the library and hands in plain values.

use vstd::prelude::*;

use crate::codec::{decode_move, spec_decode_move};
use crate::gamestate::GameState;
use crate::types::{Move, Player};

verus! {

/// What an intake worker forwards to the engine: a read failure or end of
/// stream as `Close`, otherwise the frame's move — or `None` where the
/// frame did not decode or claimed the wrong side (silently dropped).
#[derive(Debug, Clone, Copy)]
pub enum ChannelMsg {
    Close,
    Msg(Option<Move>),
}

/// Where one engine iteration leaves the session.
#[derive(Debug, PartialEq, Eq, Structural, Clone, Copy)]
pub enum EngineStatus {
    Running,
    Finished,
    Aborted,
}

/// The move an intake worker forwards for a frame: the decoded move when it
/// claims the worker's assigned side, `None` otherwise.
pub open spec fn spec_intake_filter(assigned: Player, decoded: Option<Move>) -> Option<Move> {
    match decoded {
        Some(m) => if m.player == assigned {
            Some(m)
        } else {
            None
        },
        None => None,
    }
}

/// Classify one frame read on a player's connection: an empty frame signals
/// connection loss; anything else carries the decoded move, filtered by the
/// claimed side.
pub fn classify_frame(assigned: Player, frame: &Vec<u8>) -> (msg: ChannelMsg)
    ensures
        msg == if frame@.len() == 0 {
            ChannelMsg::Close
        } else {
            ChannelMsg::Msg(spec_intake_filter(assigned, spec_decode_move(frame@)))
        },
{
    if frame.len() == 0 {
        return ChannelMsg::Close;
    }
    match decode_move(frame) {
        Some(m) => {
            if m.player == assigned {
                ChannelMsg::Msg(Some(m))
            } else {
                ChannelMsg::Msg(None)
            }
        },
        None => ChannelMsg::Msg(None),
    }
}

/// The role the listener assigns by connection order: the first connection
/// plays White, the second plays Black, later ones spectate.
pub fn assign_role(player_count: usize) -> (r: Option<Player>)
    ensures
        player_count == 0 ==> r == Some(Player::White),
        player_count == 1 ==> r == Some(Player::Black),
        player_count >= 2 ==> r is None,
{
    match player_count {
        0 => Some(Player::White),
        1 => Some(Player::Black),
        _ => None,
    }
}

/// One engine iteration's decision on a received message: a `Close` from
/// either intake aborts the session with the state untouched; a dropped
/// frame changes nothing; a move is attempted, accepted or not. The status
/// reports whether the (possibly unchanged) state has now resolved the
/// game. The caller broadcasts the state after every non-aborting step.
pub fn engine_step(state: &mut GameState, msg: ChannelMsg) -> (status: EngineStatus)
    requires
        old(state).wf(),
    ensures
        final(state).wf(),
        msg is Close ==> *final(state) == *old(state) && status is Aborted,
        msg == ChannelMsg::Msg(Option::<Move>::None) ==> *final(state) == *old(state),
        forall|mv: Move|
            msg == ChannelMsg::Msg(Some(mv)) ==> old(state).move_applied(mv, *final(state)),
        !(msg is Close) ==> status == if final(state).finished {
            EngineStatus::Finished
        } else {
            EngineStatus::Running
        },
{
    match msg {
        ChannelMsg::Close => EngineStatus::Aborted,
        ChannelMsg::Msg(decoded) => {
            if let Some(mv) = decoded {
                state.make_move(mv);
            }
            if state.is_finished() {
                EngineStatus::Finished
            } else {
                EngineStatus::Running
            }
        },
    }
}

} // verus!
