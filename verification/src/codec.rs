//! Byte codec for the wire frames: moves and full game-state snapshots.
//!
//! Layout of a game-state frame, in order: 64 board cells (one byte each,
//! row-major), the side to move, the finished flag, the winner, the history
//! length as eight little-endian bytes, then five bytes per history entry.
//! A move frame is those same five bytes on their own: the claiming side,
//! then the source and destination coordinates.

use vstd::prelude::*;

use crate::gamestate::GameState;
use crate::types::{Board, Move, Piece, Player, Position};

verus! {

/// The byte standing for a cell's contents.
pub open spec fn piece_byte(p: Piece) -> u8 {
    match p {
        Piece::Empty => 0,
        Piece::White => 1,
        Piece::Black => 2,
    }
}

/// The byte standing for a player.
pub open spec fn player_byte(p: Player) -> u8 {
    match p {
        Player::White => 0,
        Player::Black => 1,
    }
}

/// The byte standing for a flag.
pub open spec fn flag_byte(b: bool) -> u8 {
    if b {
        1
    } else {
        0
    }
}

/// The byte standing for the winner field.
pub open spec fn winner_byte(w: Option<Player>) -> u8 {
    match w {
        None => 0,
        Some(Player::White) => 1,
        Some(Player::Black) => 2,
    }
}

/// The five bytes standing for one move.
pub open spec fn move_bytes(m: Move) -> Seq<u8> {
    seq![player_byte(m.player), m.from.x, m.from.y, m.to.x, m.to.y]
}

/// The move a five-byte frame stands for, or `None` where the frame is not
/// five bytes long or names no player.
pub open spec fn spec_decode_move(bytes: Seq<u8>) -> Option<Move> {
    if bytes.len() == 5 && bytes[0] <= 1 {
        Some(
            Move {
                player: if bytes[0] == 0 {
                    Player::White
                } else {
                    Player::Black
                },
                from: Position { x: bytes[1], y: bytes[2] },
                to: Position { x: bytes[3], y: bytes[4] },
            },
        )
    } else {
        None
    }
}

/// Encode one move as a five-byte frame. Every encoded frame decodes back
/// to the same move.
pub fn encode_move(m: &Move) -> (r: Vec<u8>)
    ensures
        r@ == move_bytes(*m),
        spec_decode_move(r@) == Some(*m),
{
    let mut out: Vec<u8> = Vec::new();
    out.push(match m.player {
        Player::White => 0,
        Player::Black => 1,
    });
    out.push(m.from.x);
    out.push(m.from.y);
    out.push(m.to.x);
    out.push(m.to.y);
    proof {
        assert(out@ =~= move_bytes(*m));
    }
    out
}

/// The board cells of a state frame: one byte per cell, row-major.
pub open spec fn board_bytes(board: Seq<Piece>) -> Seq<u8> {
    Seq::new(board.len(), |i: int| piece_byte(board[i]))
}

/// Eight little-endian bytes of a history length.
pub open spec fn u64_le(n: u64) -> Seq<u8> {
    seq![
        (n & 0xff) as u8,
        ((n >> 8) & 0xff) as u8,
        ((n >> 16) & 0xff) as u8,
        ((n >> 24) & 0xff) as u8,
        ((n >> 32) & 0xff) as u8,
        ((n >> 40) & 0xff) as u8,
        ((n >> 48) & 0xff) as u8,
        ((n >> 56) & 0xff) as u8,
    ]
}

/// The history entries of a state frame: five bytes per move, in order.
pub open spec fn history_bytes(h: Seq<Move>) -> Seq<u8>
    decreases h.len(),
{
    if h.len() == 0 {
        Seq::empty()
    } else {
        history_bytes(h.drop_last()) + move_bytes(h.last())
    }
}

/// The full state frame.
pub open spec fn state_bytes(s: GameState) -> Seq<u8> {
    board_bytes(s.board@) + seq![
        player_byte(s.current_player),
        flag_byte(s.finished),
        winner_byte(s.winner),
    ] + u64_le(s.move_history@.len() as u64) + history_bytes(s.move_history@)
}

pub proof fn lemma_history_bytes_len(h: Seq<Move>)
    ensures
        history_bytes(h).len() == 5 * h.len(),
    decreases h.len(),
{
    if h.len() > 0 {
        lemma_history_bytes_len(h.drop_last());
    }
}

/// Appending a move appends its five bytes.
pub proof fn lemma_history_bytes_push(h: Seq<Move>, m: Move)
    ensures
        history_bytes(h.push(m)) == history_bytes(h) + move_bytes(m),
{
    assert(h.push(m).drop_last() =~= h);
    assert(h.push(m).last() == m);
}

/// Extending the encoded prefix of a history by one entry.
pub proof fn lemma_history_bytes_take_succ(h: Seq<Move>, k: int)
    requires
        0 <= k < h.len(),
    ensures
        history_bytes(h.take(k + 1)) == history_bytes(h.take(k)) + move_bytes(h[k]),
{
    assert(h.take(k + 1).drop_last() =~= h.take(k));
    assert(h.take(k + 1).last() == h[k]);
}

/// Where each history entry's bytes sit inside the encoded history.
pub proof fn lemma_history_bytes_at(h: Seq<Move>, k: int)
    requires
        0 <= k < h.len(),
    ensures
        history_bytes(h).len() == 5 * h.len(),
        history_bytes(h).subrange(5 * k, 5 * k + 5) == move_bytes(h[k]),
    decreases h.len(),
{
    lemma_history_bytes_len(h);
    lemma_history_bytes_len(h.drop_last());
    if k == h.len() - 1 {
        assert(history_bytes(h).subrange(5 * k, 5 * k + 5) =~= move_bytes(h.last()));
    } else {
        lemma_history_bytes_at(h.drop_last(), k);
        assert(h.drop_last()[k] == h[k]);
        assert(history_bytes(h).subrange(5 * k, 5 * k + 5) =~= history_bytes(
            h.drop_last(),
        ).subrange(5 * k, 5 * k + 5));
    }
}

/// The length and the fixed fields of a state frame, as every well-formed
/// state encodes them.
pub proof fn lemma_state_bytes_shape(s: GameState)
    requires
        s.wf(),
    ensures
        state_bytes(s).len() == 75 + 5 * s.move_history@.len(),
        forall|i: int| 0 <= i < 64 ==> state_bytes(s)[i] == piece_byte(s.board@[i]),
        state_bytes(s)[64] == player_byte(s.current_player),
        state_bytes(s)[65] == flag_byte(s.finished),
        state_bytes(s)[66] == winner_byte(s.winner),
        state_bytes(s).subrange(67, 75) == u64_le(s.move_history@.len() as u64),
        state_bytes(s).subrange(75, state_bytes(s).len() as int) == history_bytes(
            s.move_history@,
        ),
{
    lemma_history_bytes_len(s.move_history@);
    assert(state_bytes(s).subrange(67, 75) =~= u64_le(s.move_history@.len() as u64));
    assert(state_bytes(s).subrange(75, state_bytes(s).len() as int) =~= history_bytes(
        s.move_history@,
    ));
}

/// Where each history entry's bytes sit inside a state frame.
pub proof fn lemma_state_bytes_move(s: GameState, k: int)
    requires
        s.wf(),
        0 <= k < s.move_history@.len(),
    ensures
        state_bytes(s).len() == 75 + 5 * s.move_history@.len(),
        state_bytes(s).subrange(75 + 5 * k, 75 + 5 * k + 5) == move_bytes(s.move_history@[k]),
{
    lemma_state_bytes_shape(s);
    lemma_history_bytes_at(s.move_history@, k);
    assert(state_bytes(s).subrange(75 + 5 * k, 75 + 5 * k + 5) =~= history_bytes(
        s.move_history@,
    ).subrange(5 * k, 5 * k + 5));
}

/// Append the eight little-endian bytes of `n`.
fn push_u64_le(out: &mut Vec<u8>, n: u64)
    ensures
        final(out)@ == old(out)@ + u64_le(n),
{
    proof {
        assert((n & 0xff) <= 0xff && ((n >> 8) & 0xff) <= 0xff && ((n >> 16) & 0xff) <= 0xff && ((
        n >> 24) & 0xff) <= 0xff && ((n >> 32) & 0xff) <= 0xff && ((n >> 40) & 0xff) <= 0xff && ((
        n >> 48) & 0xff) <= 0xff && ((n >> 56) & 0xff) <= 0xff) by (bit_vector);
    }
    out.push((n & 0xff) as u8);
    out.push(((n >> 8) & 0xff) as u8);
    out.push(((n >> 16) & 0xff) as u8);
    out.push(((n >> 24) & 0xff) as u8);
    out.push(((n >> 32) & 0xff) as u8);
    out.push(((n >> 40) & 0xff) as u8);
    out.push(((n >> 48) & 0xff) as u8);
    out.push(((n >> 56) & 0xff) as u8);
    proof {
        assert(out@ =~= old(out)@ + u64_le(n));
    }
}

/// Read eight little-endian bytes starting at `off` back into a length.
fn read_u64_le(bytes: &Vec<u8>, off: usize) -> (n: u64)
    requires
        off + 8 <= bytes.len(),
    ensures
        u64_le(n) == bytes@.subrange(off as int, off as int + 8),
{
    let b0 = bytes[off] as u64;
    let b1 = bytes[off + 1] as u64;
    let b2 = bytes[off + 2] as u64;
    let b3 = bytes[off + 3] as u64;
    let b4 = bytes[off + 4] as u64;
    let b5 = bytes[off + 5] as u64;
    let b6 = bytes[off + 6] as u64;
    let b7 = bytes[off + 7] as u64;
    let n = b0 | (b1 << 8) | (b2 << 16) | (b3 << 24) | (b4 << 32) | (b5 << 40) | (b6 << 48) | (b7
        << 56);
    proof {
        assert((n & 0xff) == b0 && ((n >> 8) & 0xff) == b1 && ((n >> 16) & 0xff) == b2 && ((n >> 24)
            & 0xff) == b3 && ((n >> 32) & 0xff) == b4 && ((n >> 40) & 0xff) == b5 && ((n >> 48)
            & 0xff) == b6 && ((n >> 56) & 0xff) == b7) by (bit_vector)
            requires
                n == b0 | (b1 << 8) | (b2 << 16) | (b3 << 24) | (b4 << 32) | (b5 << 40) | (b6 << 48)
                    | (b7 << 56),
                b0 <= 0xff,
                b1 <= 0xff,
                b2 <= 0xff,
                b3 <= 0xff,
                b4 <= 0xff,
                b5 <= 0xff,
                b6 <= 0xff,
                b7 <= 0xff,
        ;
        assert(u64_le(n) =~= bytes@.subrange(off as int, off as int + 8));
    }
    n
}

/// Two equal eight-byte encodings come from the same length.
proof fn lemma_u64_le_injective(a: u64, b: u64)
    requires
        u64_le(a) == u64_le(b),
    ensures
        a == b,
{
    assert((a & 0xff) as u8 == (b & 0xff) as u8 && ((a >> 8) & 0xff) as u8 == ((b >> 8)
        & 0xff) as u8 && ((a >> 16) & 0xff) as u8 == ((b >> 16) & 0xff) as u8 && ((a >> 24)
        & 0xff) as u8 == ((b >> 24) & 0xff) as u8 && ((a >> 32) & 0xff) as u8 == ((b >> 32)
        & 0xff) as u8 && ((a >> 40) & 0xff) as u8 == ((b >> 40) & 0xff) as u8 && ((a >> 48)
        & 0xff) as u8 == ((b >> 48) & 0xff) as u8 && ((a >> 56) & 0xff) as u8 == ((b >> 56)
        & 0xff) as u8) by {
        assert(u64_le(a)[0] == u64_le(b)[0]);
        assert(u64_le(a)[1] == u64_le(b)[1]);
        assert(u64_le(a)[2] == u64_le(b)[2]);
        assert(u64_le(a)[3] == u64_le(b)[3]);
        assert(u64_le(a)[4] == u64_le(b)[4]);
        assert(u64_le(a)[5] == u64_le(b)[5]);
        assert(u64_le(a)[6] == u64_le(b)[6]);
        assert(u64_le(a)[7] == u64_le(b)[7]);
    }
    assert(a == b) by (bit_vector)
        requires
            (a & 0xff) as u8 == (b & 0xff) as u8,
            ((a >> 8) & 0xff) as u8 == ((b >> 8) & 0xff) as u8,
            ((a >> 16) & 0xff) as u8 == ((b >> 16) & 0xff) as u8,
            ((a >> 24) & 0xff) as u8 == ((b >> 24) & 0xff) as u8,
            ((a >> 32) & 0xff) as u8 == ((b >> 32) & 0xff) as u8,
            ((a >> 40) & 0xff) as u8 == ((b >> 40) & 0xff) as u8,
            ((a >> 48) & 0xff) as u8 == ((b >> 48) & 0xff) as u8,
            ((a >> 56) & 0xff) as u8 == ((b >> 56) & 0xff) as u8,
    ;
}

/// Encode a full game-state snapshot as one frame.
pub fn encode_game_state(s: &GameState) -> (r: Vec<u8>)
    requires
        s.wf(),
    ensures
        r@ == state_bytes(*s),
{
    let mut out: Vec<u8> = Vec::new();

    let mut i: usize = 0;
    while i < 64
        invariant
            s.wf(),
            i <= 64,
            out@.len() == i,
            forall|j: int| 0 <= j < i ==> out@[j] == piece_byte(s.board@[j]),
        decreases 64 - i,
    {
        out.push(
            match s.board.0[i] {
                Piece::Empty => 0,
                Piece::White => 1,
                Piece::Black => 2,
            },
        );
        i = i + 1;
    }
    proof {
        assert(out@ =~= board_bytes(s.board@));
    }

    out.push(
        match s.current_player {
            Player::White => 0,
            Player::Black => 1,
        },
    );
    out.push(if s.finished { 1 } else { 0 });
    out.push(
        match s.winner {
            None => 0,
            Some(Player::White) => 1,
            Some(Player::Black) => 2,
        },
    );
    proof {
        assert(out@ =~= board_bytes(s.board@) + seq![
            player_byte(s.current_player),
            flag_byte(s.finished),
            winner_byte(s.winner),
        ]);
    }
    let ghost head = out@;

    let n = s.move_history.len() as u64;
    push_u64_le(&mut out, n);
    let ghost prefix = out@;

    let mut k: usize = 0;
    let hist_len = s.move_history.len();
    while k < hist_len
        invariant
            hist_len == s.move_history@.len(),
            k <= hist_len,
            prefix == head + u64_le(n),
            out@ == prefix + history_bytes(s.move_history@.take(k as int)),
        decreases hist_len - k,
    {
        let mv = s.move_history[k];
        let ghost before = out@;
        out.push(
            match mv.player {
                Player::White => 0,
                Player::Black => 1,
            },
        );
        out.push(mv.from.x);
        out.push(mv.from.y);
        out.push(mv.to.x);
        out.push(mv.to.y);
        proof {
            assert(out@ =~= before + move_bytes(mv));
            lemma_history_bytes_take_succ(s.move_history@, k as int);
            assert(out@ =~= prefix + history_bytes(s.move_history@.take(k as int + 1)));
        }
        k = k + 1;
    }

    proof {
        assert(s.move_history@.take(hist_len as int) =~= s.move_history@);
        assert(out@ =~= state_bytes(*s));
    }
    out
}

/// Decode a state frame. Returns `Some` exactly when the bytes are the
/// frame of some well-formed state, and then returns that state.
pub fn decode_game_state(bytes: &Vec<u8>) -> (r: Option<GameState>)
    ensures
        match r {
            Some(s) => s.wf() && state_bytes(s) == bytes@,
            None => forall|s: GameState| s.wf() ==> state_bytes(s) != bytes@,
        },
{
    if bytes.len() < 75 {
        proof {
            assert forall|s: GameState| s.wf() implies state_bytes(s) != bytes@ by {
                lemma_state_bytes_shape(s);
            }
        }
        return None;
    }

    let mut cells: Vec<Piece> = Vec::new();
    let mut i: usize = 0;
    while i < 64
        invariant
            bytes@.len() >= 75,
            i <= 64,
            cells@.len() == i,
            forall|j: int| 0 <= j < i ==> piece_byte(cells@[j]) == bytes@[j],
        decreases 64 - i,
    {
        let b = bytes[i];
        let p: Piece;
        if b == 0 {
            p = Piece::Empty;
        } else if b == 1 {
            p = Piece::White;
        } else if b == 2 {
            p = Piece::Black;
        } else {
            proof {
                assert forall|s: GameState| s.wf() implies state_bytes(s) != bytes@ by {
                    if state_bytes(s) == bytes@ {
                        lemma_state_bytes_shape(s);
                        assert(bytes@[i as int] == piece_byte(s.board@[i as int]));
                        assert(false);
                    }
                }
            }
            return None;
        }
        cells.push(p);
        i = i + 1;
    }

    let pb = bytes[64];
    let current_player: Player;
    if pb == 0 {
        current_player = Player::White;
    } else if pb == 1 {
        current_player = Player::Black;
    } else {
        proof {
            assert forall|s: GameState| s.wf() implies state_bytes(s) != bytes@ by {
                if state_bytes(s) == bytes@ {
                    lemma_state_bytes_shape(s);
                    assert(bytes@[64] == player_byte(s.current_player));
                    assert(false);
                }
            }
        }
        return None;
    }

    let fb = bytes[65];
    let finished: bool;
    if fb == 0 {
        finished = false;
    } else if fb == 1 {
        finished = true;
    } else {
        proof {
            assert forall|s: GameState| s.wf() implies state_bytes(s) != bytes@ by {
                if state_bytes(s) == bytes@ {
                    lemma_state_bytes_shape(s);
                    assert(bytes@[65] == flag_byte(s.finished));
                    assert(false);
                }
            }
        }
        return None;
    }

    let wb = bytes[66];
    let winner: Option<Player>;
    if wb == 0 {
        winner = None;
    } else if wb == 1 {
        winner = Some(Player::White);
    } else if wb == 2 {
        winner = Some(Player::Black);
    } else {
        proof {
            assert forall|s: GameState| s.wf() implies state_bytes(s) != bytes@ by {
                if state_bytes(s) == bytes@ {
                    lemma_state_bytes_shape(s);
                    assert(bytes@[66] == winner_byte(s.winner));
                    assert(false);
                }
            }
        }
        return None;
    }

    // A frame carries a winner exactly when it is finished; anything else
    // encodes no well-formed state.
    if finished != winner.is_some() {
        proof {
            assert forall|s: GameState| s.wf() implies state_bytes(s) != bytes@ by {
                if state_bytes(s) == bytes@ {
                    lemma_state_bytes_shape(s);
                    assert(bytes@[65] == flag_byte(s.finished));
                    assert(bytes@[66] == winner_byte(s.winner));
                    assert(false);
                }
            }
        }
        return None;
    }

    let total = bytes.len();
    let rem = total - 75;
    if rem % 5 != 0 {
        proof {
            assert forall|s: GameState| s.wf() implies state_bytes(s) != bytes@ by {
                if state_bytes(s) == bytes@ {
                    lemma_state_bytes_shape(s);
                    let l = s.move_history@.len() as int;
                    assert(rem == 5 * l);
                    assert((l * 5) % 5 == 0) by {
                        vstd::arithmetic::div_mod::lemma_mod_multiples_basic(l, 5);
                    }
                    assert(false);
                }
            }
        }
        return None;
    }
    let count = rem / 5;
    proof {
        vstd::arithmetic::div_mod::lemma_fundamental_div_mod(rem as int, 5);
        assert(5 * count == rem);
    }

    let n = read_u64_le(bytes, 67);
    if n != count as u64 {
        proof {
            assert forall|s: GameState| s.wf() implies state_bytes(s) != bytes@ by {
                if state_bytes(s) == bytes@ {
                    lemma_state_bytes_shape(s);
                    let l = s.move_history@.len() as int;
                    assert(rem == 5 * l);
                    assert(l == count);
                    assert(u64_le(n) == u64_le(s.move_history@.len() as u64));
                    lemma_u64_le_injective(n, s.move_history@.len() as u64);
                    assert(false);
                }
            }
        }
        return None;
    }

    let mut hist: Vec<Move> = Vec::new();
    let mut k: usize = 0;
    while k < count
        invariant
            total == bytes@.len(),
            75 <= total,
            rem == total - 75,
            count == rem / 5,
            5 * count == rem,
            k <= count,
            hist@.len() == k,
            history_bytes(hist@) == bytes@.subrange(75, 75 + 5 * (k as int)),
        decreases count - k,
    {
        let base = 75 + 5 * k;
        let mb = bytes[base];
        let player: Player;
        if mb == 0 {
            player = Player::White;
        } else if mb == 1 {
            player = Player::Black;
        } else {
            proof {
                assert forall|s: GameState| s.wf() implies state_bytes(s) != bytes@ by {
                    if state_bytes(s) == bytes@ {
                        lemma_state_bytes_shape(s);
                        let l = s.move_history@.len() as int;
                        assert(rem == 5 * l);
                        assert(l == count);
                        lemma_state_bytes_move(s, k as int);
                        assert(bytes@[base as int] == move_bytes(s.move_history@[k as int])[0]);
                        assert(false);
                    }
                }
            }
            return None;
        }
        let mv = Move {
            player,
            from: Position { x: bytes[base + 1], y: bytes[base + 2] },
            to: Position { x: bytes[base + 3], y: bytes[base + 4] },
        };
        let ghost before = hist@;
        hist.push(mv);
        proof {
            lemma_history_bytes_push(before, mv);
            assert(move_bytes(mv) =~= bytes@.subrange(base as int, base as int + 5));
            assert(history_bytes(hist@) =~= bytes@.subrange(75, 75 + 5 * (k as int + 1)));
        }
        k = k + 1;
    }

    let gs = GameState {
        board: Board(cells),
        current_player,
        move_history: hist,
        finished,
        winner,
    };
    proof {
        assert(gs.wf());
        lemma_state_bytes_shape(gs);
        assert(gs.move_history@.len() == count);
        assert(state_bytes(gs).len() == total);
        assert(u64_le(gs.move_history@.len() as u64) == u64_le(n));
        assert forall|t: int| 0 <= t < total implies state_bytes(gs)[t] == bytes@[t] by {
            if t < 64 {
                assert(state_bytes(gs)[t] == piece_byte(gs.board@[t]));
            } else if t < 67 {
            } else if t < 75 {
                assert(state_bytes(gs).subrange(67, 75)[t - 67] == state_bytes(gs)[t]);
                assert(bytes@.subrange(67, 75)[t - 67] == bytes@[t]);
            } else {
                assert(state_bytes(gs).subrange(75, state_bytes(gs).len() as int)[t - 75]
                    == state_bytes(gs)[t]);
                assert(bytes@.subrange(75, 75 + 5 * (count as int))[t - 75] == bytes@[t]);
            }
        }
        assert(state_bytes(gs) =~= bytes@);
    }
    Some(gs)
}

/// Any two well-formed states that encode to the same frame agree in every
/// field; together with the decoder's contract this says a frame decodes
/// back to exactly the state that produced it.
pub proof fn lemma_state_bytes_injective(s1: GameState, s2: GameState)
    requires
        s1.wf(),
        s2.wf(),
        state_bytes(s1) == state_bytes(s2),
    ensures
        s1.board@ == s2.board@,
        s1.current_player == s2.current_player,
        s1.move_history@ == s2.move_history@,
        s1.finished == s2.finished,
        s1.winner == s2.winner,
{
    lemma_state_bytes_shape(s1);
    lemma_state_bytes_shape(s2);
    assert(s1.move_history@.len() == s2.move_history@.len());
    assert forall|i: int| 0 <= i < 64 implies s1.board@[i] == s2.board@[i] by {
        assert(state_bytes(s1)[i] == piece_byte(s1.board@[i]));
        assert(state_bytes(s2)[i] == piece_byte(s2.board@[i]));
    }
    assert(s1.board@ =~= s2.board@);
    assert forall|k: int| 0 <= k < s1.move_history@.len() implies s1.move_history@[k]
        == s2.move_history@[k] by {
        lemma_state_bytes_move(s1, k);
        lemma_state_bytes_move(s2, k);
        let m1 = s1.move_history@[k];
        let m2 = s2.move_history@[k];
        assert(move_bytes(m1) == move_bytes(m2));
        assert(move_bytes(m1)[0] == move_bytes(m2)[0]);
        assert(move_bytes(m1)[1] == move_bytes(m2)[1]);
        assert(move_bytes(m1)[2] == move_bytes(m2)[2]);
        assert(move_bytes(m1)[3] == move_bytes(m2)[3]);
        assert(move_bytes(m1)[4] == move_bytes(m2)[4]);
    }
    assert(s1.move_history@ =~= s2.move_history@);
}

/// Decode a five-byte move frame.
pub fn decode_move(bytes: &Vec<u8>) -> (r: Option<Move>)
    ensures
        r == spec_decode_move(bytes@),
{
    if bytes.len() != 5 {
        return None;
    }
    let player = if bytes[0] == 0 {
        Player::White
    } else if bytes[0] == 1 {
        Player::Black
    } else {
        return None;
    };
    Some(
        Move {
            player,
            from: Position { x: bytes[1], y: bytes[2] },
            to: Position { x: bytes[3], y: bytes[4] },
        },
    )
}

} // verus!
