//! The authoritative game state and its single mutation operation.

use vstd::prelude::*;

use crate::types::{Board, History, Move, Piece, Player, initial_cell};

verus! {

/// The authoritative, serializable snapshot of a match: board, whose turn,
/// move history, completion flag, winner.
#[derive(Debug, PartialEq, Eq, Clone)]
pub struct GameState {
    pub board: Board,
    pub current_player: Player,
    pub move_history: History,
    pub finished: bool,
    pub winner: Option<Player>,
}

/// How many cells of `board` hold the piece `p`.
pub open spec fn piece_count(board: Seq<Piece>, p: Piece) -> nat
    decreases board.len(),
{
    if board.len() == 0 {
        0
    } else {
        piece_count(board.drop_last(), p) + if board.last() == p {
            1nat
        } else {
            0nat
        }
    }
}

/// The board after relocating the piece at `mv.from` to `mv.to`: the source
/// cell is cleared and the moving piece overwrites whatever the destination
/// held (a capture, when it held the opponent's piece).
pub open spec fn board_after(board: Seq<Piece>, mv: Move) -> Seq<Piece> {
    board.update(mv.from.index(), Piece::Empty).update(mv.to.index(), board[mv.from.index()])
}

/// Whether a board has crossed the win threshold: either side has fewer
/// than 4 pieces left.
pub open spec fn finished_of(board: Seq<Piece>) -> bool {
    piece_count(board, Piece::Black) < 4 || piece_count(board, Piece::White) < 4
}

/// The outcome a board resolves to. White is checked for the win first,
/// which fixes the tie-break when both sides are below the threshold at
/// once: White wins.
pub open spec fn winner_of(board: Seq<Piece>) -> Option<Player> {
    if piece_count(board, Piece::Black) < 4 {
        Some(Player::White)
    } else if piece_count(board, Piece::White) < 4 {
        Some(Player::Black)
    } else {
        None
    }
}

proof fn lemma_piece_count_le_len(board: Seq<Piece>, p: Piece)
    ensures
        piece_count(board, p) <= board.len(),
    decreases board.len(),
{
    if board.len() > 0 {
        lemma_piece_count_le_len(board.drop_last(), p);
    }
}

/// Counting commutes with extending the prefix by one cell.
proof fn lemma_piece_count_take_succ(board: Seq<Piece>, p: Piece, i: int)
    requires
        0 <= i < board.len(),
    ensures
        piece_count(board.take(i + 1), p) == piece_count(board.take(i), p) + if board[i] == p {
            1nat
        } else {
            0nat
        },
{
    assert(board.take(i + 1).drop_last() =~= board.take(i));
    assert(board.take(i + 1).last() == board[i]);
}

impl GameState {
    /// Structural invariant: the board is exactly 8x8, and the winner is
    /// assigned exactly when the game is finished.
    pub open spec fn wf(self) -> bool {
        &&& self.board.wf()
        &&& (self.finished <==> self.winner is Some)
    }

    /// The four acceptance checks of `make_move`, plus the terminal guard:
    /// a finished game accepts nothing, the claimed side must be the side
    /// to move, the move must have the legal knight shape, the source cell
    /// must hold a piece, and the destination must not hold a piece of the
    /// same kind as the source.
    pub open spec fn accepts(self, mv: Move) -> bool {
        &&& !self.finished
        &&& mv.player == self.current_player
        &&& mv.spec_valid()
        &&& self.board@[mv.from.index()] != Piece::Empty
        &&& self.board@[mv.to.index()] != self.board@[mv.from.index()]
    }

    /// Relates a state before `make_move` to the state after it: a rejected
    /// move leaves the state untouched; an accepted move relocates the
    /// piece, flips the side to move, appends the move to the history and
    /// recomputes the outcome from the new board.
    pub open spec fn move_applied(self, mv: Move, post: GameState) -> bool {
        if self.accepts(mv) {
            &&& post.board@ == board_after(self.board@, mv)
            &&& post.current_player == self.current_player.other()
            &&& post.move_history@ == self.move_history@.push(mv)
            &&& post.finished == finished_of(board_after(self.board@, mv))
            &&& post.winner == winner_of(board_after(self.board@, mv))
        } else {
            post == self
        }
    }

    /// Attempt to apply a move. Total: an illegal, mistimed or foreign move
    /// is a silent no-op, never an error.
    pub fn make_move(&mut self, mv: Move)
        requires
            old(self).wf(),
        ensures
            final(self).wf(),
            old(self).move_applied(mv, *final(self)),
    {
        if self.finished {
            return;
        }

        if mv.player != self.current_player {
            return;
        }

        if !mv.valid() {
            return;
        }

        let from_i = mv.from.y as usize * 8 + mv.from.x as usize;
        let from_piece = self.board.0[from_i];

        if from_piece == Piece::Empty {
            return;
        }

        let to_i = mv.to.y as usize * 8 + mv.to.x as usize;
        let to_piece = self.board.0[to_i];

        if from_piece == to_piece {
            return;
        }

        self.board.0[from_i] = Piece::Empty;
        self.board.0[to_i] = from_piece;

        self.current_player = match self.current_player {
            Player::White => Player::Black,
            Player::Black => Player::White,
        };

        self.move_history.push(mv);

        self.set_winner();
    }

    /// Count the pieces remaining on the board, as (white, black).
    pub fn count_pieces(&self) -> (r: (u8, u8))
        requires
            self.board.wf(),
        ensures
            r.0 == piece_count(self.board@, Piece::White),
            r.1 == piece_count(self.board@, Piece::Black),
    {
        let mut count_white: u8 = 0;
        let mut count_black: u8 = 0;

        let mut i: usize = 0;
        while i < 64
            invariant
                self.board.wf(),
                i <= 64,
                count_white == piece_count(self.board@.take(i as int), Piece::White),
                count_black == piece_count(self.board@.take(i as int), Piece::Black),
            decreases 64 - i,
        {
            proof {
                lemma_piece_count_le_len(self.board@.take(i as int), Piece::White);
                lemma_piece_count_le_len(self.board@.take(i as int), Piece::Black);
                lemma_piece_count_take_succ(self.board@, Piece::White, i as int);
                lemma_piece_count_take_succ(self.board@, Piece::Black, i as int);
            }
            match self.board.0[i] {
                Piece::White => {
                    count_white = count_white + 1;
                },
                Piece::Black => {
                    count_black = count_black + 1;
                },
                Piece::Empty => {},
            }
            i = i + 1;
        }

        proof {
            assert(self.board@.take(64) =~= self.board@);
        }

        (count_white, count_black)
    }

    /// Recompute the outcome from the current board. Skipped entirely once
    /// the game is finished, which keeps the assigned winner immutable.
    fn set_winner(&mut self)
        requires
            old(self).board.wf(),
            old(self).finished ==> old(self).winner is Some,
        ensures
            final(self).board == old(self).board,
            final(self).current_player == old(self).current_player,
            final(self).move_history == old(self).move_history,
            old(self).finished ==> *final(self) == *old(self),
            !old(self).finished ==> {
                &&& final(self).finished == finished_of(old(self).board@)
                &&& final(self).winner == winner_of(old(self).board@)
            },
            final(self).wf(),
    {
        if self.finished {
            return;
        }

        let (count_white, count_black) = self.count_pieces();

        self.finished = (count_black < 4) || (count_white < 4);
        self.winner = {
            if count_black < 4 {
                Some(Player::White)
            } else if count_white < 4 {
                Some(Player::Black)
            } else {
                None
            }
        };
    }

    /// The winner, if the game has resolved to one.
    pub fn get_winner(&self) -> (r: Option<Player>)
        ensures
            r == self.winner,
    {
        self.winner
    }

    /// Whether the game has finished.
    pub fn is_finished(&self) -> (r: bool)
        ensures
            r == self.finished,
    {
        self.finished
    }
}

/// How many of the first `i` cells of the initial layout hold `p`.
spec fn initial_count(i: int, p: Piece) -> nat
    decreases i,
{
    if i <= 0 {
        0
    } else {
        initial_count(i - 1, p) + if initial_cell(i - 1) == p {
            1nat
        } else {
            0nat
        }
    }
}

proof fn lemma_initial_prefix_count(board: Seq<Piece>, i: int, p: Piece)
    requires
        board.len() == 64,
        forall|j: int| 0 <= j < 64 ==> board[j] == initial_cell(j),
        0 <= i <= 64,
    ensures
        piece_count(board.take(i), p) == initial_count(i, p),
    decreases i,
{
    if i > 0 {
        lemma_initial_prefix_count(board, i - 1, p);
        assert(board.take(i).drop_last() =~= board.take(i - 1));
        assert(board.take(i).last() == initial_cell(i - 1));
    }
}

/// The initial layout places twelve pieces per side.
#[verifier::rlimit(100)]
pub proof fn lemma_initial_board_counts(board: Seq<Piece>)
    requires
        board.len() == 64,
        forall|i: int| 0 <= i < 64 ==> board[i] == initial_cell(i),
    ensures
        piece_count(board, Piece::White) == 12,
        piece_count(board, Piece::Black) == 12,
{
    lemma_initial_prefix_count(board, 64, Piece::White);
    lemma_initial_prefix_count(board, 64, Piece::Black);
    assert(board.take(64) =~= board);
    reveal_with_fuel(initial_count, 65);
    assert(initial_count(64, Piece::White) == 12);
    assert(initial_count(64, Piece::Black) == 12);
}

/// A move whose source cell is empty is rejected, so applying it leaves the
/// state unchanged in every field.
pub proof fn lemma_empty_source_unchanged(pre: GameState, mv: Move, post: GameState)
    requires
        pre.wf(),
        pre.move_applied(mv, post),
        mv.from.spec_valid(),
        pre.board@[mv.from.index()] == Piece::Empty,
    ensures
        post == pre,
{
}

/// Every accepted move flips the side to move exactly once and grows the
/// history by exactly one entry; every rejected move changes neither.
pub proof fn lemma_turn_and_history(pre: GameState, mv: Move, post: GameState)
    requires
        pre.wf(),
        pre.move_applied(mv, post),
    ensures
        pre.accepts(mv) ==> {
            &&& post.current_player == pre.current_player.other()
            &&& post.current_player != pre.current_player
            &&& post.move_history@ == pre.move_history@.push(mv)
            &&& post.move_history@.len() == pre.move_history@.len() + 1
        },
        !pre.accepts(mv) ==> {
            &&& post.current_player == pre.current_player
            &&& post.move_history@ == pre.move_history@
        },
{
}

/// A finished state is terminal: it accepts no move, so applying any move
/// leaves board, history, winner — the whole state — unchanged.
pub proof fn lemma_finished_is_stable(pre: GameState, mv: Move, post: GameState)
    requires
        pre.wf(),
        pre.finished,
        pre.move_applied(mv, post),
    ensures
        post == pre,
{
}

/// When a move leaves both sides below four pieces at once, the game
/// resolves with the fixed tie-break: White wins.
pub proof fn lemma_tie_break_white(pre: GameState, mv: Move, post: GameState)
    requires
        pre.wf(),
        pre.accepts(mv),
        pre.move_applied(mv, post),
        piece_count(post.board@, Piece::White) < 4,
        piece_count(post.board@, Piece::Black) < 4,
    ensures
        post.finished,
        post.winner == Some(Player::White),
{
}

impl Default for GameState {
    /// A fresh match: the fixed initial 12-versus-12 layout, White to move,
    /// empty history, not finished, no winner.
    fn default() -> (s: GameState)
        ensures
            s.wf(),
            forall|i: int| 0 <= i < 64 ==> s.board@[i] == initial_cell(i),
            s.current_player == Player::White,
            s.move_history@ == Seq::<Move>::empty(),
            !s.finished,
            s.winner is None,
    {
        GameState {
            board: Board::default(),
            current_player: Player::White,
            move_history: Vec::new(),
            finished: false,
            winner: None,
        }
    }
}

} // verus!
