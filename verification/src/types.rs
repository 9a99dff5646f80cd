//! Core data types: pieces, players, board positions and moves.

use vstd::prelude::*;

verus! {

/// Contents of a single board cell.
#[derive(Debug, PartialEq, Eq, Structural, Clone, Copy)]
pub enum Piece {
    Empty,
    White,
    Black,
}

/// One of the two competing identities in a match.
#[derive(Debug, PartialEq, Eq, Structural, Clone, Copy)]
pub enum Player {
    White,
    Black,
}

impl Player {
    /// The opposing player.
    pub open spec fn other(self) -> Player {
        match self {
            Player::White => Player::Black,
            Player::Black => Player::White,
        }
    }
}

/// A cell coordinate; only coordinates in [0,7] x [0,7] lie on the board.
#[derive(Debug, PartialEq, Eq, Structural, Clone, Copy)]
pub struct Position {
    pub x: u8,
    pub y: u8,
}

impl Position {
    /// Whether the coordinate lies on the 8x8 board.
    pub open spec fn spec_valid(self) -> bool {
        self.x <= 7 && self.y <= 7
    }

    /// Row-major index of the cell in a 64-cell board sequence.
    pub open spec fn index(self) -> int {
        self.y * 8 + self.x
    }

    pub fn valid(&self) -> (r: bool)
        ensures
            r == self.spec_valid(),
    {
        let valid_x = self.x <= 7;
        let valid_y = self.y <= 7;

        valid_x && valid_y
    }

    /// Every cell a knight standing on this cell may move to: exactly the
    /// on-board cells one "L" away, in the fixed probing order.
    #[verifier::rlimit(60)]
    pub fn knight_targets(&self) -> (r: Vec<Position>)
        requires
            self.spec_valid(),
        ensures
            r@ == knight_target_seq(*self),
            forall|j: int|
                0 <= j < r@.len() ==> (#[trigger] r@[j]).spec_valid() && knight_shape(
                    *self,
                    r@[j],
                ),
            forall|p: Position| p.spec_valid() && knight_shape(*self, p) ==> r@.contains(p),
    {
        let x = self.x as i16;
        let y = self.y as i16;
        let mut out: Vec<Position> = Vec::new();
        push_if_on_board(&mut out, x + 2, y + 1);
        push_if_on_board(&mut out, x + 2, y - 1);
        push_if_on_board(&mut out, x - 2, y + 1);
        push_if_on_board(&mut out, x - 2, y - 1);
        push_if_on_board(&mut out, x + 1, y + 2);
        push_if_on_board(&mut out, x - 1, y + 2);
        push_if_on_board(&mut out, x + 1, y - 2);
        push_if_on_board(&mut out, x - 1, y - 2);
        proof {
            assert(out@ =~= knight_target_seq(*self));
            assert forall|j: int| 0 <= j < out@.len() implies (#[trigger] out@[j]).spec_valid()
                && knight_shape(*self, out@[j]) by {
                assert(out@.contains(out@[j]));
            }
            assert forall|p: Position| p.spec_valid() && knight_shape(*self, p) implies
                out@.contains(p) by {
                let dx = p.x - self.x;
                let dy = p.y - self.y;
                assert((dx == 1 || dx == -1) && (dy == 2 || dy == -2) || (dx == 2 || dx == -2) && (
                dy == 1 || dy == -1));
            }
        }
        out
    }
}

/// The canonical knight displacement, an "L": `min(|dx|, |dy|) == 1` and
/// `max(|dx|, |dy|) == 2`.
pub open spec fn knight_shape(from: Position, to: Position) -> bool {
    let dx = to.x - from.x;
    let dy = to.y - from.y;
    &&& vstd::math::min(vstd::math::abs(dx) as int, vstd::math::abs(dy) as int) == 1
    &&& vstd::math::max(vstd::math::abs(dx) as int, vstd::math::abs(dy) as int) == 2
}

/// The candidate cell `(x, y)` as a one-cell sequence when it lies on the
/// board, and an empty one when it lies outside.
pub open spec fn target_if_on_board(x: int, y: int) -> Seq<Position> {
    if 0 <= x <= 7 && 0 <= y <= 7 {
        seq![(Position { x: x as u8, y: y as u8 })]
    } else {
        Seq::empty()
    }
}

/// The knight's reachable cells from `from`, in the fixed probing order.
pub open spec fn knight_target_seq(from: Position) -> Seq<Position> {
    let x = from.x as int;
    let y = from.y as int;
    target_if_on_board(x + 2, y + 1) + target_if_on_board(x + 2, y - 1) + target_if_on_board(
        x - 2,
        y + 1,
    ) + target_if_on_board(x - 2, y - 1) + target_if_on_board(x + 1, y + 2) + target_if_on_board(
        x - 1,
        y + 2,
    ) + target_if_on_board(x + 1, y - 2) + target_if_on_board(x - 1, y - 2)
}

/// Append `(x, y)` when it lies on the board.
fn push_if_on_board(out: &mut Vec<Position>, x: i16, y: i16)
    ensures
        final(out)@ == old(out)@ + target_if_on_board(x as int, y as int),
        forall|q: Position| old(out)@.contains(q) ==> final(out)@.contains(q),
        0 <= x <= 7 && 0 <= y <= 7 ==> final(out)@.contains(
            (Position { x: x as u8, y: y as u8 }),
        ),
        forall|q: Position|
            final(out)@.contains(q) ==> old(out)@.contains(q) || (0 <= x <= 7 && 0 <= y <= 7 && q
                == (Position { x: x as u8, y: y as u8 })),
{
    if 0 <= x && x <= 7 && 0 <= y && y <= 7 {
        let ghost before = out@;
        out.push(Position { x: x as u8, y: y as u8 });
        proof {
            assert(out@ =~= before + target_if_on_board(x as int, y as int));
            assert forall|q: Position| before.contains(q) implies out@.contains(q) by {
                let j = choose|j: int| 0 <= j < before.len() && before[j] == q;
                assert(out@[j] == q);
            }
            assert(out@[out@.len() - 1] == (Position { x: x as u8, y: y as u8 }));
        }
    } else {
        proof {
            assert(out@ =~= out@ + target_if_on_board(x as int, y as int));
        }
    }
}

/// A claimed relocation between two board cells, tagged with the claiming player.
#[derive(Debug, PartialEq, Eq, Structural, Clone, Copy)]
pub struct Move {
    pub player: Player,
    pub from: Position,
    pub to: Position,
}

impl Move {
    /// A legal move: both endpoints on the board and the displacement a
    /// knight's "L".
    pub open spec fn spec_valid(self) -> bool {
        &&& self.from.spec_valid()
        &&& self.to.spec_valid()
        &&& knight_shape(self.from, self.to)
    }

    pub fn valid(&self) -> (r: bool)
        ensures
            r == self.spec_valid(),
    {
        let valid_from = self.from.valid();
        let valid_to = self.to.valid();

        let diff_x: i32 = self.to.x as i32 - self.from.x as i32;
        let diff_y: i32 = self.to.y as i32 - self.from.y as i32;

        let abs_x: i32 = if diff_x < 0 { -diff_x } else { diff_x };
        let abs_y: i32 = if diff_y < 0 { -diff_y } else { diff_y };

        let lo: i32 = if abs_x < abs_y { abs_x } else { abs_y };
        let hi: i32 = if abs_x < abs_y { abs_y } else { abs_x };

        valid_from && valid_to && lo == 1 && hi == 2
    }
}

/// The moves applied so far, in application order.
pub type History = Vec<Move>;

/// The 8x8 board, stored row-major as 64 cells.
#[derive(Debug, PartialEq, Eq, Clone)]
pub struct Board(pub Vec<Piece>);

impl View for Board {
    type V = Seq<Piece>;

    open spec fn view(&self) -> Seq<Piece> {
        self.0@
    }
}

/// The piece the initial layout places at row-major index `i`: each side's
/// twelve pieces sit on its back rows, each side on cells of one color, in
/// contrasting pattern.
pub open spec fn initial_cell(i: int) -> Piece {
    let x = i % 8;
    let y = i / 8;
    if (y == 0 || y == 2) && x % 2 == 1 {
        Piece::Black
    } else if y == 1 && x % 2 == 0 {
        Piece::Black
    } else if (y == 5 || y == 7) && x % 2 == 1 {
        Piece::White
    } else if y == 6 && x % 2 == 0 {
        Piece::White
    } else {
        Piece::Empty
    }
}

impl Board {
    /// The board holds exactly one piece per cell of the 8x8 grid.
    pub open spec fn wf(self) -> bool {
        self@.len() == 64
    }
}

impl Default for Board {
    /// The fixed initial 12-piece-per-side layout.
    fn default() -> (b: Board)
        ensures
            b.wf(),
            forall|i: int| 0 <= i < 64 ==> b@[i] == initial_cell(i),
    {
        let mut cells: Vec<Piece> = Vec::new();
        let mut i: usize = 0;
        while i < 64
            invariant
                i <= 64,
                cells@.len() == i,
                forall|j: int| 0 <= j < i ==> cells@[j] == initial_cell(j),
            decreases 64 - i,
        {
            let x = i % 8;
            let y = i / 8;
            let piece = if (y == 0 || y == 2) && x % 2 == 1 {
                Piece::Black
            } else if y == 1 && x % 2 == 0 {
                Piece::Black
            } else if (y == 5 || y == 7) && x % 2 == 1 {
                Piece::White
            } else if y == 6 && x % 2 == 0 {
                Piece::White
            } else {
                Piece::Empty
            };
            cells.push(piece);
            i = i + 1;
        }
        Board(cells)
    }
}

} // verus!
