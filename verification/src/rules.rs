//! The movement rule: whether a piece may go to a square, given where all
//! the pieces stand.
//!
//! The rule knows how each kind of piece travels and that a piece may not
//! land on a piece of its own colour. It does not know about turns, check,
//! castling, en passant or promotion.

use vstd::prelude::*;
use crate::pieces::{Piece, PieceColor, PieceKind};

verus! {

/// Both coordinates are on the 8×8 board.
pub open spec fn on_board(p: (u8, u8)) -> bool {
    p.0 < 8 && p.1 < 8
}

/// The distance between two coordinates.
pub open spec fn gap(a: u8, b: u8) -> int {
    if a <= b {
        b - a
    } else {
        a - b
    }
}

/// `p` lies strictly between `a` and `b`.
pub open spec fn within(a: u8, b: u8, p: u8) -> bool {
    (a < p && p < b) || (b < p && p < a)
}

/// `a` and `b` are different squares of one row or of one column.
pub open spec fn on_line(a: (u8, u8), b: (u8, u8)) -> bool {
    (a.0 == b.0) != (a.1 == b.1)
}

/// `a` and `b` are different squares of one diagonal.
pub open spec fn on_diagonal(a: (u8, u8), b: (u8, u8)) -> bool {
    a != b && gap(a.0, b.0) == gap(a.1, b.1)
}

/// `b` is one of the eight squares around `a`.
pub open spec fn king_step(a: (u8, u8), b: (u8, u8)) -> bool {
    a != b && gap(a.0, b.0) <= 1 && gap(a.1, b.1) <= 1
}

/// `b` is a knight's jump away from `a`: two along one axis and one along
/// the other.
pub open spec fn knight_jump(a: (u8, u8), b: (u8, u8)) -> bool {
    (gap(a.0, b.0) == 1 && gap(a.1, b.1) == 2) || (gap(a.0, b.0) == 2 && gap(a.1, b.1) == 1)
}

/// `p` lies strictly between `a` and `b` on the row, column or diagonal
/// that joins them. No square lies between squares that are not joined
/// by one.
pub open spec fn between(a: (u8, u8), b: (u8, u8), p: (u8, u8)) -> bool {
    if a.0 == b.0 {
        p.0 == a.0 && within(a.1, b.1, p.1)
    } else if a.1 == b.1 {
        p.1 == a.1 && within(a.0, b.0, p.0)
    } else {
        &&& gap(a.0, b.0) == gap(a.1, b.1)
        &&& within(a.0, b.0, p.0)
        &&& within(a.1, b.1, p.1)
        &&& gap(a.0, p.0) == gap(a.1, p.1)
    }
}

/// Some piece stands on `pos`.
pub open spec fn occupied(pieces: Seq<Piece>, pos: (u8, u8)) -> bool {
    exists|i: int| 0 <= i < pieces.len() && (#[trigger] pieces[i]).pos() == pos
}

/// Some piece of colour `color` stands on `pos`.
pub open spec fn occupied_by(pieces: Seq<Piece>, pos: (u8, u8), color: PieceColor) -> bool {
    exists|i: int|
        0 <= i < pieces.len() && (#[trigger] pieces[i]).pos() == pos && pieces[i].color == color
}

/// No piece stands strictly between `a` and `b`.
pub open spec fn path_clear(pieces: Seq<Piece>, a: (u8, u8), b: (u8, u8)) -> bool {
    forall|i: int| 0 <= i < pieces.len() ==> !between(a, b, (#[trigger] pieces[i]).pos())
}

/// The square in front of a pawn.
pub open spec fn square_ahead(piece: Piece) -> (u8, u8) {
    ((piece.x + piece.color.forward()) as u8, piece.y)
}

/// A pawn steps one square forward onto an empty square.
pub open spec fn pawn_advance(piece: Piece, target: (u8, u8), pieces: Seq<Piece>) -> bool {
    &&& target.1 == piece.y
    &&& target.0 - piece.x == piece.color.forward()
    &&& !occupied(pieces, target)
}

/// A pawn that still stands on its starting row steps two squares forward,
/// over an empty square onto an empty square.
pub open spec fn pawn_double_advance(piece: Piece, target: (u8, u8), pieces: Seq<Piece>) -> bool {
    &&& target.1 == piece.y
    &&& piece.x == piece.color.pawn_row()
    &&& target.0 - piece.x == 2 * piece.color.forward()
    &&& !occupied(pieces, target)
    &&& path_clear(pieces, piece.pos(), target)
}

/// A pawn steps one square forward and one to the side onto a piece of the
/// other colour.
pub open spec fn pawn_capture(piece: Piece, target: (u8, u8), pieces: Seq<Piece>) -> bool {
    &&& gap(piece.y, target.1) == 1
    &&& target.0 - piece.x == piece.color.forward()
    &&& occupied_by(pieces, target, piece.color.opposite())
}

/// The way `piece` travels takes it from where it stands to `target`.
pub open spec fn reaches(piece: Piece, target: (u8, u8), pieces: Seq<Piece>) -> bool {
    match piece.kind {
        PieceKind::King => king_step(piece.pos(), target),
        PieceKind::Knight => knight_jump(piece.pos(), target),
        PieceKind::Bishop => on_diagonal(piece.pos(), target) && path_clear(
            pieces,
            piece.pos(),
            target,
        ),
        PieceKind::Rook => on_line(piece.pos(), target) && path_clear(pieces, piece.pos(), target),
        PieceKind::Queen => (on_line(piece.pos(), target) || on_diagonal(piece.pos(), target))
            && path_clear(pieces, piece.pos(), target),
        PieceKind::Pawn => {
            ||| pawn_advance(piece, target, pieces)
            ||| pawn_double_advance(piece, target, pieces)
            ||| pawn_capture(piece, target, pieces)
        },
    }
}

/// The squares that a rook, a bishop or a queen can travel to over an empty
/// board: a rook along rows and columns, a bishop along diagonals, a queen
/// along both. No other kind travels along lines.
pub open spec fn in_line_of_travel(kind: PieceKind, a: (u8, u8), b: (u8, u8)) -> bool {
    match kind {
        PieceKind::Rook => on_line(a, b),
        PieceKind::Bishop => on_diagonal(a, b),
        PieceKind::Queen => on_line(a, b) || on_diagonal(a, b),
        _ => false,
    }
}

/// The kinds that travel along lines: rook, bishop and queen.
pub open spec fn travels_in_lines(kind: PieceKind) -> bool {
    kind == PieceKind::Rook || kind == PieceKind::Bishop || kind == PieceKind::Queen
}

/// `piece` may move to `target` when the pieces in `pieces` are on the
/// board. `pieces` is expected to hold `piece` itself too.
///
/// Both squares must be on the board, they must differ, no piece of the
/// mover's colour may stand on `target`, and the piece must be able to
/// travel there.
pub open spec fn move_valid(piece: Piece, target: (u8, u8), pieces: Seq<Piece>) -> bool {
    &&& on_board(piece.pos())
    &&& on_board(target)
    &&& target != piece.pos()
    &&& !occupied_by(pieces, target, piece.color)
    &&& reaches(piece, target, pieces)
}

/// The distance between two coordinates.
pub fn distance(a: u8, b: u8) -> (d: u8)
    ensures
        d == gap(a, b),
{
    if a <= b {
        b - a
    } else {
        a - b
    }
}

/// Whether `p` lies strictly between `a` and `b` on the row, column or
/// diagonal that joins them.
pub fn is_between(a: (u8, u8), b: (u8, u8), p: (u8, u8)) -> (inside: bool)
    ensures
        inside == between(a, b, p),
{
    let in_rows = (a.0 < p.0 && p.0 < b.0) || (b.0 < p.0 && p.0 < a.0);
    let in_columns = (a.1 < p.1 && p.1 < b.1) || (b.1 < p.1 && p.1 < a.1);
    if a.0 == b.0 {
        p.0 == a.0 && in_columns
    } else if a.1 == b.1 {
        p.1 == a.1 && in_rows
    } else {
        distance(a.0, b.0) == distance(a.1, b.1) && in_rows && in_columns && distance(a.0, p.0)
            == distance(a.1, p.1)
    }
}

/// Whether some piece stands on `pos`.
pub fn is_occupied(pieces: &Vec<Piece>, pos: (u8, u8)) -> (found: bool)
    ensures
        found == occupied(pieces@, pos),
{
    let mut i: usize = 0;
    while i < pieces.len()
        invariant
            i <= pieces.len(),
            forall|j: int| 0 <= j < i ==> (#[trigger] pieces@[j]).pos() != pos,
        decreases pieces.len() - i,
    {
        if pieces[i].x == pos.0 && pieces[i].y == pos.1 {
            return true;
        }
        i += 1;
    }
    false
}

/// Whether some piece of colour `color` stands on `pos`.
pub fn is_occupied_by(pieces: &Vec<Piece>, pos: (u8, u8), color: PieceColor) -> (found: bool)
    ensures
        found == occupied_by(pieces@, pos, color),
{
    let mut i: usize = 0;
    while i < pieces.len()
        invariant
            i <= pieces.len(),
            forall|j: int|
                0 <= j < i ==> !((#[trigger] pieces@[j]).pos() == pos && pieces@[j].color == color),
        decreases pieces.len() - i,
    {
        if pieces[i].x == pos.0 && pieces[i].y == pos.1 && pieces[i].color == color {
            return true;
        }
        i += 1;
    }
    false
}

/// Whether no piece stands strictly between `begin` and `end`.
pub fn is_path_empty(begin: (u8, u8), end: (u8, u8), pieces: &Vec<Piece>) -> (clear: bool)
    ensures
        clear == path_clear(pieces@, begin, end),
{
    let mut i: usize = 0;
    while i < pieces.len()
        invariant
            i <= pieces.len(),
            forall|j: int| 0 <= j < i ==> !between(begin, end, (#[trigger] pieces@[j]).pos()),
        decreases pieces.len() - i,
    {
        if is_between(begin, end, (pieces[i].x, pieces[i].y)) {
            return false;
        }
        i += 1;
    }
    true
}

impl Piece {
    /// Whether this piece may move to `target` when `pieces` are the pieces
    /// on the board (this one among them).
    ///
    /// A target off the board, the square the piece stands on, and a square
    /// held by a piece of its own colour are never valid.
    pub fn is_move_valid(&self, target: (u8, u8), pieces: &Vec<Piece>) -> (valid: bool)
        ensures
            valid == move_valid(*self, target, pieces@),
            target == self.pos() ==> !valid,
            occupied_by(pieces@, target, self.color) ==> !valid,
            !on_board(target) || !on_board(self.pos()) ==> !valid,
            travels_in_lines(self.kind) && !path_clear(pieces@, self.pos(), target) ==> !valid,
            travels_in_lines(self.kind) && on_board(self.pos()) && on_board(target)
                && in_line_of_travel(self.kind, self.pos(), target) && path_clear(
                pieces@,
                self.pos(),
                target,
            ) && !occupied_by(pieces@, target, self.color) ==> valid,
            self.kind == PieceKind::Pawn && valid && gap(self.x, target.0) == 2 ==> {
                &&& self.x == self.color.pawn_row()
                &&& target.1 == self.y
                &&& !occupied(pieces@, square_ahead(*self))
                &&& !occupied(pieces@, target)
            },
            self.kind == PieceKind::Pawn && valid && target.1 != self.y ==> occupied_by(
                pieces@,
                target,
                self.color.opposite(),
            ),
    {
        proof {
            if self.kind == PieceKind::Pawn && move_valid(*self, target, pieces@) {
                valid_pawn_move_is_guarded(*self, target, pieces@);
            }
        }
        if self.x >= 8 || self.y >= 8 || target.0 >= 8 || target.1 >= 8 {
            return false;
        }
        if target.0 == self.x && target.1 == self.y {
            return false;
        }
        if is_occupied_by(pieces, target, self.color) {
            return false;
        }
        let from = (self.x, self.y);
        let rows = distance(self.x, target.0);
        let columns = distance(self.y, target.1);
        match self.kind {
            PieceKind::King => rows <= 1 && columns <= 1,
            PieceKind::Knight => (rows == 1 && columns == 2) || (rows == 2 && columns == 1),
            PieceKind::Bishop => rows == columns && is_path_empty(from, target, pieces),
            PieceKind::Rook => (rows == 0) != (columns == 0) && is_path_empty(from, target, pieces),
            PieceKind::Queen => (rows == columns || (rows == 0) != (columns == 0)) && is_path_empty(
                from,
                target,
                pieces,
            ),
            PieceKind::Pawn => {
                let (one_ahead, two_ahead) = match self.color {
                    PieceColor::White => (target.0 == self.x + 1, target.0 == self.x + 2),
                    PieceColor::Black => (target.0 + 1 == self.x, target.0 + 2 == self.x),
                };
                if columns == 0 && one_ahead {
                    !is_occupied(pieces, target)
                } else if columns == 0 && two_ahead && self.x == self.color.pawn_row() {
                    !is_occupied(pieces, target) && is_path_empty(from, target, pieces)
                } else if columns == 1 && one_ahead {
                    is_occupied_by(pieces, target, self.color.opposite())
                } else {
                    false
                }
            },
        }
    }
}

/// A rook, bishop or queen cannot pass another piece: when the piece at
/// index `blocker` stands strictly between the mover and `target`, the move
/// is not valid.
pub proof fn blocked_path_is_invalid(
    piece: Piece,
    target: (u8, u8),
    pieces: Seq<Piece>,
    blocker: int,
)
    requires
        travels_in_lines(piece.kind),
        0 <= blocker < pieces.len(),
        between(piece.pos(), target, pieces[blocker].pos()),
    ensures
        !move_valid(piece, target, pieces),
{
}

/// A rook, bishop or queen may move along its line of travel when nothing
/// stands in between, both squares are on the board and no piece of its own
/// colour holds the target.
pub proof fn clear_path_is_valid(piece: Piece, target: (u8, u8), pieces: Seq<Piece>)
    requires
        travels_in_lines(piece.kind),
        on_board(piece.pos()),
        on_board(target),
        in_line_of_travel(piece.kind, piece.pos(), target),
        path_clear(pieces, piece.pos(), target),
        !occupied_by(pieces, target, piece.color),
    ensures
        move_valid(piece, target, pieces),
{
}

/// A knight jumps: whether its move is valid depends on the pieces only
/// through whether one of its own colour holds the target. Two boards that
/// agree on that give the same answer, whatever else stands on them.
pub proof fn knight_move_ignores_other_squares(
    piece: Piece,
    target: (u8, u8),
    pieces: Seq<Piece>,
    others: Seq<Piece>,
)
    requires
        piece.kind == PieceKind::Knight,
        occupied_by(pieces, target, piece.color) == occupied_by(others, target, piece.color),
    ensures
        move_valid(piece, target, pieces) == move_valid(piece, target, others),
{
}

/// Putting one more piece on a square other than the target does not change
/// whether a knight's move is valid.
pub proof fn knight_move_ignores_obstruction(
    piece: Piece,
    target: (u8, u8),
    pieces: Seq<Piece>,
    obstruction: Piece,
)
    requires
        piece.kind == PieceKind::Knight,
        obstruction.pos() != target,
    ensures
        move_valid(piece, target, pieces.push(obstruction)) == move_valid(piece, target, pieces),
{
    let more = pieces.push(obstruction);
    if occupied_by(pieces, target, piece.color) {
        let i = choose|i: int|
            0 <= i < pieces.len() && (#[trigger] pieces[i]).pos() == target && pieces[i].color
                == piece.color;
        assert(more[i] == pieces[i]);
    }
    if occupied_by(more, target, piece.color) {
        let i = choose|i: int|
            0 <= i < more.len() && (#[trigger] more[i]).pos() == target && more[i].color
                == piece.color;
        assert(i < pieces.len());
        assert(more[i] == pieces[i]);
    }
    knight_move_ignores_other_squares(piece, target, more, pieces);
}

/// What every valid pawn move obeys. It goes one or two rows forward. Two
/// rows only straight ahead, from the starting row of its colour, with the
/// square ahead and the target both empty. One row straight ahead only onto
/// an empty square. To the side only by one column, one row forward, onto a
/// piece of the other colour.
pub proof fn valid_pawn_move_is_guarded(piece: Piece, target: (u8, u8), pieces: Seq<Piece>)
    requires
        piece.kind == PieceKind::Pawn,
        move_valid(piece, target, pieces),
    ensures
        target.0 - piece.x == piece.color.forward() || target.0 - piece.x == 2
            * piece.color.forward(),
        gap(piece.x, target.0) == 2 ==> {
            &&& piece.x == piece.color.pawn_row()
            &&& target.1 == piece.y
            &&& !occupied(pieces, square_ahead(piece))
            &&& !occupied(pieces, target)
        },
        gap(piece.x, target.0) == 1 && target.1 == piece.y ==> !occupied(pieces, target),
        target.1 != piece.y ==> {
            &&& gap(piece.y, target.1) == 1
            &&& target.0 - piece.x == piece.color.forward()
            &&& occupied_by(pieces, target, piece.color.opposite())
        },
{
    if pawn_double_advance(piece, target, pieces) {
        let ahead = square_ahead(piece);
        assert(between(piece.pos(), target, ahead));
        if occupied(pieces, ahead) {
            let i = choose|i: int| 0 <= i < pieces.len() && (#[trigger] pieces[i]).pos() == ahead;
            assert(between(piece.pos(), target, pieces[i].pos()));
        }
    }
}

/// A pawn on the starting row of its colour may step two squares forward
/// when the square ahead and the target are both empty.
pub proof fn free_pawn_may_advance_two(piece: Piece, target: (u8, u8), pieces: Seq<Piece>)
    requires
        piece.kind == PieceKind::Pawn,
        on_board(piece.pos()),
        piece.x == piece.color.pawn_row(),
        target.1 == piece.y,
        target.0 - piece.x == 2 * piece.color.forward(),
        !occupied(pieces, square_ahead(piece)),
        !occupied(pieces, target),
    ensures
        move_valid(piece, target, pieces),
{
    let ahead = square_ahead(piece);
    assert forall|i: int| 0 <= i < pieces.len() implies !between(
        piece.pos(),
        target,
        (#[trigger] pieces[i]).pos(),
    ) by {
        if between(piece.pos(), target, pieces[i].pos()) {
            assert(pieces[i].pos() == ahead);
        }
    }
    if occupied_by(pieces, target, piece.color) {
        let i = choose|i: int|
            0 <= i < pieces.len() && (#[trigger] pieces[i]).pos() == target && pieces[i].color
                == piece.color;
        assert(pieces[i].pos() == target);
    }
}

} // verus!
