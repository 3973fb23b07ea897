//! Pieces: their colour, their kind and the square they stand on.

use vstd::prelude::*;

verus! {

/// The side a piece belongs to.
#[derive(Clone, Copy, Debug, PartialEq, Eq, Structural, Hash)]
pub enum PieceColor {
    White,
    Black,
}

/// What a piece is, which decides how it moves.
#[derive(Clone, Copy, Debug, PartialEq, Eq, Structural, Hash)]
pub enum PieceKind {
    King,
    Queen,
    Bishop,
    Knight,
    Rook,
    Pawn,
}

/// A piece on the board. `x` is its row, counted from White's side, and
/// `y` its column.
#[derive(Clone, Copy, Debug, PartialEq, Eq, Structural, Hash)]
pub struct Piece {
    pub color: PieceColor,
    pub kind: PieceKind,
    pub x: u8,
    pub y: u8,
}

impl PieceColor {
    /// The other side.
    pub open spec fn spec_opposite(self) -> PieceColor {
        match self {
            PieceColor::White => PieceColor::Black,
            PieceColor::Black => PieceColor::White,
        }
    }

    /// The other side.
    #[verifier::when_used_as_spec(spec_opposite)]
    pub fn opposite(self) -> (other: PieceColor)
        ensures
            other == self.spec_opposite(),
    {
        match self {
            PieceColor::White => PieceColor::Black,
            PieceColor::Black => PieceColor::White,
        }
    }

    /// The step along `x` that a pawn of this colour takes: `1` for White,
    /// `-1` for Black.
    pub open spec fn forward(self) -> int {
        match self {
            PieceColor::White => 1,
            PieceColor::Black => -1,
        }
    }

    /// The row on which the pawns of this colour start.
    pub open spec fn spec_pawn_row(self) -> u8 {
        match self {
            PieceColor::White => 1,
            PieceColor::Black => 6,
        }
    }

    /// The row on which the pawns of this colour start.
    #[verifier::when_used_as_spec(spec_pawn_row)]
    pub fn pawn_row(self) -> (row: u8)
        ensures
            row == self.spec_pawn_row(),
    {
        match self {
            PieceColor::White => 1,
            PieceColor::Black => 6,
        }
    }
}

impl Piece {
    /// The square the piece stands on.
    pub open spec fn pos(self) -> (u8, u8) {
        (self.x, self.y)
    }

    /// The same piece standing on `target`.
    pub open spec fn spec_moved_to(self, target: (u8, u8)) -> Piece {
        Piece { color: self.color, kind: self.kind, x: target.0, y: target.1 }
    }

    /// The same piece standing on `target`.
    #[verifier::when_used_as_spec(spec_moved_to)]
    pub fn moved_to(self, target: (u8, u8)) -> (moved: Piece)
        ensures
            moved == self.spec_moved_to(target),
    {
        Piece { color: self.color, kind: self.kind, x: target.0, y: target.1 }
    }
}

} // verus!
