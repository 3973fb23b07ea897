//! Chess board interaction: the pieces and the squares they stand on, the
//! rule that says where a piece may go, and the click-driven state machine
//! that selects, moves and captures.
//!
//! Coordinates are pairs `(x, y)` with both parts in `0..8`. `x` counts the
//! rows from White's side of the board (White's officers start on `x == 0`,
//! Black's on `x == 7`); `y` counts the columns. Pawns advance along `x`.

pub mod board;
pub mod engine;
pub mod pieces;
pub mod rules;
pub mod shading;
