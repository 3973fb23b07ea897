//! How each square is to be shown: a reading of the selection and of what
//! is under the pointer that changes neither.

use vstd::prelude::*;
use crate::board::Square;
use crate::engine::{Hover, Selection};

verus! {

/// The way a square is shown.
#[derive(Clone, Copy, Debug, PartialEq, Eq, Structural, Hash)]
pub enum SquareShade {
    /// The pointer is on the square.
    Hovered,
    /// The square is the selected one.
    Selected,
    /// A light square of the checkerboard.
    Light,
    /// A dark square of the checkerboard.
    Dark,
}

/// The shade of `square`: that of the square under the pointer if it is
/// that square, else that of the selected square if it is that one, else
/// its own colour on the checkerboard.
pub open spec fn shade_of(square: Square, hovered: Option<Hover>, selection: Selection) -> SquareShade {
    if hovered == Some(Hover::Square(square)) {
        SquareShade::Hovered
    } else if selection.selected_square == Some(square) {
        SquareShade::Selected
    } else if square.is_white() {
        SquareShade::Light
    } else {
        SquareShade::Dark
    }
}

/// The shade in which to show `square`.
pub fn square_shade(square: Square, hovered: Option<Hover>, selection: &Selection) -> (shade:
    SquareShade)
    ensures
        shade == shade_of(square, hovered, *selection),
{
    let under_pointer = match hovered {
        Some(Hover::Square(other)) => other.x == square.x && other.y == square.y,
        _ => false,
    };
    let selected = match selection.selected_square {
        Some(other) => other.x == square.x && other.y == square.y,
        None => false,
    };
    if under_pointer {
        SquareShade::Hovered
    } else if selected {
        SquareShade::Selected
    } else if square.is_white() {
        SquareShade::Light
    } else {
        SquareShade::Dark
    }
}

/// The shade in which to show each of `squares`, in their order.
pub fn color_squares(squares: &Vec<Square>, hovered: Option<Hover>, selection: &Selection) -> (shades:
    Vec<SquareShade>)
    ensures
        shades@.len() == squares@.len(),
        forall|i: int|
            0 <= i < squares@.len() ==> shades@[i] == shade_of(squares@[i], hovered, *selection),
{
    let mut shades: Vec<SquareShade> = Vec::new();
    let mut i: usize = 0;
    while i < squares.len()
        invariant
            i <= squares.len(),
            shades@.len() == i,
            forall|j: int| 0 <= j < i ==> shades@[j] == shade_of(squares@[j], hovered, *selection),
        decreases squares.len() - i,
    {
        shades.push(square_shade(squares[i], hovered, selection));
        i += 1;
    }
    shades
}

} // verus!
