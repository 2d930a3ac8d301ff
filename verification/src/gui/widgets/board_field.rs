//! One square of the board as it is laid out on the screen.

use crate::models::field_content::{piece_of, FieldContent};
use crate::models::piece::{kind_symbol, PieceColor};
use vstd::prelude::*;

verus! {

/// Where a square is drawn, relative to the area of the board, which
/// square of the board it is, and how it is to be shown.
#[derive(Debug, Clone, Copy, PartialEq, Eq)]
pub struct BoardField {
    pub x: u16,
    pub y: u16,
    pub width: u16,
    pub height: u16,
    pub chess_coordinates: (usize, usize),
    pub dark: bool,
    pub contains_mouse: bool,
    pub was_clicked: bool,
}

impl BoardField {
    /// A square with the given place and look.
    pub fn new(
        x: u16,
        y: u16,
        width: u16,
        height: u16,
        chess_coordinates: (usize, usize),
        dark: bool,
        contains_mouse: bool,
        was_clicked: bool,
    ) -> (field: Self)
        ensures
            field == (BoardField {
                x,
                y,
                width,
                height,
                chess_coordinates,
                dark,
                contains_mouse,
                was_clicked,
            }),
    {
        Self { x, y, width, height, chess_coordinates, dark, contains_mouse, was_clicked }
    }

    /// What is written on a square: the glyph of its piece and the side
    /// whose colour it is written in; nothing for an empty square.
    pub fn content_paragraph(content: &FieldContent) -> (r: Option<(String, PieceColor)>)
        ensures
            match r {
                Some((symbol, side)) => piece_of(*content) == Some(
                    crate::models::piece::ColoredPiece {
                        kind: piece_of(*content)->0.kind,
                        color: side,
                    },
                ) && symbol@ == kind_symbol(piece_of(*content)->0.kind),
                None => piece_of(*content) is None,
            },
    {
        if let Some(color) = content.get_color() {
            let symbol = content.to_uncolored_piece_string();
            Some((symbol, color))
        } else {
            None
        }
    }
}

} // verus!
