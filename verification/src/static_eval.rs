//! The static evaluation of a board: the difference in material.

use vstd::prelude::*;
use crate::backend::Backend;
use crate::piece::{Color, Piece, PieceKind};
use crate::rules::{squares_of, Position};

verus! {

/// What a man counts for.
pub const MAN_VALUE: i64 = 1;

/// What a king counts for.
pub const KING_VALUE: i64 = 3;

/// The number of pieces of the given color and kind.
pub open spec fn count(pos: Position, color: Color, kind: PieceKind) -> nat {
    squares_of(pos, Piece { color, kind }).len()
}

/// The worth of the pieces of one color: one for each man, three for each king.
pub open spec fn material_of(pos: Position, color: Color) -> int {
    (count(pos, color, PieceKind::Man) * 1 + count(pos, color, PieceKind::King) * 3) as int
}

/// The worth of the pieces of `color` less that of the pieces of the other color.
pub open spec fn material(pos: Position, color: Color) -> int {
    material_of(pos, color) - material_of(pos, color.opposite())
}

/// For White the material is the number of white men and three times the
/// number of white kings, less the same for Black; for Black the reverse.
pub proof fn lemma_material(pos: Position)
    ensures
        material(pos, Color::White) == (count(pos, Color::White, PieceKind::Man) + 3 * count(
            pos,
            Color::White,
            PieceKind::King,
        )) - (count(pos, Color::Black, PieceKind::Man) + 3 * count(
            pos,
            Color::Black,
            PieceKind::King,
        )),
        material(pos, Color::Black) == -material(pos, Color::White),
{
}

/// The static evaluation of the board from the point of view of `maximizing_color`.
pub fn static_eval<B: Backend>(backend: &B, maximizing_color: Color) -> (r: i64)
    requires
        backend.wf(),
    ensures
        r == material(backend.position(), maximizing_color),
        -1020 <= r <= 1020,
{
    material_value(backend, maximizing_color)
}

fn material_value<B: Backend>(backend: &B, maximizing_color: Color) -> (r: i64)
    requires
        backend.wf(),
    ensures
        r == material(backend.position(), maximizing_color),
        -1020 <= r <= 1020,
{
    let pvalue: i64 = backend.man_count(maximizing_color) as i64 * MAN_VALUE + backend.king_count(
        maximizing_color,
    ) as i64 * KING_VALUE;
    let nvalue: i64 = backend.man_count(maximizing_color.opposite()) as i64 * MAN_VALUE
        + backend.king_count(maximizing_color.opposite()) as i64 * KING_VALUE;
    pvalue - nvalue
}

} // verus!
