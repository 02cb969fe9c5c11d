//! The interface between a board representation and the rest of the engine.

use vstd::prelude::*;
use crate::gamestate::GameState;
use crate::piece::{Color, Piece, PieceKind};
use crate::ply::{indices, ply_views, Ply, PlyView};
use crate::rules::{
    apply_ply,
    legal_plies,
    on_board,
    outcome,
    piece_at,
    pieces_on,
    squares_of,
    without,
    Position,
};
use crate::square::Square;

verus! {

/// The board with the list of legal plies that was generated last on it
/// and the color the list was generated for.
pub struct Snapshot {
    pub position: Position,
    pub listed_for: Color,
    pub listed: Seq<PlyView>,
}

/// What generating the legal plies of `color` does: the board stays as it
/// is, the list is the list of legal plies of the board, and the list and
/// the color are remembered.
pub open spec fn generates(
    before: Snapshot,
    color: Color,
    listed: Seq<PlyView>,
    after: Snapshot,
) -> bool {
    &&& after.position == before.position
    &&& listed == legal_plies(before.position, color)
    &&& after.listed_for == color
    &&& after.listed == listed
}

/// Generating the legal plies twice in a row, with no change to the board
/// in between, gives the same list twice.
pub proof fn lemma_generation_repeats(
    before: Snapshot,
    between: Snapshot,
    after: Snapshot,
    color: Color,
    first: Seq<PlyView>,
    second: Seq<PlyView>,
)
    requires
        generates(before, color, first, between),
        generates(between, color, second, after),
    ensures
        first == second,
        after == between,
{
}

/// A board representation. Its abstract state is the board itself together
/// with the list of legal plies that was generated last and the color it was
/// generated for.
pub trait Backend: Sized {
    /// The representation is consistent.
    spec fn wf(&self) -> bool;

    /// The board.
    spec fn position(&self) -> Position;

    /// The color for which legal plies were generated last.
    spec fn cached_color(&self) -> Color;

    /// The list of legal plies that was generated last.
    spec fn cached_plies(&self) -> Seq<PlyView>;

    /// The hash of a board in this representation.
    spec fn digest(pos: Position) -> u64;

    /// A consistent representation holds finitely many pieces, all on the board.
    proof fn lemma_position(&self)
        requires
            self.wf(),
        ensures
            on_board(self.position()),
            self.position().dom().finite(),
            self.position().dom().len() <= 64,
    ;

    /// The state of the game. A side without pieces has lost; otherwise the
    /// side for which plies were generated last has lost if that list is
    /// empty. The list is not generated anew here.
    fn get_gamestate(&self) -> (r: GameState)
        requires
            self.wf(),
        ensures
            r == outcome(self.position(), self.cached_color(), self.cached_plies()),
    ;

    /// The piece on the given square, if there is one.
    fn get_piece(&self, square: Square) -> (r: Option<Piece>)
        requires
            self.wf(),
        ensures
            r == piece_at(self.position(), square@),
    ;

    /// Puts the piece on the given square, in place of what stood there.
    fn set_piece(&mut self, square: Square, piece: Piece)
        requires
            old(self).wf(),
        ensures
            final(self).wf(),
            final(self).position() == old(self).position().insert(square@, piece),
            final(self).cached_color() == old(self).cached_color(),
            final(self).cached_plies() == old(self).cached_plies(),
    ;

    /// Clears the given square and returns the piece that stood there.
    fn remove_piece(&mut self, square: Square) -> (r: Option<Piece>)
        requires
            old(self).wf(),
        ensures
            final(self).wf(),
            final(self).position() == old(self).position().remove(square@),
            final(self).cached_color() == old(self).cached_color(),
            final(self).cached_plies() == old(self).cached_plies(),
            r == piece_at(old(self).position(), square@),
    ;

    /// Clears the given squares and returns the pieces that stood on them,
    /// in the order of the list.
    fn remove_pieces(&mut self, squares: &[Square]) -> (r: Vec<Piece>)
        requires
            old(self).wf(),
        ensures
            final(self).wf(),
            final(self).position() == without(old(self).position(), indices(squares@)),
            final(self).cached_color() == old(self).cached_color(),
            final(self).cached_plies() == old(self).cached_plies(),
            r@ == pieces_on(old(self).position(), indices(squares@)),
    {
        let mut removed: Vec<Piece> = Vec::new();
        let mut i: usize = 0;
        while i < squares.len()
            invariant
                i <= squares.len(),
                self.wf(),
                *self == *old(self),
                removed@ == pieces_on(self.position(), indices(squares@.take(i as int))),
            decreases squares.len() - i,
        {
            proof {
                let next = indices(squares@.take(i + 1));
                assert(next.drop_last() =~= indices(squares@.take(i as int)));
                assert(next.last() == squares@[i as int]@);
            }
            if let Some(piece) = self.get_piece(squares[i]) {
                removed.push(piece);
            }
            i += 1;
        }
        assert(squares@.take(i as int) =~= squares@);
        let mut j: usize = 0;
        while j < squares.len()
            invariant
                j <= squares.len(),
                self.wf(),
                self.position() == without(old(self).position(), indices(squares@.take(j as int))),
                self.cached_color() == old(self).cached_color(),
                self.cached_plies() == old(self).cached_plies(),
            decreases squares.len() - j,
        {
            proof {
                let next = indices(squares@.take(j + 1));
                assert(next.drop_last() =~= indices(squares@.take(j as int)));
                assert(next.last() == squares@[j as int]@);
            }
            self.remove_piece(squares[j]);
            j += 1;
        }
        assert(squares@.take(j as int) =~= squares@);
        removed
    }

    /// The legal plies of `color` on the present board, in the order of the
    /// rules: by starting square, then by direction. The list is remembered
    /// for `get_gamestate`.
    fn get_legal_plies(&mut self, color: Color) -> (r: Vec<Ply>)
        requires
            old(self).wf(),
        ensures
            final(self).wf(),
            generates(
                (Snapshot {
                    position: old(self).position(),
                    listed_for: old(self).cached_color(),
                    listed: old(self).cached_plies(),
                }),
                color,
                ply_views(r@),
                (Snapshot {
                    position: final(self).position(),
                    listed_for: final(self).cached_color(),
                    listed: final(self).cached_plies(),
                }),
            ),
    ;

    /// Carries out the ply on the board. The ply is taken to be legal.
    fn ply(&mut self, ply: Ply)
        requires
            old(self).wf(),
        ensures
            final(self).wf(),
            final(self).position() == apply_ply(old(self).position(), ply@),
            final(self).cached_color() == old(self).cached_color(),
            final(self).cached_plies() == old(self).cached_plies(),
    {
        self.remove_piece(ply.from());
        self.set_piece(ply.to(), ply.piece());
        self.remove_pieces(ply.captures());
    }

    /// The number of men of the given color.
    fn man_count(&self, color: Color) -> (r: u8)
        requires
            self.wf(),
        ensures
            r == squares_of(self.position(), Piece { color, kind: PieceKind::Man }).len(),
    ;

    /// The number of kings of the given color.
    fn king_count(&self, color: Color) -> (r: u8)
        requires
            self.wf(),
        ensures
            r == squares_of(self.position(), Piece { color, kind: PieceKind::King }).len(),
    ;

    /// A hash of the board.
    fn state_hash(&self) -> (r: u64)
        requires
            self.wf(),
        ensures
            r == Self::digest(self.position()),
    ;
}

/// The snapshot that a backend stands for.
pub open spec fn snapshot_of<B: Backend>(backend: &B) -> Snapshot {
    Snapshot {
        position: backend.position(),
        listed_for: backend.cached_color(),
        listed: backend.cached_plies(),
    }
}

/// A backend that can be copied, board and remembered plies alike.
pub trait BackendClone: Backend {
    fn clone_box(&self) -> (r: Box<Self>)
        requires
            self.wf(),
        ensures
            r.wf(),
            r.position() == self.position(),
            r.cached_color() == self.cached_color(),
            r.cached_plies() == self.cached_plies(),
    ;
}

} // verus!
