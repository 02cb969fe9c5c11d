//! A board kept as three 64-bit masks: the squares of the white pieces, the
//! squares of the black pieces, and the squares of the kings of both colors.

use vstd::prelude::*;
use vstd::bytes::{spec_u64_to_le_bytes, u64_to_le_bytes};
use vstd::std_specs::hash::DefaultHasherAdditionalSpecFns;
use std::collections::hash_map::DefaultHasher;
use std::hash::Hasher;
use crate::backend::{Backend, BackendClone};
use crate::bitfield::{mask_of, BitField};
use crate::gamestate::GameState;
use crate::piece::{Color, Piece, PieceKind};
use crate::ply::{clone_plies, copy_squares, indices, ply_views, Ply, PlyBuilder, PlyView};
use crate::rules::{
    after_jump,
    board_jumps,
    board_steps,
    can_jump,
    can_step,
    chains,
    crowned_squares,
    holds,
    is_dark,
    jump_ply,
    jumps,
    legal_plies,
    lemma_apply_jump,
    lemma_jump_takes_a_piece,
    pieces_on,
    reach,
    side,
    square_jumps,
    square_plies,
    squares_of,
    starting_position,
    step_ply,
    steps,
    without,
    Position,
};
use crate::square::Square;

verus! {

/// The squares of the white men at the start of a game.
pub const DEFAULT_BOARD_WHITE: u64 = 0x000000000055aa55;

/// The squares of the black men at the start of a game.
pub const DEFAULT_BOARD_BLACK: u64 = 0xaa55aa0000000000;

/// The squares of the kings at the start of a game: none.
pub const DEFAULT_BOARD_KINGS: u64 = 0x0000000000000000;

/// The list of legal plies that was generated last, with the hash of the
/// board and the color it was generated for. Any change to the board marks
/// it as out of date; the list itself stays until the next generation.
#[derive(Debug, PartialEq, Eq, PartialOrd, Ord)]
struct PliesState {
    state: u64,
    color: Color,
    plies: Vec<Ply>,
    fresh: bool,
}

impl PliesState {
    fn new() -> (r: PliesState)
        ensures
            r.state == 0,
            r.color == Color::White,
            r.plies@ == Seq::<Ply>::empty(),
            !r.fresh,
    {
        PliesState { state: 0, color: Color::White, plies: Vec::new(), fresh: false }
    }
}

/// The board that the three sets of squares stand for. A square in `white`
/// holds a white piece, any other square in `black` a black one; the piece
/// is a king if the square is in `kings`.
pub open spec fn board_of(white: Set<nat>, black: Set<nat>, kings: Set<nat>) -> Position {
    Map::new(
        |k: nat| white.contains(k) || black.contains(k),
        |k: nat|
            Piece {
                color: if white.contains(k) {
                    Color::White
                } else {
                    Color::Black
                },
                kind: if kings.contains(k) {
                    PieceKind::King
                } else {
                    PieceKind::Man
                },
            },
    )
}

/// The hash of a board: the three masks, each as eight bytes with the lowest
/// first, fed in turn to the standard hasher.
pub open spec fn board_digest(pos: Position) -> u64 {
    DefaultHasher::spec_finish(
        seq![
            spec_u64_to_le_bytes(mask_of(side(pos, Color::White))),
            spec_u64_to_le_bytes(mask_of(side(pos, Color::Black))),
            spec_u64_to_le_bytes(mask_of(crowned_squares(pos))),
        ],
    )
}

proof fn lemma_white_camp(k: u64)
    by (bit_vector)
    requires
        k < 64,
    ensures
        ((DEFAULT_BOARD_WHITE >> k) & 1 == 1) == (k < 24 && (k % 8 + k / 8) % 2 == 0),
{
}

proof fn lemma_black_camp(k: u64)
    by (bit_vector)
    requires
        k < 64,
    ensures
        ((DEFAULT_BOARD_BLACK >> k) & 1 == 1) == (40 <= k && (k % 8 + k / 8) % 2 == 0),
{
}

/// Adds to `plies` what a first jump contributes: the jump itself if no
/// capture follows it, else the jump joined with each of its continuations.
fn append_chains(plies: &mut Vec<Ply>, first: &PlyBuilder, rest: &Vec<Ply>)
    ensures
        ply_views(final(plies)@) == ply_views(old(plies)@) + chains(first@, ply_views(rest@)),
{
    let ghost before = ply_views(plies@);
    if rest.len() == 0 {
        let ply = first.clone().build();
        let ghost seen = plies@;
        plies.push(ply);
        assert(ply_views(plies@) =~= ply_views(seen).push(ply@));
        assert(ply_views(rest@) =~= Seq::<PlyView>::empty());
        assert(ply_views(plies@) =~= before + chains(first@, ply_views(rest@)));
        return ;
    }
    let mut j: usize = 0;
    while j < rest.len()
        invariant
            j <= rest.len(),
            rest.len() > 0,
            ply_views(plies@) == before + ply_views(rest@.take(j as int)).map_values(
                |r: PlyView| crate::rules::extend(first@, r),
            ),
        decreases rest.len() - j,
    {
        let continuation = &rest[j];
        let mut joined = first.clone().capture_multiple(
            continuation.to(),
            copy_squares(continuation.captures()),
        );
        if continuation.promoted() {
            joined = joined.promote();
        }
        let ply = joined.build();
        assert(ply@ == crate::rules::extend(first@, continuation@));
        let ghost seen = plies@;
        plies.push(ply);
        assert(ply_views(plies@) =~= ply_views(seen).push(ply@));
        assert(rest@.take(j + 1) =~= rest@.take(j as int).push(rest@[j as int]));
        assert(ply_views(rest@.take(j + 1)) =~= ply_views(rest@.take(j as int)).push(
            continuation@,
        ));
        assert(ply_views(plies@) =~= before + ply_views(rest@.take(j + 1)).map_values(
            |r: PlyView| crate::rules::extend(first@, r),
        ));
        j += 1;
    }
    assert(rest@.take(j as int) =~= rest@);
}

/// A board of three bit fields, with the list of legal plies that was
/// generated last.
#[derive(Debug, PartialEq, Eq, PartialOrd, Ord)]
pub struct BitBoard {
    white: BitField,
    black: BitField,
    kings: BitField,
    legal_plies: PliesState,
}

impl BitBoard {
    /// The squares of the white pieces.
    pub closed spec fn white_squares(&self) -> Set<nat> {
        self.white@
    }

    /// The squares of the black pieces.
    pub closed spec fn black_squares(&self) -> Set<nat> {
        self.black@
    }

    /// The squares of the kings of both colors.
    pub closed spec fn king_squares(&self) -> Set<nat> {
        self.kings@
    }

    /// No square holds both a white and a black piece, and every king
    /// stands on an occupied square.
    pub open spec fn masks_agree(&self) -> bool {
        &&& self.white_squares().disjoint(self.black_squares())
        &&& self.king_squares().subset_of(self.white_squares().union(self.black_squares()))
    }

    /// The remembered list, where it is marked as up to date, is the list of
    /// legal plies of the present board.
    pub closed spec fn cache_agrees(&self) -> bool {
        self.legal_plies.fresh ==> ply_views(self.legal_plies.plies@) == legal_plies(
            self.position(),
            self.legal_plies.color,
        )
    }

    /// On a consistent board the white and the black squares are disjoint,
    /// and every king square is a white or a black square.
    pub proof fn lemma_masks_agree(&self)
        requires
            self.wf(),
        ensures
            self.white_squares().disjoint(self.black_squares()),
            self.king_squares().subset_of(self.white_squares().union(self.black_squares())),
    {
    }

    /// What the masks say of the board they stand for.
    pub proof fn lemma_masks(&self)
        requires
            self.wf(),
        ensures
            self.position() == board_of(
                self.white_squares(),
                self.black_squares(),
                self.king_squares(),
            ),
            side(self.position(), Color::White) == self.white_squares(),
            side(self.position(), Color::Black) == self.black_squares(),
            crowned_squares(self.position()) == self.king_squares(),
            self.position().dom() == self.white_squares().union(self.black_squares()),
    {
        let pos = self.position();
        assert(side(pos, Color::White) =~= self.white@);
        assert(side(pos, Color::Black) =~= self.black@);
        assert(crowned_squares(pos) =~= self.kings@);
        assert(pos.dom() =~= self.white@.union(self.black@));
    }

    /// A board without pieces.
    pub fn empty() -> (r: BitBoard)
        ensures
            r.wf(),
            r.position() == Map::<nat, Piece>::empty(),
            r.cached_color() == Color::White,
            r.cached_plies() == Seq::<PlyView>::empty(),
    {
        let r = BitBoard {
            white: BitField::empty(),
            black: BitField::empty(),
            kings: BitField::empty(),
            legal_plies: PliesState::new(),
        };
        assert(ply_views(r.legal_plies.plies@) =~= Seq::<PlyView>::empty());
        assert(r.position() =~= Map::<nat, Piece>::empty());
        r
    }

    fn get_color_field(&self, color: Color) -> (r: BitField)
        ensures
            r == match color {
                Color::White => self.white,
                Color::Black => self.black,
            },
    {
        match color {
            Color::White => self.white,
            Color::Black => self.black,
        }
    }

    fn get_color_field_mut(&mut self, color: Color) -> (r: &mut BitField)
        ensures
            *r == match color {
                Color::White => old(self).white,
                Color::Black => old(self).black,
            },
            final(self).white == match color {
                Color::White => *final(r),
                Color::Black => old(self).white,
            },
            final(self).black == match color {
                Color::White => old(self).black,
                Color::Black => *final(r),
            },
            final(self).kings == old(self).kings,
            final(self).legal_plies == old(self).legal_plies,
    {
        match color {
            Color::White => &mut self.white,
            Color::Black => &mut self.black,
        }
    }

    /// The plies of the piece on `square`, if it belongs to `color`: its
    /// capture chains if it has any or if only captures are asked for, else
    /// its simple steps. The flag returned says whether the list is one of
    /// captures.
    pub fn get_legal_plies_for(&self, square: Square, color: Color, only_captures: bool) -> (r: (
        bool,
        Vec<Ply>,
    ))
        requires
            self.wf(),
        ensures
            r.0 == (holds(self.position(), square@, color) && (only_captures || square_jumps(
                self.position(),
                square@,
                color,
            ).len() > 0)),
            ply_views(r.1@) == square_plies(self.position(), square@, color, only_captures),
        decreases self.position().dom().len(),
    {
        let piece = match self.get_piece(square) {
            Some(piece) => piece,
            None => {
                return (false, Vec::new());
            },
        };
        if piece.color() != color {
            return (false, Vec::new());
        }
        let all = self.white.union(self.black);
        let allies = self.get_color_field(piece.color());
        let moves = piece.moves();
        let mut plies: Vec<Ply> = Vec::new();
        let mut captures = only_captures;
        let ghost pos = self.position();
        let ghost sq = square@;
        proof {
            self.lemma_position();
            self.lemma_masks();
        }
        let mut k: usize = 0;
        while k < moves.len()
            invariant
                self.wf(),
                pos == self.position(),
                sq == square@,
                pos.dom().finite(),
                pos.contains_key(sq),
                pos[sq] == piece,
                piece.color == color,
                moves@ == piece.spec_moves(),
                k <= moves.len(),
                all@ == pos.dom(),
                allies@ == side(pos, color),
                captures == (only_captures || jumps(pos, sq, k as nat).len() > 0),
                ply_views(plies@) == if captures {
                    jumps(pos, sq, k as nat)
                } else {
                    steps(pos, sq, k as nat)
                },
            decreases moves.len() - k,
        {
            let (dx, dy) = moves[k];
            let ghost d = moves@[k as int];
            assert(jumps(pos, sq, (k + 1) as nat) == if can_jump(pos, sq, d) {
                jumps(pos, sq, k as nat) + chains(
                    jump_ply(pos, sq, d),
                    jumps(
                        after_jump(pos, sq, d),
                        crate::rules::landing_square(sq, d),
                        reach(after_jump(pos, sq, d), crate::rules::landing_square(sq, d)),
                    ),
                )
            } else {
                jumps(pos, sq, k as nat)
            });
            assert(steps(pos, sq, (k + 1) as nat) == if can_step(pos, sq, d) {
                steps(pos, sq, k as nat).push(step_ply(pos, sq, d))
            } else {
                steps(pos, sq, k as nat)
            });
            if let Some(target) = square.moved_by(dx, dy) {
                let index = target.index();
                if all.get(index) {
                    if !allies.get(index) {
                        if let Some(jump_target) = target.moved_by(dx, dy) {
                            if !all.get(jump_target.index()) {
                                assert(can_jump(pos, sq, d));
                                if !captures {
                                    plies.clear();
                                }
                                captures = true;
                                assert(ply_views(plies@) =~= jumps(pos, sq, k as nat));
                                let mut pb = PlyBuilder::new(piece, square).capture(
                                    jump_target,
                                    target,
                                );
                                if piece.promotion_rank() == jump_target.rank() {
                                    pb = pb.promote();
                                }
                                assert(pb@ == jump_ply(pos, sq, d));
                                let mut new_board = self.clone();
                                new_board.ply(pb.clone().build());
                                proof {
                                    lemma_apply_jump(pos, sq, d);
                                    lemma_jump_takes_a_piece(pos, sq, d);
                                }
                                let (_, square_plies) = new_board.get_legal_plies_for(
                                    jump_target,
                                    color,
                                    true,
                                );
                                append_chains(&mut plies, &pb, &square_plies);
                            }
                        }
                    }
                } else if !captures {
                    assert(can_step(pos, sq, d));
                    let mut pb = PlyBuilder::new(piece, square).step(target);
                    if piece.promotion_rank() == target.rank() {
                        pb = pb.promote();
                    }
                    let ply = pb.build();
                    let ghost before = plies@;
                    plies.push(ply);
                    assert(ply_views(plies@) =~= ply_views(before).push(ply@));
                }
            }
            k += 1;
        }
        (captures, plies)
    }

    /// The hash of the three masks.
    pub fn get_hash(&self) -> (r: u64)
        requires
            self.wf(),
        ensures
            r == board_digest(self.position()),
    {
        proof {
            self.lemma_masks();
            self.white.lemma_view();
            self.black.lemma_view();
            self.kings.lemma_view();
        }
        let mut hasher = DefaultHasher::new();
        let white = u64_to_le_bytes(self.white.value());
        hasher.write(white.as_slice());
        let black = u64_to_le_bytes(self.black.value());
        hasher.write(black.as_slice());
        let kings = u64_to_le_bytes(self.kings.value());
        hasher.write(kings.as_slice());
        assert(hasher@ =~= seq![white@, black@, kings@]);
        hasher.finish()
    }
}

impl Clone for BitBoard {
    fn clone(&self) -> (r: BitBoard)
        ensures
            r.white_squares() == self.white_squares(),
            r.black_squares() == self.black_squares(),
            r.king_squares() == self.king_squares(),
            r.position() == self.position(),
            r.cached_color() == self.cached_color(),
            r.cached_plies() == self.cached_plies(),
            self.wf() ==> r.wf(),
    {
        BitBoard {
            white: self.white,
            black: self.black,
            kings: self.kings,
            legal_plies: PliesState {
                state: self.legal_plies.state,
                color: self.legal_plies.color,
                plies: clone_plies(&self.legal_plies.plies),
                fresh: self.legal_plies.fresh,
            },
        }
    }
}

impl Default for BitBoard {
    /// The standard starting position: twelve men a side on the dark squares
    /// of the three ranks nearest to each player, and no kings.
    fn default() -> (r: BitBoard)
        ensures
            r.wf(),
            r.position() == starting_position(),
            r.cached_color() == Color::White,
            r.cached_plies() == Seq::<PlyView>::empty(),
    {
        let white = BitField::new(DEFAULT_BOARD_WHITE);
        let black = BitField::new(DEFAULT_BOARD_BLACK);
        let kings = BitField::new(DEFAULT_BOARD_KINGS);
        proof {
            crate::bitfield::lemma_no_bits();
            assert(DEFAULT_BOARD_WHITE & DEFAULT_BOARD_BLACK == 0) by (bit_vector);
            crate::bitfield::lemma_disjoint_masks(DEFAULT_BOARD_WHITE, DEFAULT_BOARD_BLACK);
            assert forall|k: nat| white@.contains(k) == (k < 24 && is_dark(k)) by {
                if k < 64 {
                    lemma_white_camp(k as u64);
                }
            }
            assert forall|k: nat| black@.contains(k) == (40 <= k < 64 && is_dark(k)) by {
                if k < 64 {
                    lemma_black_camp(k as u64);
                }
            }
        }
        let r = BitBoard { white, black, kings, legal_plies: PliesState::new() };
        assert(ply_views(r.legal_plies.plies@) =~= Seq::<PlyView>::empty());
        assert(r.position() =~= starting_position());
        r
    }
}

impl Backend for BitBoard {
    open spec fn wf(&self) -> bool {
        self.masks_agree() && self.cache_agrees()
    }

    closed spec fn position(&self) -> Position {
        board_of(self.white@, self.black@, self.kings@)
    }

    closed spec fn cached_color(&self) -> Color {
        self.legal_plies.color
    }

    closed spec fn cached_plies(&self) -> Seq<PlyView> {
        ply_views(self.legal_plies.plies@)
    }

    open spec fn digest(pos: Position) -> u64 {
        board_digest(pos)
    }

    proof fn lemma_position(&self) {
        self.lemma_masks();
        self.white.lemma_view();
        self.black.lemma_view();
        crate::bitfield::lemma_below_64_bound(self.white@.union(self.black@));
    }

    fn get_gamestate(&self) -> (r: GameState) {
        proof {
            self.lemma_masks();
        }
        if self.white.count() == 0 {
            GameState::Win(Color::Black)
        } else if self.black.count() == 0 {
            GameState::Win(Color::White)
        } else if self.legal_plies.plies.len() == 0 {
            GameState::Win(self.legal_plies.color.opposite())
        } else {
            GameState::OnGoing
        }
    }

    fn get_piece(&self, square: Square) -> (r: Option<Piece>) {
        let index = square.index();
        let kind = if self.kings.get(index) {
            PieceKind::King
        } else {
            PieceKind::Man
        };
        if self.white.get(index) {
            Some(Piece::new(Color::White, kind))
        } else if self.black.get(index) {
            Some(Piece::new(Color::Black, kind))
        } else {
            None
        }
    }

    fn set_piece(&mut self, square: Square, piece: Piece) {
        let index = square.index();
        let color_field = self.get_color_field_mut(piece.color());
        color_field.set(index);
        let other_field = self.get_color_field_mut(piece.color().opposite());
        other_field.unset(index);
        if piece.kind() == PieceKind::King {
            self.kings.set(index);
        } else {
            self.kings.unset(index);
        }
        self.legal_plies.fresh = false;
        assert(self.position() =~= old(self).position().insert(square@, piece));
    }

    fn remove_piece(&mut self, square: Square) -> (r: Option<Piece>) {
        let index = square.index();
        let piece = self.get_piece(square);
        if piece.is_some() {
            self.white.unset(index);
            self.black.unset(index);
            self.kings.unset(index);
            self.legal_plies.fresh = false;
        }
        assert(self.position() =~= old(self).position().remove(square@));
        piece
    }

    fn remove_pieces(&mut self, squares: &[Square]) -> (r: Vec<Piece>) {
        let mut removed_pieces: Vec<Piece> = Vec::new();
        let mut remove_mask = BitField::empty();
        let mut i: usize = 0;
        while i < squares.len()
            invariant
                i <= squares.len(),
                self.wf(),
                *self == *old(self),
                removed_pieces@ == pieces_on(self.position(), indices(squares@.take(i as int))),
                self.position().remove_keys(remove_mask@) == without(
                    self.position(),
                    indices(squares@.take(i as int)),
                ),
            decreases squares.len() - i,
        {
            proof {
                let next = indices(squares@.take(i + 1));
                assert(next.drop_last() =~= indices(squares@.take(i as int)));
                assert(next.last() == squares@[i as int]@);
            }
            let square = squares[i];
            let ghost before = remove_mask@;
            if let Some(piece) = self.get_piece(square) {
                removed_pieces.push(piece);
                remove_mask.set(square.index());
            }
            assert(self.position().remove_keys(remove_mask@) =~= self.position().remove_keys(
                before,
            ).remove(square@));
            i += 1;
        }
        assert(squares@.take(i as int) =~= squares@);
        self.white = self.white.difference(remove_mask);
        self.black = self.black.difference(remove_mask);
        self.kings = self.kings.difference(remove_mask);
        self.legal_plies.fresh = false;
        assert(self.position() =~= old(self).position().remove_keys(remove_mask@));
        removed_pieces
    }

    fn get_legal_plies(&mut self, color: Color) -> (r: Vec<Ply>) {
        if self.legal_plies.fresh && self.legal_plies.color == color && self.legal_plies.state
            == self.get_hash() {
            return clone_plies(&self.legal_plies.plies);
        }
        self.legal_plies = PliesState::new();
        assert(self.position() == old(self).position());
        let ghost pos = self.position();
        let mut plies: Vec<Ply> = Vec::new();
        let mut capturing = false;
        let mut n: usize = 0;
        while n < 64
            invariant
                n <= 64,
                self.wf(),
                self.position() == pos,
                capturing == (board_jumps(pos, color, n as nat).len() > 0),
                ply_views(plies@) == if capturing {
                    board_jumps(pos, color, n as nat)
                } else {
                    board_steps(pos, color, n as nat)
                },
            decreases 64 - n,
        {
            if let Some(square) = Square::from_index(n) {
                let (captured, mut square_plies) = self.get_legal_plies_for(
                    square,
                    color,
                    capturing,
                );
                if captured && !capturing {
                    plies.clear();
                    capturing = true;
                }
                let ghost before = plies@;
                let ghost added = square_plies@;
                plies.append(&mut square_plies);
                assert(ply_views(plies@) =~= ply_views(before) + ply_views(added));
            }
            n += 1;
        }
        let listed = clone_plies(&plies);
        let state = self.get_hash();
        self.legal_plies = PliesState { state, color, plies: listed, fresh: true };
        plies
    }

    fn man_count(&self, color: Color) -> (r: u8) {
        let men = self.get_color_field(color).difference(self.kings);
        proof {
            self.lemma_masks();
            assert(men@ =~= squares_of(self.position(), Piece { color, kind: PieceKind::Man }));
        }
        men.count() as u8
    }

    fn king_count(&self, color: Color) -> (r: u8) {
        let kings = self.get_color_field(color).intersection(self.kings);
        proof {
            self.lemma_masks();
            assert(kings@ =~= squares_of(self.position(), Piece { color, kind: PieceKind::King }));
        }
        kings.count() as u8
    }

    fn state_hash(&self) -> (r: u64) {
        self.get_hash()
    }
}

impl BackendClone for BitBoard {
    fn clone_box(&self) -> (r: Box<BitBoard>) {
        Box::new(self.clone())
    }
}

} // verus!
