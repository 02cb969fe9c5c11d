//! Colors, piece kinds and pieces.

use vstd::prelude::*;
use vstd::string::*;

verus! {

#[derive(Debug, Clone, Copy, PartialEq, Eq, Structural, PartialOrd, Ord, Hash)]
pub enum Color {
    White,
    Black,
}

impl Color {
    pub open spec fn spec_opposite(&self) -> Color {
        match self {
            Color::White => Color::Black,
            Color::Black => Color::White,
        }
    }

    #[verifier::when_used_as_spec(spec_opposite)]
    pub fn opposite(&self) -> (r: Color)
        ensures
            r == self.spec_opposite(),
    {
        match self {
            Color::White => Color::Black,
            Color::Black => Color::White,
        }
    }

    /// The name of the color.
    pub open spec fn name(self) -> Seq<char> {
        match self {
            Color::White => "White"@,
            Color::Black => "Black"@,
        }
    }

    /// The name of the color: `White` or `Black`.
    pub fn to_string(&self) -> (r: String)
        ensures
            r@ == self.name(),
    {
        match self {
            Color::White => String::from_str("White"),
            Color::Black => String::from_str("Black"),
        }
    }

    /// Turns the color into its opposite and returns the new color.
    pub fn swap(&mut self) -> (r: Color)
        ensures
            *final(self) == old(self).opposite(),
            r == *final(self),
    {
        *self = self.opposite();
        *self
    }
}

impl Default for Color {
    fn default() -> (r: Color)
        ensures
            r == Color::White,
    {
        Color::White
    }
}

#[derive(Debug, Clone, Copy, PartialEq, Eq, Structural, PartialOrd, Ord, Hash)]
pub enum PieceKind {
    Man,
    King,
}

impl Default for PieceKind {
    fn default() -> (r: PieceKind)
        ensures
            r == PieceKind::Man,
    {
        PieceKind::Man
    }
}

/// What stands on a square.
#[derive(Debug, Clone, Copy, PartialEq, Eq, Structural, PartialOrd, Ord, Hash)]
pub struct Piece {
    pub color: Color,
    pub kind: PieceKind,
}

/// The two diagonal steps towards the far side of the board for `color`.
pub open spec fn forward_steps(color: Color) -> Seq<(i8, i8)> {
    match color {
        Color::White => seq![(-1i8, 1i8), (1i8, 1i8)],
        Color::Black => seq![(-1i8, -1i8), (1i8, -1i8)],
    }
}

impl Piece {
    pub fn new(color: Color, kind: PieceKind) -> (r: Piece)
        ensures
            r == (Piece { color, kind }),
    {
        Piece { color, kind }
    }

    pub fn color(&self) -> (r: Color)
        ensures
            r == self.color,
    {
        self.color
    }

    pub fn kind(&self) -> (r: PieceKind)
        ensures
            r == self.kind,
    {
        self.kind
    }

    /// The same piece as a king.
    pub open spec fn promoted(self) -> Piece {
        Piece { color: self.color, kind: PieceKind::King }
    }

    pub fn promote(&mut self)
        ensures
            *final(self) == old(self).promoted(),
    {
        self.kind = PieceKind::King;
    }

    pub fn is_king(&self) -> (r: bool)
        ensures
            r == (self.kind == PieceKind::King),
    {
        self.kind == PieceKind::King
    }

    /// The steps a piece may take, in the order in which moves are generated:
    /// a man its two forward diagonals, a king those and then the two backward ones.
    pub open spec fn spec_moves(self) -> Seq<(i8, i8)> {
        if self.kind == PieceKind::King {
            forward_steps(self.color) + forward_steps(self.color.opposite())
        } else {
            forward_steps(self.color)
        }
    }

    pub fn moves(&self) -> (r: Vec<(i8, i8)>)
        ensures
            r@ == self.spec_moves(),
    {
        let mut moves: Vec<(i8, i8)> = Vec::new();
        match self.color {
            Color::White => {
                moves.push((-1, 1));
                moves.push((1, 1));
                if self.is_king() {
                    moves.push((-1, -1));
                    moves.push((1, -1));
                }
            },
            Color::Black => {
                moves.push((-1, -1));
                moves.push((1, -1));
                if self.is_king() {
                    moves.push((-1, 1));
                    moves.push((1, 1));
                }
            },
        }
        assert(moves@ =~= self.spec_moves());
        moves
    }

    /// The draughts symbol of the piece.
    pub open spec fn spec_symbol(&self) -> char {
        match (self.kind, self.color) {
            (PieceKind::Man, Color::White) => '\u{26C0}',
            (PieceKind::Man, Color::Black) => '\u{26C2}',
            (PieceKind::King, Color::White) => '\u{26C1}',
            (PieceKind::King, Color::Black) => '\u{26C3}',
        }
    }

    /// The draughts symbol of the piece.
    #[verifier::when_used_as_spec(spec_symbol)]
    pub fn symbol(&self) -> (r: char)
        ensures
            r == self.spec_symbol(),
    {
        match self.kind {
            PieceKind::Man => {
                if self.color == Color::White {
                    '\u{26C0}'
                } else {
                    '\u{26C2}'
                }
            },
            PieceKind::King => {
                if self.color == Color::White {
                    '\u{26C1}'
                } else {
                    '\u{26C3}'
                }
            },
        }
    }

    /// The draughts symbol of the piece, as a string.
    pub fn to_string(&self) -> (r: String)
        ensures
            r@ == seq![self.symbol()],
    {
        let mut text = String::new();
        text.push(self.symbol());
        assert(text@ =~= seq![self.symbol()]);
        text
    }

    /// The letter of the piece: `m` for a man and `k` for a king, in upper
    /// case for White.
    pub open spec fn letter(self) -> char {
        match (self.kind, self.color) {
            (PieceKind::Man, Color::White) => 'M',
            (PieceKind::Man, Color::Black) => 'm',
            (PieceKind::King, Color::White) => 'K',
            (PieceKind::King, Color::Black) => 'k',
        }
    }

    /// The rank on which a piece of `color` is crowned.
    pub open spec fn back_rank(color: Color) -> int {
        match color {
            Color::White => 7,
            Color::Black => 0,
        }
    }

    pub fn promotion_rank(&self) -> (r: u8)
        ensures
            r == Self::back_rank(self.color),
    {
        match self.color {
            Color::White => 7,
            Color::Black => 0,
        }
    }
}

impl Default for Piece {
    fn default() -> (r: Piece)
        ensures
            r == (Piece { color: Color::White, kind: PieceKind::Man }),
    {
        Piece { color: Color::White, kind: PieceKind::Man }
    }
}

impl From<Piece> for char {
    fn from(piece: Piece) -> (r: char) {
        match piece.kind {
            PieceKind::Man => if piece.color == Color::White {
                'M'
            } else {
                'm'
            },
            PieceKind::King => if piece.color == Color::White {
                'K'
            } else {
                'k'
            },
        }
    }
}

impl vstd::std_specs::convert::FromSpecImpl<Piece> for char {
    open spec fn obeys_from_spec() -> bool {
        true
    }

    open spec fn from_spec(piece: Piece) -> char {
        piece.letter()
    }
}

} // verus!
