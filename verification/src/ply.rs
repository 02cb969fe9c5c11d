//! A ply is one complete turn: a single step, or a whole chain of captures.

use vstd::prelude::*;
use vstd::string::*;
use crate::piece::Piece;
use crate::square::{square_name, Square};

verus! {

/// The mathematical content of a ply. Squares are given by their indices.
pub struct PlyView {
    /// The piece as it stands after the ply.
    pub piece: Piece,
    pub from: nat,
    pub to: nat,
    pub promoted: bool,
    /// The squares whose pieces are taken, in the order of capture.
    pub captures: Seq<nat>,
}

/// The indices of a sequence of squares.
pub open spec fn indices(squares: Seq<Square>) -> Seq<nat> {
    squares.map_values(|s: Square| s@)
}

impl PlyView {
    /// The ply that starts and ends on `from` and does nothing yet.
    pub open spec fn start(piece: Piece, from: nat) -> PlyView {
        PlyView { piece, from, to: from, promoted: false, captures: Seq::empty() }
    }

    pub open spec fn step(self, to: nat) -> PlyView {
        PlyView { to, ..self }
    }

    pub open spec fn capture(self, to: nat, capture: nat) -> PlyView {
        PlyView { to, captures: self.captures.push(capture), ..self }
    }

    pub open spec fn capture_multiple(self, to: nat, captures: Seq<nat>) -> PlyView {
        PlyView { to, captures: self.captures + captures, ..self }
    }

    pub open spec fn promote(self) -> PlyView {
        PlyView { promoted: true, piece: self.piece.promoted(), ..self }
    }
}

/// The captures of a ply as they are written: each square after an `x`.
pub open spec fn captures_text(captures: Seq<nat>) -> Seq<char>
    decreases captures.len(),
{
    if captures.len() == 0 {
        Seq::empty()
    } else {
        captures_text(captures.drop_last()) + seq!['x'] + square_name(captures.last())
    }
}

/// A ply as it is written: the first square, a dash, the last square, a `p`
/// if the piece is crowned, and each captured square after an `x`.
pub open spec fn notation(ply: PlyView) -> Seq<char> {
    square_name(ply.from) + seq!['-'] + square_name(ply.to) + (if ply.promoted {
        seq!['p']
    } else {
        Seq::empty()
    }) + captures_text(ply.captures)
}

/// An immutable record of one turn.
#[derive(Debug, PartialEq, Eq, PartialOrd, Ord, Hash)]
pub struct Ply {
    piece: Piece,
    from: Square,
    to: Square,
    promoted: bool,
    captures: Vec<Square>,
}

impl View for Ply {
    type V = PlyView;

    closed spec fn view(&self) -> PlyView {
        PlyView {
            piece: self.piece,
            from: self.from@,
            to: self.to@,
            promoted: self.promoted,
            captures: indices(self.captures@),
        }
    }
}

/// The views of a sequence of plies.
pub open spec fn ply_views(plies: Seq<Ply>) -> Seq<PlyView> {
    plies.map_values(|p: Ply| p@)
}

/// A copy of a list of plies.
pub fn clone_plies(plies: &Vec<Ply>) -> (r: Vec<Ply>)
    ensures
        ply_views(r@) == ply_views(plies@),
{
    let mut copy: Vec<Ply> = Vec::new();
    let mut i: usize = 0;
    while i < plies.len()
        invariant
            i <= plies.len(),
            ply_views(copy@) == ply_views(plies@.take(i as int)),
        decreases plies.len() - i,
    {
        let ply = plies[i].clone();
        let ghost seen = copy@;
        copy.push(ply);
        assert(plies@.take(i + 1) =~= plies@.take(i as int).push(plies@[i as int]));
        assert(ply_views(copy@) =~= ply_views(seen).push(ply@));
        assert(ply_views(plies@.take(i + 1)) =~= ply_views(plies@.take(i as int)).push(
            plies@[i as int]@,
        ));
        i += 1;
    }
    assert(plies@.take(i as int) =~= plies@);
    copy
}

/// A copy of a list of squares.
pub fn copy_squares(squares: &[Square]) -> (r: Vec<Square>)
    ensures
        r@ == squares@,
{
    let mut copy: Vec<Square> = Vec::new();
    let mut i: usize = 0;
    while i < squares.len()
        invariant
            i <= squares.len(),
            copy@ == squares@.take(i as int),
        decreases squares.len() - i,
    {
        copy.push(squares[i]);
        assert(squares@.take(i + 1) =~= squares@.take(i as int).push(squares@[i as int]));
        i += 1;
    }
    assert(squares@.take(i as int) =~= squares@);
    copy
}

impl Ply {
    pub fn piece(&self) -> (r: Piece)
        ensures
            r == self@.piece,
    {
        self.piece
    }

    pub fn from(&self) -> (r: Square)
        ensures
            r@ == self@.from,
    {
        self.from
    }

    pub fn to(&self) -> (r: Square)
        ensures
            r@ == self@.to,
    {
        self.to
    }

    pub fn promoted(&self) -> (r: bool)
        ensures
            r == self@.promoted,
    {
        self.promoted
    }

    pub fn captures(&self) -> (r: &[Square])
        ensures
            indices(r@) == self@.captures,
    {
        self.captures.as_slice()
    }
}

impl Ply {
    /// The ply as it is written, as in `c3-g7xd4xf6`.
    pub fn to_string(&self) -> (r: String)
        ensures
            r@ == notation(self@),
    {
        let mut text = self.from.to_string();
        text.push('-');
        let to = self.to.to_string();
        text.append(to.as_str());
        if self.promoted {
            text.push('p');
        }
        let ghost head = text@;
        assert(head =~= square_name(self@.from) + seq!['-'] + square_name(self@.to) + (
        if self@.promoted {
            seq!['p']
        } else {
            Seq::empty()
        }));
        let mut i: usize = 0;
        while i < self.captures.len()
            invariant
                i <= self.captures.len(),
                text@ == head + captures_text(indices(self.captures@.take(i as int))),
            decreases self.captures.len() - i,
        {
            proof {
                let next = indices(self.captures@.take(i + 1));
                assert(next.drop_last() =~= indices(self.captures@.take(i as int)));
                assert(next.last() == self.captures@[i as int]@);
            }
            text.push('x');
            let name = self.captures[i].to_string();
            text.append(name.as_str());
            assert(text@ =~= head + captures_text(indices(self.captures@.take(i + 1))));
            i += 1;
        }
        assert(self.captures@.take(i as int) =~= self.captures@);
        text
    }
}

impl Clone for Ply {
    fn clone(&self) -> (r: Ply)
        ensures
            r@ == self@,
    {
        let mut captures: Vec<Square> = Vec::new();
        let mut i: usize = 0;
        while i < self.captures.len()
            invariant
                i <= self.captures.len(),
                captures@ == self.captures@.take(i as int),
            decreases self.captures.len() - i,
        {
            captures.push(self.captures[i]);
            assert(self.captures@.take(i + 1) =~= self.captures@.take(i as int).push(
                self.captures@[i as int],
            ));
            i += 1;
        }
        assert(self.captures@.take(i as int) =~= self.captures@);
        Ply {
            piece: self.piece,
            from: self.from,
            to: self.to,
            promoted: self.promoted,
            captures,
        }
    }
}

/// Collects a ply piece by piece while a move is being generated.
#[derive(Debug, PartialEq, Eq, PartialOrd, Ord, Hash)]
pub struct PlyBuilder {
    piece: Piece,
    from: Square,
    to: Square,
    promoted: bool,
    captures: Vec<Square>,
}

impl View for PlyBuilder {
    type V = PlyView;

    closed spec fn view(&self) -> PlyView {
        PlyView {
            piece: self.piece,
            from: self.from@,
            to: self.to@,
            promoted: self.promoted,
            captures: indices(self.captures@),
        }
    }
}

impl PlyBuilder {
    pub fn new(piece: Piece, from: Square) -> (r: PlyBuilder)
        ensures
            r@ == PlyView::start(piece, from@),
    {
        let r = PlyBuilder { piece, from, to: from, promoted: false, captures: Vec::new() };
        assert(indices(r.captures@) =~= Seq::<nat>::empty());
        r
    }

    pub fn step(self, to: Square) -> (r: PlyBuilder)
        ensures
            r@ == self@.step(to@),
    {
        let mut b = self;
        b.to = to;
        b
    }

    pub fn capture(self, to: Square, capture: Square) -> (r: PlyBuilder)
        ensures
            r@ == self@.capture(to@, capture@),
    {
        let mut b = self;
        b.to = to;
        b.captures.push(capture);
        assert(indices(b.captures@) =~= indices(self.captures@).push(capture@));
        b
    }

    pub fn capture_multiple(self, to: Square, captures: Vec<Square>) -> (r: PlyBuilder)
        ensures
            r@ == self@.capture_multiple(to@, indices(captures@)),
    {
        let mut b = self;
        let mut more = captures;
        b.to = to;
        b.captures.append(&mut more);
        assert(indices(b.captures@) =~= indices(self.captures@) + indices(captures@));
        b
    }

    pub fn promote(self) -> (r: PlyBuilder)
        ensures
            r@ == self@.promote(),
    {
        let mut b = self;
        b.promoted = true;
        b.piece.promote();
        b
    }

    pub fn build(self) -> (r: Ply)
        ensures
            r@ == self@,
    {
        Ply {
            piece: self.piece,
            from: self.from,
            to: self.to,
            promoted: self.promoted,
            captures: self.captures,
        }
    }
}

impl Clone for PlyBuilder {
    fn clone(&self) -> (r: PlyBuilder)
        ensures
            r@ == self@,
    {
        let mut captures: Vec<Square> = Vec::new();
        let mut i: usize = 0;
        while i < self.captures.len()
            invariant
                i <= self.captures.len(),
                captures@ == self.captures@.take(i as int),
            decreases self.captures.len() - i,
        {
            captures.push(self.captures[i]);
            assert(self.captures@.take(i + 1) =~= self.captures@.take(i as int).push(
                self.captures@[i as int],
            ));
            i += 1;
        }
        assert(self.captures@.take(i as int) =~= self.captures@);
        PlyBuilder {
            piece: self.piece,
            from: self.from,
            to: self.to,
            promoted: self.promoted,
            captures,
        }
    }
}

} // verus!
