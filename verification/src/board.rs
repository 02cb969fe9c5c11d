//! The board of a game in progress: a backend and the side to move.

use vstd::prelude::*;
use vstd::string::*;
use crate::backend::Backend;
use crate::bitboard::BitBoard;
use crate::gamestate::GameState;
use crate::piece::Color;
use crate::ply::{ply_views, Ply, PlyView};
use crate::rules::{apply_ply, legal_plies, outcome, starting_position, Position};
use crate::square::rank_digit;
use crate::text::{highlight, in_bold_green};
use crate::square::Square;

verus! {

/// A square as it is printed: the symbol of its piece, or a middle dot if
/// it is free, and a blank.
pub open spec fn cell_text(pos: Position, sq: nat) -> Seq<char> {
    if pos.contains_key(sq) {
        seq![pos[sq].symbol(), ' ']
    } else {
        seq!['\u{B7}', ' ']
    }
}

/// A square as it is shown: the selected square by the text `marked`.
pub open spec fn shown_cell(
    pos: Position,
    selection: Option<nat>,
    marked: Seq<char>,
    sq: nat,
) -> Seq<char> {
    if selection == Some(sq) {
        marked
    } else {
        cell_text(pos, sq)
    }
}

/// The first `n` squares of a rank as they are shown.
pub open spec fn row_cells(
    pos: Position,
    selection: Option<nat>,
    marked: Seq<char>,
    rank: nat,
    n: nat,
) -> Seq<char>
    decreases n,
{
    if n == 0 {
        Seq::empty()
    } else {
        row_cells(pos, selection, marked, rank, (n - 1) as nat) + shown_cell(
            pos,
            selection,
            marked,
            (rank * 8 + (n - 1)) as nat,
        )
    }
}

/// The line of a rank: its digit, a blank, its eight squares, a line feed.
pub open spec fn row_text(
    pos: Position,
    selection: Option<nat>,
    marked: Seq<char>,
    rank: nat,
) -> Seq<char> {
    seq![rank_digit(rank as int), ' '] + row_cells(pos, selection, marked, rank, 8) + seq!['\n']
}

/// The lines of the ranks from the highest down to the rank `low`.
pub open spec fn rows_text(
    pos: Position,
    selection: Option<nat>,
    marked: Seq<char>,
    low: nat,
) -> Seq<char>
    decreases 8 - low,
{
    if low >= 8 {
        Seq::empty()
    } else {
        rows_text(pos, selection, marked, low + 1) + row_text(pos, selection, marked, low)
    }
}

/// The board as it is printed: the ranks from the highest down, and below
/// them the letters of the files.
pub open spec fn board_text(pos: Position, selection: Option<nat>, marked: Seq<char>) -> Seq<char> {
    rows_text(pos, selection, marked, 0) + "  a b c d e f g h\n"@
}

/// The index of a square that may be absent.
pub open spec fn index_of(square: Option<Square>) -> Option<nat> {
    match square {
        Some(s) => Some(s@),
        None => None,
    }
}

pub struct Board<B: Backend> {
    backend: B,
    current_color: Color,
    selected: Option<Square>,
}

impl<B: Backend> Board<B> {
    /// The backend that holds the pieces.
    pub closed spec fn backend(&self) -> B {
        self.backend
    }

    /// The side to move.
    pub closed spec fn turn(&self) -> Color {
        self.current_color
    }

    /// The square that is selected, if any.
    pub closed spec fn selection(&self) -> Option<Square> {
        self.selected
    }

    /// The backend is consistent.
    pub open spec fn wf(&self) -> bool {
        self.backend().wf()
    }

    /// A game on the given backend, with White to move.
    pub fn new(backend: B) -> (r: Board<B>)
        ensures
            r.backend() == backend,
            r.turn() == Color::White,
            r.selection() is None,
    {
        Board { backend, current_color: Color::White, selected: None }
    }

    /// Carries out the ply and passes the turn to the other side. The ply is
    /// taken to be legal.
    pub fn ply(&mut self, ply: Ply)
        requires
            old(self).wf(),
        ensures
            final(self).wf(),
            final(self).backend().position() == apply_ply(old(self).backend().position(), ply@),
            final(self).backend().cached_color() == old(self).backend().cached_color(),
            final(self).backend().cached_plies() == old(self).backend().cached_plies(),
            final(self).turn() == old(self).turn().opposite(),
            final(self).selection() is None,
    {
        self.backend.ply(ply);
        self.current_color.swap();
        self.selected = None;
    }

    /// The legal plies of the side to move, in the order in which `get_ply`
    /// counts them.
    pub fn legal_plies(&mut self) -> (r: Vec<Ply>)
        requires
            old(self).wf(),
        ensures
            final(self).wf(),
            ply_views(r@) == legal_plies(old(self).backend().position(), old(self).turn()),
            final(self).backend().position() == old(self).backend().position(),
            final(self).backend().cached_color() == old(self).turn(),
            final(self).backend().cached_plies() == ply_views(r@),
            final(self).turn() == old(self).turn(),
            final(self).selection() == old(self).selection(),
    {
        self.backend.get_legal_plies(self.current_color)
    }

    /// The legal ply of the side to move with the given number, counted from
    /// 0, or `None` if there are not so many.
    pub fn get_ply(&mut self, index: usize) -> (r: Option<Ply>)
        requires
            old(self).wf(),
        ensures
            final(self).wf(),
            ({
                let listed = legal_plies(old(self).backend().position(), old(self).turn());
                match r {
                    Some(ply) => index < listed.len() && ply@ == listed[index as int],
                    None => index >= listed.len(),
                }
            }),
            final(self).backend().position() == old(self).backend().position(),
            final(self).backend().cached_color() == old(self).turn(),
            final(self).backend().cached_plies() == legal_plies(
                old(self).backend().position(),
                old(self).turn(),
            ),
            final(self).turn() == old(self).turn(),
            final(self).selection() == old(self).selection(),
    {
        let plies = self.backend.get_legal_plies(self.current_color);
        if index < plies.len() {
            Some(plies[index].clone())
        } else {
            None
        }
    }

    pub fn to_move(&self) -> (r: Color)
        ensures
            r == self.turn(),
    {
        self.current_color
    }

    pub fn get_backend(&self) -> (r: &B)
        ensures
            *r == self.backend(),
    {
        &self.backend
    }

    pub fn get_backend_mut(&mut self) -> (r: &mut B)
        ensures
            *r == old(self).backend(),
            final(self).backend() == *final(r),
            final(self).turn() == old(self).turn(),
            final(self).selection() == old(self).selection(),
    {
        &mut self.backend
    }

    /// Selects a square, or none.
    pub fn select(&mut self, square: Option<Square>)
        ensures
            final(self).selection() == square,
            final(self).backend() == old(self).backend(),
            final(self).turn() == old(self).turn(),
    {
        self.selected = square;
    }

    /// The square that is selected, if any.
    pub fn selected(&self) -> (r: Option<Square>)
        ensures
            r == self.selection(),
    {
        self.selected
    }

    /// A square as it is printed.
    fn cell(&self, square: Square) -> (r: String)
        requires
            self.wf(),
        ensures
            r@ == cell_text(self.backend().position(), square@),
            !r@.contains('\u{1b}'),
    {
        let mut text = String::new();
        match self.backend.get_piece(square) {
            Some(piece) => text.push(piece.symbol()),
            None => text.push('\u{B7}'),
        }
        text.push(' ');
        assert(text@ =~= cell_text(self.backend().position(), square@));
        text
    }

    /// The board as it is printed, with the text `marked` in the place of
    /// the selected square.
    pub fn render_with(&self, marked: &str) -> (r: String)
        requires
            self.wf(),
        ensures
            r@ == board_text(
                self.backend().position(),
                index_of(self.selection()),
                marked@,
            ),
    {
        let ghost pos = self.backend().position();
        let ghost selection = index_of(self.selection());
        let mut text = String::new();
        let mut rank: u8 = 8;
        while rank > 0
            invariant
                rank <= 8,
                self.wf(),
                pos == self.backend().position(),
                selection == index_of(self.selection()),
                text@ == rows_text(pos, selection, marked@, rank as nat),
            decreases rank,
        {
            rank -= 1;
            let ghost above = text@;
            let mut file: u8 = 0;
            match Square::new(0, rank) {
                Some(first) => text.push(first.rank_char()),
                None => {},
            }
            text.push(' ');
            let ghost head = text@;
            while file < 8
                invariant
                    file <= 8,
                    rank < 8,
                    self.wf(),
                    pos == self.backend().position(),
                    selection == index_of(self.selection()),
                    text@ == head + row_cells(pos, selection, marked@, rank as nat, file as nat),
                decreases 8 - file,
            {
                if let Some(square) = Square::new(file, rank) {
                    let ghost before = text@;
                    let is_selected = match self.selected {
                        Some(selected) => selected.index() == square.index(),
                        None => false,
                    };
                    if is_selected {
                        text.append(marked);
                    } else {
                        let cell = self.cell(square);
                        text.append(cell.as_str());
                    }
                    assert(text@ =~= before + shown_cell(pos, selection, marked@, square@));
                }
                file += 1;
            }
            text.push('\n');
            assert(text@ =~= above + row_text(pos, selection, marked@, rank as nat));
        }
        text.append("  a b c d e f g h\n");
        text
    }

    /// The board as it is printed. The selected square, if there is one, is
    /// shown in bold green where colors are in use.
    pub fn to_string(&self) -> (r: String)
        requires
            self.wf(),
        ensures
            match self.selection() {
                None => r@ == board_text(self.backend().position(), None, Seq::empty()),
                Some(s) => r@ == board_text(
                    self.backend().position(),
                    Some(s@),
                    cell_text(self.backend().position(), s@),
                ) || r@ == board_text(
                    self.backend().position(),
                    Some(s@),
                    in_bold_green(cell_text(self.backend().position(), s@)),
                ),
            },
    {
        match self.selected {
            Some(square) => {
                let cell = self.cell(square);
                let marked = highlight(cell.as_str());
                self.render_with(marked.as_str())
            },
            None => {
                proof {
                    reveal_strlit("");
                    assert(""@ =~= Seq::<char>::empty());
                }
                self.render_with("")
            },
        }
    }

    /// The state of the game as the backend reports it.
    pub fn get_gamestate(&self) -> (r: GameState)
        requires
            self.wf(),
        ensures
            r == outcome(
                self.backend().position(),
                self.backend().cached_color(),
                self.backend().cached_plies(),
            ),
    {
        self.backend.get_gamestate()
    }
}

impl Default for Board<BitBoard> {
    /// A game from the starting position, on a bitboard.
    fn default() -> (r: Board<BitBoard>)
        ensures
            r.wf(),
            r.backend().position() == starting_position(),
            r.backend().cached_color() == Color::White,
            r.backend().cached_plies() == Seq::<PlyView>::empty(),
            r.turn() == Color::White,
            r.selection() is None,
    {
        Board::new(BitBoard::default())
    }
}

} // verus!
