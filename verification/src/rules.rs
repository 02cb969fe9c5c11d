//! The rules of the game, stated over a mathematical board: which plies are
//! legal, in which order they are listed, and what a ply does to the board.

use vstd::prelude::*;
use crate::gamestate::GameState;
use crate::piece::{Color, Piece, PieceKind};
use crate::ply::PlyView;
use crate::square::{rank_of, shifted};

verus! {

/// A board: the occupied squares, by index, and the piece on each.
pub type Position = Map<nat, Piece>;

/// Every occupied square lies on the board.
pub open spec fn on_board(pos: Position) -> bool {
    forall|k: nat| pos.contains_key(k) ==> k < 64
}

/// The dark squares, on which the game is played: file and rank add up to an
/// even number, as on the corner square with index 0.
pub open spec fn is_dark(sq: nat) -> bool {
    (sq % 8 + sq / 8) % 2 == 0
}

/// The board at the start of a game: white men on the dark squares of the
/// ranks 0 to 2, black men on those of the ranks 5 to 7.
pub open spec fn starting_position() -> Position {
    Map::new(
        |k: nat| is_dark(k) && (k < 24 || 40 <= k < 64),
        |k: nat|
            Piece {
                color: if k < 24 {
                    Color::White
                } else {
                    Color::Black
                },
                kind: PieceKind::Man,
            },
    )
}

/// The piece on square `sq`, if any.
pub open spec fn piece_at(pos: Position, sq: nat) -> Option<Piece> {
    if pos.contains_key(sq) {
        Some(pos[sq])
    } else {
        None
    }
}

/// The pieces found on the listed squares, in the order of the list.
pub open spec fn pieces_on(pos: Position, squares: Seq<nat>) -> Seq<Piece>
    decreases squares.len(),
{
    if squares.len() == 0 {
        Seq::empty()
    } else {
        let before = pieces_on(pos, squares.drop_last());
        if pos.contains_key(squares.last()) {
            before.push(pos[squares.last()])
        } else {
            before
        }
    }
}

/// The squares that hold a piece of `color`.
pub open spec fn side(pos: Position, color: Color) -> Set<nat> {
    pos.dom().filter(|k: nat| pos[k].color == color)
}

/// The squares that hold a king of either color.
pub open spec fn crowned_squares(pos: Position) -> Set<nat> {
    pos.dom().filter(|k: nat| pos[k].kind == PieceKind::King)
}

/// The squares that hold exactly `piece`.
pub open spec fn squares_of(pos: Position, piece: Piece) -> Set<nat> {
    pos.dom().filter(|k: nat| pos[k] == piece)
}

/// The board with the listed squares cleared.
pub open spec fn without(pos: Position, squares: Seq<nat>) -> Position
    decreases squares.len(),
{
    if squares.len() == 0 {
        pos
    } else {
        without(pos, squares.drop_last()).remove(squares.last())
    }
}

/// Clearing a list of squares removes exactly the keys that occur in the list.
pub proof fn lemma_without(pos: Position, squares: Seq<nat>)
    ensures
        without(pos, squares) == pos.remove_keys(squares.to_set()),
    decreases squares.len(),
{
    if squares.len() == 0 {
        assert(squares.to_set() =~= Set::<nat>::empty());
        assert(pos.remove_keys(squares.to_set()) =~= pos);
    } else {
        let front = squares.drop_last();
        lemma_without(pos, front);
        assert forall|k: nat| squares.to_set().contains(k) == (front.to_set().contains(k) || k
            == squares.last()) by {
            if squares.to_set().contains(k) {
                let i = choose|i: int| 0 <= i < squares.len() && squares[i] == k;
                if i < squares.len() - 1 {
                    assert(front[i] == k);
                }
            }
            if front.to_set().contains(k) {
                let i = choose|i: int| 0 <= i < front.len() && front[i] == k;
                assert(squares[i] == k);
            }
            if k == squares.last() {
                assert(squares[squares.len() - 1] == k);
            }
        }
        assert(without(pos, squares) =~= pos.remove_keys(squares.to_set()));
    }
}

/// The board after a ply: the piece leaves `from`, stands on `to` as the ply
/// records it, and every captured square is cleared.
pub open spec fn apply_ply(pos: Position, ply: PlyView) -> Position {
    without(pos.remove(ply.from).insert(ply.to, ply.piece), ply.captures)
}

/// The state of the game, given the board and the most recently generated
/// list of legal plies together with the color it was generated for.
pub open spec fn outcome(pos: Position, listed_for: Color, listed: Seq<PlyView>) -> GameState {
    if side(pos, Color::White).len() == 0 {
        GameState::Win(Color::Black)
    } else if side(pos, Color::Black).len() == 0 {
        GameState::Win(Color::White)
    } else if listed.len() == 0 {
        GameState::Win(listed_for.opposite())
    } else {
        GameState::OnGoing
    }
}

/// No game is ever reported as drawn, and a side that has no piece left
/// has lost whatever was listed last.
pub proof fn lemma_outcome(pos: Position, listed_for: Color, listed: Seq<PlyView>)
    ensures
        !(outcome(pos, listed_for, listed) is Draw),
        side(pos, Color::White).len() > 0 && side(pos, Color::Black).len() == 0 ==> outcome(
            pos,
            listed_for,
            listed,
        ) == GameState::Win(Color::White),
        side(pos, Color::White).len() == 0 ==> outcome(pos, listed_for, listed) == GameState::Win(
            Color::Black,
        ),
{
}

/// The square next to `sq` in direction `d`, if it is on the board.
pub open spec fn neighbour(sq: nat, d: (i8, i8)) -> Option<nat> {
    shifted(sq, d.0 as int, d.1 as int)
}

/// Whether a piece of `color` is crowned on reaching `sq`.
pub open spec fn reaches_back_rank(color: Color, sq: nat) -> bool {
    rank_of(sq) == Piece::back_rank(color)
}

/// The piece on `sq` may step in direction `d`: the neighbouring square is free.
pub open spec fn can_step(pos: Position, sq: nat, d: (i8, i8)) -> bool {
    &&& pos.contains_key(sq)
    &&& neighbour(sq, d) is Some
    &&& !pos.contains_key(neighbour(sq, d).unwrap())
}

/// The square a step ends on.
pub open spec fn step_target(sq: nat, d: (i8, i8)) -> nat {
    neighbour(sq, d).unwrap()
}

/// The ply that moves the piece on `sq` one square in direction `d`.
pub open spec fn step_ply(pos: Position, sq: nat, d: (i8, i8)) -> PlyView {
    let ply = PlyView::start(pos[sq], sq).step(step_target(sq, d));
    if reaches_back_rank(pos[sq].color, step_target(sq, d)) {
        ply.promote()
    } else {
        ply
    }
}

/// The square that a jump in direction `d` passes over.
pub open spec fn jumped_square(sq: nat, d: (i8, i8)) -> nat {
    neighbour(sq, d).unwrap()
}

/// The square that a jump in direction `d` ends on.
pub open spec fn landing_square(sq: nat, d: (i8, i8)) -> nat {
    neighbour(jumped_square(sq, d), d).unwrap()
}

/// The piece on `sq` may jump in direction `d`: an enemy piece is next to it
/// and the square behind that piece is on the board and free.
pub open spec fn can_jump(pos: Position, sq: nat, d: (i8, i8)) -> bool {
    &&& pos.contains_key(sq)
    &&& neighbour(sq, d) is Some
    &&& pos.contains_key(jumped_square(sq, d))
    &&& pos[jumped_square(sq, d)].color != pos[sq].color
    &&& neighbour(jumped_square(sq, d), d) is Some
    &&& !pos.contains_key(landing_square(sq, d))
}

/// The ply that makes the single jump in direction `d` and stops.
pub open spec fn jump_ply(pos: Position, sq: nat, d: (i8, i8)) -> PlyView {
    let ply = PlyView::start(pos[sq], sq).capture(landing_square(sq, d), jumped_square(sq, d));
    if reaches_back_rank(pos[sq].color, landing_square(sq, d)) {
        ply.promote()
    } else {
        ply
    }
}

/// The board after the single jump in direction `d`.
pub open spec fn after_jump(pos: Position, sq: nat, d: (i8, i8)) -> Position {
    pos.remove(sq).insert(landing_square(sq, d), jump_ply(pos, sq, d).piece).remove(
        jumped_square(sq, d),
    )
}

/// Playing the single jump gives the board after the jump.
pub proof fn lemma_apply_jump(pos: Position, sq: nat, d: (i8, i8))
    ensures
        apply_ply(pos, jump_ply(pos, sq, d)) == after_jump(pos, sq, d),
{
    let ply = jump_ply(pos, sq, d);
    let moved = pos.remove(ply.from).insert(ply.to, ply.piece);
    assert(ply.captures =~= seq![jumped_square(sq, d)]);
    assert(ply.captures.drop_last() =~= Seq::<nat>::empty());
    assert(without(moved, ply.captures.drop_last()) == moved);
    assert(ply.captures.last() == jumped_square(sq, d));
}

/// A first jump followed by the chain `rest` that starts where it landed.
pub open spec fn extend(first: PlyView, rest: PlyView) -> PlyView {
    let ply = first.capture_multiple(rest.to, rest.captures);
    if rest.promoted {
        ply.promote()
    } else {
        ply
    }
}

/// What a first jump contributes to the list: itself if no further capture
/// follows, else one ply for each continuation, the bare jump left out.
pub open spec fn chains(first: PlyView, rest: Seq<PlyView>) -> Seq<PlyView> {
    if rest.len() == 0 {
        seq![first]
    } else {
        rest.map_values(|r: PlyView| extend(first, r))
    }
}

/// The number of directions in which the piece on `sq` moves.
pub open spec fn reach(pos: Position, sq: nat) -> nat {
    pos[sq].spec_moves().len()
}

/// The capture chains of the piece on `sq` that begin in one of the first `k`
/// of its directions. A chain goes on for as long as a capture is possible;
/// a piece crowned on the way continues as a king.
pub open spec fn jumps(pos: Position, sq: nat, k: nat) -> Seq<PlyView>
    decreases pos.dom().len(), k,
    when pos.dom().finite()
    via jumps_decreases
{
    if k == 0 || !pos.contains_key(sq) || k > reach(pos, sq) {
        Seq::empty()
    } else {
        let d = pos[sq].spec_moves()[k - 1];
        let before = jumps(pos, sq, (k - 1) as nat);
        if can_jump(pos, sq, d) {
            let next = after_jump(pos, sq, d);
            let landing = landing_square(sq, d);
            before + chains(jump_ply(pos, sq, d), jumps(next, landing, reach(next, landing)))
        } else {
            before
        }
    }
}

#[via_fn]
proof fn jumps_decreases(pos: Position, sq: nat, k: nat) {
    if !(k == 0 || !pos.contains_key(sq) || k > reach(pos, sq)) {
        let d = pos[sq].spec_moves()[k - 1];
        if can_jump(pos, sq, d) {
            lemma_jump_takes_a_piece(pos, sq, d);
        }
    }
}

/// A jump leaves one piece fewer on the board.
pub proof fn lemma_jump_takes_a_piece(pos: Position, sq: nat, d: (i8, i8))
    requires
        pos.dom().finite(),
        can_jump(pos, sq, d),
    ensures
        after_jump(pos, sq, d).dom().finite(),
        after_jump(pos, sq, d).dom().len() + 1 == pos.dom().len(),
        after_jump(pos, sq, d).contains_key(landing_square(sq, d)),
        after_jump(pos, sq, d)[landing_square(sq, d)] == jump_ply(pos, sq, d).piece,
{
    let mid = jumped_square(sq, d);
    let landing = landing_square(sq, d);
    assert(mid != sq);
    assert(landing != mid);
    let a = pos.dom().remove(sq);
    let b = a.insert(landing);
    let c = b.remove(mid);
    assert(after_jump(pos, sq, d).dom() =~= c);
}

/// The simple steps of the piece on `sq` in the first `k` of its directions.
pub open spec fn steps(pos: Position, sq: nat, k: nat) -> Seq<PlyView>
    decreases k,
{
    if k == 0 || !pos.contains_key(sq) || k > reach(pos, sq) {
        Seq::empty()
    } else {
        let d = pos[sq].spec_moves()[k - 1];
        let before = steps(pos, sq, (k - 1) as nat);
        if can_step(pos, sq, d) {
            before.push(step_ply(pos, sq, d))
        } else {
            before
        }
    }
}

/// All capture chains of the piece on `sq`, if it belongs to `color`.
pub open spec fn square_jumps(pos: Position, sq: nat, color: Color) -> Seq<PlyView> {
    if pos.contains_key(sq) && pos[sq].color == color {
        jumps(pos, sq, reach(pos, sq))
    } else {
        Seq::empty()
    }
}

/// All simple steps of the piece on `sq`, if it belongs to `color`.
pub open spec fn square_steps(pos: Position, sq: nat, color: Color) -> Seq<PlyView> {
    if pos.contains_key(sq) && pos[sq].color == color {
        steps(pos, sq, reach(pos, sq))
    } else {
        Seq::empty()
    }
}

/// A piece of `color` stands on `sq`.
pub open spec fn holds(pos: Position, sq: nat, color: Color) -> bool {
    pos.contains_key(sq) && pos[sq].color == color
}

/// The plies of the piece on `sq`, if it belongs to `color`: its capture
/// chains if it has any or if only captures are asked for, else its steps.
pub open spec fn square_plies(pos: Position, sq: nat, color: Color, only_captures: bool) -> Seq<
    PlyView,
> {
    if only_captures || square_jumps(pos, sq, color).len() > 0 {
        square_jumps(pos, sq, color)
    } else {
        square_steps(pos, sq, color)
    }
}

/// The capture chains of `color` from the squares with index below `n`,
/// in ascending order of the starting square.
pub open spec fn board_jumps(pos: Position, color: Color, n: nat) -> Seq<PlyView>
    decreases n,
{
    if n == 0 {
        Seq::empty()
    } else {
        board_jumps(pos, color, (n - 1) as nat) + square_jumps(pos, (n - 1) as nat, color)
    }
}

/// The simple steps of `color` from the squares with index below `n`,
/// in ascending order of the starting square.
pub open spec fn board_steps(pos: Position, color: Color, n: nat) -> Seq<PlyView>
    decreases n,
{
    if n == 0 {
        Seq::empty()
    } else {
        board_steps(pos, color, (n - 1) as nat) + square_steps(pos, (n - 1) as nat, color)
    }
}

/// The legal plies of `color`: every capture chain if there is any capture on
/// the board, and every simple step otherwise.
pub open spec fn legal_plies(pos: Position, color: Color) -> Seq<PlyView> {
    if board_jumps(pos, color, 64).len() > 0 {
        board_jumps(pos, color, 64)
    } else {
        board_steps(pos, color, 64)
    }
}

} // verus!
