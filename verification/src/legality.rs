//! What holds of every list of legal plies: captures are mandatory, every
//! capture chain is played out to its end, and a piece that ends its turn on
//! the far rank is crowned.

use vstd::prelude::*;
use crate::piece::{Color, Piece, PieceKind};
use crate::ply::PlyView;
use crate::rules::{
    after_jump,
    apply_ply,
    board_jumps,
    board_steps,
    can_jump,
    can_step,
    chains,
    extend,
    holds,
    jump_ply,
    jumped_square,
    jumps,
    landing_square,
    legal_plies,
    lemma_jump_takes_a_piece,
    on_board,
    reach,
    reaches_back_rank,
    square_jumps,
    square_steps,
    step_ply,
    steps,
    without,
    Position,
};

verus! {

/// The `k`-th direction of the piece on `sq`.
pub open spec fn direction(pos: Position, sq: nat, k: int) -> (i8, i8) {
    pos[sq].spec_moves()[k]
}

/// The piece on `sq` has a jump in one of its directions.
pub open spec fn has_jump(pos: Position, sq: nat) -> bool {
    exists|k: int| 0 <= k < reach(pos, sq) && can_jump(pos, sq, #[trigger] direction(pos, sq, k))
}

/// Some piece of `color` has a jump.
pub open spec fn capture_exists(pos: Position, color: Color) -> bool {
    exists|sq: nat| sq < 64 && #[trigger] holds(pos, sq, color) && has_jump(pos, sq)
}

/// The piece on `sq` can take the pieces on the squares `captures` one after
/// another, each by a single jump on the board as the jumps before have left
/// it; it then stands on `to`, from where it has no further jump.
pub open spec fn is_full_chain(pos: Position, sq: nat, captures: Seq<nat>, to: nat) -> bool
    decreases captures.len(),
{
    if captures.len() == 0 {
        to == sq && !has_jump(pos, sq)
    } else {
        exists|k: int|
            0 <= k < reach(pos, sq) && can_jump(pos, sq, #[trigger] direction(pos, sq, k))
                && jumped_square(sq, direction(pos, sq, k)) == captures[0] && is_full_chain(
                after_jump(pos, sq, direction(pos, sq, k)),
                landing_square(sq, direction(pos, sq, k)),
                captures.drop_first(),
                to,
            )
    }
}

/// The piece that a ply records is the piece that stood on its first square,
/// crowned if the ply is marked as a promotion; and a ply that ends on the
/// far rank of its color is so marked.
pub open spec fn crowns_rightly(pos: Position, ply: PlyView) -> bool {
    &&& pos.contains_key(ply.from)
    &&& ply.piece == if ply.promoted {
        pos[ply.from].promoted()
    } else {
        pos[ply.from]
    }
    &&& reaches_back_rank(pos[ply.from].color, ply.to) ==> ply.promoted
    &&& ply.promoted ==> ply.piece.kind == PieceKind::King
}

/// What holds of a capture chain of the piece on `sq`.
pub open spec fn chain_facts(pos: Position, sq: nat, ply: PlyView) -> bool {
    &&& ply.from == sq
    &&& ply.captures.len() >= 1
    &&& is_full_chain(pos, sq, ply.captures, ply.to)
    &&& crowns_rightly(pos, ply)
}

/// What holds of a simple step of the piece on `sq`.
pub open spec fn step_facts(pos: Position, sq: nat, ply: PlyView) -> bool {
    &&& ply.from == sq
    &&& ply.captures.len() == 0
    &&& exists|k: int|
        0 <= k < reach(pos, sq) && can_step(pos, sq, #[trigger] direction(pos, sq, k)) && ply
            == step_ply(pos, sq, direction(pos, sq, k))
    &&& crowns_rightly(pos, ply)
}

/// The piece on `sq` has no capture chain in its first `k` directions if and
/// only if it has no jump in any of them.
pub proof fn lemma_no_jumps(pos: Position, sq: nat, k: nat)
    requires
        pos.dom().finite(),
        pos.contains_key(sq),
        k <= reach(pos, sq),
    ensures
        jumps(pos, sq, k).len() == 0 <==> forall|j: int|
            0 <= j < k ==> !can_jump(pos, sq, #[trigger] direction(pos, sq, j)),
    decreases k,
{
    if k > 0 {
        lemma_no_jumps(pos, sq, (k - 1) as nat);
        let d = direction(pos, sq, k - 1);
        if can_jump(pos, sq, d) {
            let next = after_jump(pos, sq, d);
            let landing = landing_square(sq, d);
            let rest = jumps(next, landing, reach(next, landing));
            assert(chains(jump_ply(pos, sq, d), rest).len() > 0);
        }
    }
}

/// Every capture chain that is listed for the piece on `sq` is one.
pub proof fn lemma_jumps_are_chains(pos: Position, sq: nat, k: nat, i: int)
    requires
        pos.dom().finite(),
        0 <= i < jumps(pos, sq, k).len(),
    ensures
        chain_facts(pos, sq, jumps(pos, sq, k)[i]),
    decreases pos.dom().len(), k,
{
    let d = direction(pos, sq, k - 1);
    let before = jumps(pos, sq, (k - 1) as nat);
    if i < before.len() {
        lemma_jumps_are_chains(pos, sq, (k - 1) as nat, i);
    } else {
        let first = jump_ply(pos, sq, d);
        let next = after_jump(pos, sq, d);
        let landing = landing_square(sq, d);
        let rest = jumps(next, landing, reach(next, landing));
        let ply = jumps(pos, sq, k)[i];
        let j = i - before.len();
        lemma_jump_takes_a_piece(pos, sq, d);
        assert(ply == chains(first, rest)[j]);
        assert(first.captures =~= seq![jumped_square(sq, d)]);
        if rest.len() == 0 {
            lemma_no_jumps(next, landing, reach(next, landing));
            assert(ply == first);
            assert(ply.captures.drop_first() =~= Seq::<nat>::empty());
            assert(!has_jump(next, landing));
            assert(is_full_chain(next, landing, ply.captures.drop_first(), ply.to));
        } else {
            lemma_jumps_are_chains(next, landing, reach(next, landing), j);
            assert(ply == extend(first, rest[j]));
            assert(ply.captures.drop_first() =~= rest[j].captures);
            assert(is_full_chain(next, landing, ply.captures.drop_first(), ply.to));
        }
        assert(can_jump(pos, sq, direction(pos, sq, k - 1)));
        assert(is_full_chain(pos, sq, ply.captures, ply.to));
    }
}

/// Every simple step that is listed for the piece on `sq` is one.
pub proof fn lemma_steps_are_steps(pos: Position, sq: nat, k: nat, i: int)
    requires
        0 <= i < steps(pos, sq, k).len(),
    ensures
        step_facts(pos, sq, steps(pos, sq, k)[i]),
    decreases k,
{
    let d = direction(pos, sq, k - 1);
    let before = steps(pos, sq, (k - 1) as nat);
    if i < before.len() {
        lemma_steps_are_steps(pos, sq, (k - 1) as nat, i);
    } else {
        assert(can_step(pos, sq, direction(pos, sq, k - 1)));
    }
}

/// What the `k`-th direction of the piece on `sq` adds to its capture chains.
pub open spec fn direction_chains(pos: Position, sq: nat, k: int) -> Seq<PlyView> {
    let d = direction(pos, sq, k);
    let next = after_jump(pos, sq, d);
    let landing = landing_square(sq, d);
    chains(jump_ply(pos, sq, d), jumps(next, landing, reach(next, landing)))
}

/// The chains that begin with a jump in the `k`-th direction are among the
/// chains of the first `n` directions, for every `n` above `k`.
pub proof fn lemma_direction_is_listed(pos: Position, sq: nat, n: nat, k: int, j: int) -> (i: int)
    requires
        pos.dom().finite(),
        pos.contains_key(sq),
        0 <= k < n <= reach(pos, sq),
        can_jump(pos, sq, direction(pos, sq, k)),
        0 <= j < direction_chains(pos, sq, k).len(),
    ensures
        0 <= i < jumps(pos, sq, n).len(),
        jumps(pos, sq, n)[i] == direction_chains(pos, sq, k)[j],
    decreases n,
{
    let before = jumps(pos, sq, (n - 1) as nat);
    if k == n - 1 {
        before.len() + j
    } else {
        lemma_direction_is_listed(pos, sq, (n - 1) as nat, k, j)
    }
}

/// Every chain that the piece on `sq` can play to its end is listed for it.
pub proof fn lemma_full_chain_is_listed(
    pos: Position,
    sq: nat,
    captures: Seq<nat>,
    to: nat,
) -> (i: int)
    requires
        pos.dom().finite(),
        pos.contains_key(sq),
        captures.len() >= 1,
        is_full_chain(pos, sq, captures, to),
    ensures
        0 <= i < jumps(pos, sq, reach(pos, sq)).len(),
        jumps(pos, sq, reach(pos, sq))[i].from == sq,
        jumps(pos, sq, reach(pos, sq))[i].captures == captures,
        jumps(pos, sq, reach(pos, sq))[i].to == to,
    decreases captures.len(),
{
    let k = choose|k: int|
        0 <= k < reach(pos, sq) && can_jump(pos, sq, #[trigger] direction(pos, sq, k))
            && jumped_square(sq, direction(pos, sq, k)) == captures[0] && is_full_chain(
            after_jump(pos, sq, direction(pos, sq, k)),
            landing_square(sq, direction(pos, sq, k)),
            captures.drop_first(),
            to,
        );
    let d = direction(pos, sq, k);
    let first = jump_ply(pos, sq, d);
    let next = after_jump(pos, sq, d);
    let landing = landing_square(sq, d);
    let rest = jumps(next, landing, reach(next, landing));
    lemma_jump_takes_a_piece(pos, sq, d);
    assert(first.captures =~= seq![captures[0]]);
    let j = if captures.len() == 1 {
        lemma_no_jumps(next, landing, reach(next, landing));
        assert(rest.len() == 0) by {
            assert forall|m: int| 0 <= m < reach(next, landing) implies !can_jump(
                next,
                landing,
                #[trigger] direction(next, landing, m),
            ) by {
                if can_jump(next, landing, direction(next, landing, m)) {
                    assert(has_jump(next, landing));
                }
            }
        }
        assert(first.captures =~= captures);
        0int
    } else {
        let r = lemma_full_chain_is_listed(next, landing, captures.drop_first(), to);
        assert(extend(first, rest[r]).captures =~= captures);
        r
    };
    lemma_direction_is_listed(pos, sq, reach(pos, sq), k, j)
}

/// A step in the `k`-th direction is among the steps of the first `n`
/// directions, for every `n` above `k`.
pub proof fn lemma_step_is_listed(pos: Position, sq: nat, n: nat, k: int) -> (i: int)
    requires
        pos.contains_key(sq),
        0 <= k < n <= reach(pos, sq),
        can_step(pos, sq, direction(pos, sq, k)),
    ensures
        0 <= i < steps(pos, sq, n).len(),
        steps(pos, sq, n)[i] == step_ply(pos, sq, direction(pos, sq, k)),
    decreases n,
{
    let before = steps(pos, sq, (n - 1) as nat);
    if k == n - 1 {
        before.len() as int
    } else {
        lemma_step_is_listed(pos, sq, (n - 1) as nat, k)
    }
}

/// What is listed for the square `sq` is among what is listed for the
/// squares below `n`, for every `n` above `sq`: the capture chains.
pub proof fn lemma_square_jumps_are_listed(
    pos: Position,
    color: Color,
    n: nat,
    sq: nat,
    j: int,
) -> (i: int)
    requires
        sq < n,
        0 <= j < square_jumps(pos, sq, color).len(),
    ensures
        0 <= i < board_jumps(pos, color, n).len(),
        board_jumps(pos, color, n)[i] == square_jumps(pos, sq, color)[j],
    decreases n,
{
    let before = board_jumps(pos, color, (n - 1) as nat);
    if sq == n - 1 {
        before.len() + j
    } else {
        lemma_square_jumps_are_listed(pos, color, (n - 1) as nat, sq, j)
    }
}

/// What is listed for the square `sq` is among what is listed for the
/// squares below `n`, for every `n` above `sq`: the simple steps.
pub proof fn lemma_square_steps_are_listed(
    pos: Position,
    color: Color,
    n: nat,
    sq: nat,
    j: int,
) -> (i: int)
    requires
        sq < n,
        0 <= j < square_steps(pos, sq, color).len(),
    ensures
        0 <= i < board_steps(pos, color, n).len(),
        board_steps(pos, color, n)[i] == square_steps(pos, sq, color)[j],
    decreases n,
{
    let before = board_steps(pos, color, (n - 1) as nat);
    if sq == n - 1 {
        before.len() + j
    } else {
        lemma_square_steps_are_listed(pos, color, (n - 1) as nat, sq, j)
    }
}

/// No capture chain is listed for the squares below `n` if and only if no
/// piece of `color` on one of them has a jump.
pub proof fn lemma_no_board_jumps(pos: Position, color: Color, n: nat)
    requires
        pos.dom().finite(),
    ensures
        board_jumps(pos, color, n).len() == 0 <==> forall|sq: nat|
            sq < n && #[trigger] holds(pos, sq, color) ==> !has_jump(pos, sq),
    decreases n,
{
    if n > 0 {
        let last = (n - 1) as nat;
        lemma_no_board_jumps(pos, color, last);
        if holds(pos, last, color) {
            lemma_no_jumps(pos, last, reach(pos, last));
        }
    }
}

/// Every capture chain that is listed for the squares below `n` starts on
/// one of them, from a piece of `color`, and is a capture chain of that piece.
pub proof fn lemma_board_jumps_are_chains(pos: Position, color: Color, n: nat, i: int)
    requires
        pos.dom().finite(),
        0 <= i < board_jumps(pos, color, n).len(),
    ensures
        board_jumps(pos, color, n)[i].from < n,
        holds(pos, board_jumps(pos, color, n)[i].from, color),
        chain_facts(pos, board_jumps(pos, color, n)[i].from, board_jumps(pos, color, n)[i]),
    decreases n,
{
    let last = (n - 1) as nat;
    let before = board_jumps(pos, color, last);
    if i < before.len() {
        lemma_board_jumps_are_chains(pos, color, last, i);
    } else {
        lemma_jumps_are_chains(pos, last, reach(pos, last), i - before.len());
    }
}

/// Every simple step that is listed for the squares below `n` starts on one
/// of them, from a piece of `color`, and is a step of that piece.
pub proof fn lemma_board_steps_are_steps(pos: Position, color: Color, n: nat, i: int)
    requires
        0 <= i < board_steps(pos, color, n).len(),
    ensures
        board_steps(pos, color, n)[i].from < n,
        holds(pos, board_steps(pos, color, n)[i].from, color),
        step_facts(pos, board_steps(pos, color, n)[i].from, board_steps(pos, color, n)[i]),
    decreases n,
{
    let last = (n - 1) as nat;
    let before = board_steps(pos, color, last);
    if i < before.len() {
        lemma_board_steps_are_steps(pos, color, last, i);
    } else {
        lemma_steps_are_steps(pos, last, reach(pos, last), i - before.len());
    }
}

/// Captures are mandatory: if any piece of `color` has a jump, every legal
/// ply of `color` is a capture; if none has, no legal ply is one.
pub proof fn lemma_mandatory_capture(pos: Position, color: Color, i: int)
    requires
        pos.dom().finite(),
        0 <= i < legal_plies(pos, color).len(),
    ensures
        legal_plies(pos, color)[i].captures.len() > 0 <==> capture_exists(pos, color),
{
    lemma_no_board_jumps(pos, color, 64);
    if board_jumps(pos, color, 64).len() > 0 {
        lemma_board_jumps_are_chains(pos, color, 64, i);
        let sq = choose|sq: nat| sq < 64 && #[trigger] holds(pos, sq, color) && has_jump(pos, sq);
        assert(capture_exists(pos, color));
    } else {
        lemma_board_steps_are_steps(pos, color, 64, i);
    }
}

/// Every legal ply moves a piece of `color` from a square of the board. A
/// capturing ply is a chain of single jumps, each legal on the board that the
/// jumps before it have left, and ends where no further jump is possible. A
/// ply without captures is a single step onto a free neighbouring square.
pub proof fn lemma_legal_ply(pos: Position, color: Color, i: int)
    requires
        pos.dom().finite(),
        0 <= i < legal_plies(pos, color).len(),
    ensures
        legal_plies(pos, color)[i].from < 64,
        holds(pos, legal_plies(pos, color)[i].from, color),
        legal_plies(pos, color)[i].captures.len() > 0 ==> chain_facts(
            pos,
            legal_plies(pos, color)[i].from,
            legal_plies(pos, color)[i],
        ),
        legal_plies(pos, color)[i].captures.len() == 0 ==> step_facts(
            pos,
            legal_plies(pos, color)[i].from,
            legal_plies(pos, color)[i],
        ),
{
    if board_jumps(pos, color, 64).len() > 0 {
        lemma_board_jumps_are_chains(pos, color, 64, i);
    } else {
        lemma_board_steps_are_steps(pos, color, 64, i);
    }
}

/// Every chain of captures that a piece of `color` can play to its end is
/// a legal ply: the list holds a ply from that square with those captures
/// that ends on that square.
pub proof fn lemma_every_chain_is_legal(
    pos: Position,
    color: Color,
    sq: nat,
    captures: Seq<nat>,
    to: nat,
) -> (i: int)
    requires
        pos.dom().finite(),
        sq < 64,
        holds(pos, sq, color),
        captures.len() >= 1,
        is_full_chain(pos, sq, captures, to),
    ensures
        0 <= i < legal_plies(pos, color).len(),
        legal_plies(pos, color)[i].from == sq,
        legal_plies(pos, color)[i].captures == captures,
        legal_plies(pos, color)[i].to == to,
{
    let j = lemma_full_chain_is_listed(pos, sq, captures, to);
    lemma_square_jumps_are_listed(pos, color, 64, sq, j)
}

/// Where no piece of `color` has a jump, every step of one of its pieces
/// onto a free neighbouring square is a legal ply.
pub proof fn lemma_every_step_is_legal(pos: Position, color: Color, sq: nat, k: int) -> (i: int)
    requires
        pos.dom().finite(),
        sq < 64,
        holds(pos, sq, color),
        !capture_exists(pos, color),
        0 <= k < reach(pos, sq),
        can_step(pos, sq, direction(pos, sq, k)),
    ensures
        0 <= i < legal_plies(pos, color).len(),
        legal_plies(pos, color)[i] == step_ply(pos, sq, direction(pos, sq, k)),
{
    lemma_no_board_jumps(pos, color, 64);
    let j = lemma_step_is_listed(pos, sq, reach(pos, sq), k);
    lemma_square_steps_are_listed(pos, color, 64, sq, j)
}

/// A chain ends on a square of the board.
pub proof fn lemma_chain_ends_on_board(pos: Position, sq: nat, captures: Seq<nat>, to: nat)
    requires
        sq < 64,
        is_full_chain(pos, sq, captures, to),
    ensures
        to < 64,
    decreases captures.len(),
{
    if captures.len() > 0 {
        let k = choose|k: int|
            0 <= k < reach(pos, sq) && can_jump(pos, sq, #[trigger] direction(pos, sq, k))
                && jumped_square(sq, direction(pos, sq, k)) == captures[0] && is_full_chain(
                after_jump(pos, sq, direction(pos, sq, k)),
                landing_square(sq, direction(pos, sq, k)),
                captures.drop_first(),
                to,
            );
        lemma_chain_ends_on_board(
            after_jump(pos, sq, direction(pos, sq, k)),
            landing_square(sq, direction(pos, sq, k)),
            captures.drop_first(),
            to,
        );
    }
}

/// Clearing squares leaves no piece where none was.
pub proof fn lemma_without_shrinks(pos: Position, squares: Seq<nat>)
    ensures
        without(pos, squares).dom().subset_of(pos.dom()),
    decreases squares.len(),
{
    if squares.len() > 0 {
        lemma_without_shrinks(pos, squares.drop_last());
    }
}

/// A legal ply leaves every piece on the board: played on a board of
/// finitely many pieces, all on squares of the board, it gives such a board.
pub proof fn lemma_legal_ply_keeps_the_board(pos: Position, color: Color, i: int)
    requires
        pos.dom().finite(),
        on_board(pos),
        0 <= i < legal_plies(pos, color).len(),
    ensures
        legal_plies(pos, color)[i].to < 64,
        on_board(apply_ply(pos, legal_plies(pos, color)[i])),
        apply_ply(pos, legal_plies(pos, color)[i]).dom().finite(),
{
    let ply = legal_plies(pos, color)[i];
    lemma_legal_ply(pos, color, i);
    if ply.captures.len() > 0 {
        lemma_chain_ends_on_board(pos, ply.from, ply.captures, ply.to);
    }
    let moved = pos.remove(ply.from).insert(ply.to, ply.piece);
    lemma_without_shrinks(moved, ply.captures);
    vstd::set_lib::lemma_len_subset(apply_ply(pos, ply).dom(), moved.dom());
}

/// A legal ply that ends on the far rank of its color is marked as a
/// promotion, and the piece of a ply so marked is a king of that color;
/// the piece of any other ply is the piece that was moved.
pub proof fn lemma_promotion(pos: Position, color: Color, i: int)
    requires
        pos.dom().finite(),
        0 <= i < legal_plies(pos, color).len(),
    ensures
        reaches_back_rank(color, legal_plies(pos, color)[i].to) ==> legal_plies(
            pos,
            color,
        )[i].promoted,
        legal_plies(pos, color)[i].promoted ==> legal_plies(pos, color)[i].piece == (Piece {
            color,
            kind: PieceKind::King,
        }),
        !legal_plies(pos, color)[i].promoted ==> legal_plies(pos, color)[i].piece
            == pos[legal_plies(pos, color)[i].from],
{
    lemma_legal_ply(pos, color, i);
}

} // verus!
