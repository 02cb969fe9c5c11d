//! A depth-limited minimax search with alpha-beta pruning and a memo of
//! scores by board hash.

use vstd::prelude::*;
use std::collections::HashMap;
use crate::backend::{snapshot_of, Backend, BackendClone, Snapshot};
use crate::bitfield::lemma_below_64_bound;
use crate::board::Board;
use crate::gamestate::GameState;
use crate::legality::lemma_legal_ply_keeps_the_board;
use crate::piece::{Color, Piece, PieceKind};
use crate::ply::{ply_views, Ply, PlyView};
use crate::rules::{apply_ply, legal_plies, on_board, outcome, squares_of, Position};
use crate::static_eval::{material, material_of, static_eval};

verus! {

/// The depth to which `evaluate` searches.
pub const SEARCH_DEPTH: usize = 16;

/// The score of a position that is won for the side the engine plays.
pub const WON: i64 = i64::MAX;

/// The score of a position that is lost for the side the engine plays.
pub const LOST: i64 = i64::MIN;

/// The larger of two scores.
pub open spec fn larger(a: i64, b: i64) -> i64 {
    if a >= b {
        a
    } else {
        b
    }
}

/// The smaller of two scores.
pub open spec fn smaller(a: i64, b: i64) -> i64 {
    if a <= b {
        a
    } else {
        b
    }
}

/// The score of a game that is over, for the side `me`.
pub open spec fn final_score(me: Color, state: GameState) -> i64 {
    match state {
        GameState::Win(winner) => if winner == me {
            WON
        } else {
            LOST
        },
        _ => 0,
    }
}

/// The node reached by playing `plies[i]`, after `plies` was generated for `mover`.
pub open spec fn child(pos: Position, mover: Color, plies: Seq<PlyView>, i: int) -> Snapshot {
    Snapshot { position: apply_ply(pos, plies[i]), listed_for: mover, listed: plies }
}

/// The score of a node and the memo after the search below it.
///
/// A node whose hash is in the memo has the score found there, at whatever
/// depth and with whatever bounds that score was found. Otherwise it is
/// scored, and memoized, as a finished game, by its material at depth 0, or
/// by the best of its children for the side to move, leaving out the
/// children after a cut-off.
pub open spec fn search_node<B: Backend>(
    me: Color,
    memo: Map<u64, i64>,
    node: Snapshot,
    depth: nat,
    alpha: i64,
    beta: i64,
    maximizing: bool,
) -> (i64, Map<u64, i64>)
    decreases depth, 1nat, 0nat,
{
    let key = B::digest(node.position);
    let state = outcome(node.position, node.listed_for, node.listed);
    if memo.contains_key(key) {
        (memo[key], memo)
    } else if !(state is OnGoing) {
        (final_score(me, state), memo.insert(key, final_score(me, state)))
    } else if depth == 0 {
        (material(node.position, me) as i64, memo.insert(key, material(node.position, me) as i64))
    } else {
        let mover = if maximizing {
            me
        } else {
            me.opposite()
        };
        let start = if maximizing {
            LOST
        } else {
            WON
        };
        let found = search_children::<B>(
            me,
            memo,
            node.position,
            mover,
            legal_plies(node.position, mover),
            0,
            depth,
            alpha,
            beta,
            maximizing,
            start,
        );
        (found.0, found.1.insert(key, found.0))
    }
}

/// The best score among the children from the `i`-th on, given the best so
/// far, and the memo after the search. The search stops at the first child
/// after which `beta <= alpha`.
pub open spec fn search_children<B: Backend>(
    me: Color,
    memo: Map<u64, i64>,
    pos: Position,
    mover: Color,
    plies: Seq<PlyView>,
    i: nat,
    depth: nat,
    alpha: i64,
    beta: i64,
    maximizing: bool,
    best: i64,
) -> (i64, Map<u64, i64>)
    decreases depth, 0nat, plies.len() - i,
{
    if i >= plies.len() || depth == 0 {
        (best, memo)
    } else {
        let below = search_node::<B>(
            me,
            memo,
            child(pos, mover, plies, i as int),
            (depth - 1) as nat,
            alpha,
            beta,
            !maximizing,
        );
        let score = below.0;
        let best_now = if maximizing {
            larger(best, score)
        } else {
            smaller(best, score)
        };
        let alpha_now = if maximizing {
            larger(alpha, score)
        } else {
            alpha
        };
        let beta_now = if maximizing {
            beta
        } else {
            smaller(beta, score)
        };
        if beta_now <= alpha_now {
            (best_now, below.1)
        } else {
            search_children::<B>(
                me,
                below.1,
                pos,
                mover,
                plies,
                i + 1,
                depth,
                alpha_now,
                beta_now,
                maximizing,
                best_now,
            )
        }
    }
}

/// What the search at the root has found after some of the plies.
pub struct Found {
    /// The best score so far.
    pub score: i64,
    /// The plies that reach the best score, in the order of generation.
    pub plies: Seq<PlyView>,
    /// The memo after the search so far.
    pub memo: Map<u64, i64>,
}

/// The search at the root over the plies from the `i`-th on: each is scored
/// with a full window for the opponent to move, and the plies of the highest
/// score are kept.
pub open spec fn search_plies<B: Backend>(
    me: Color,
    pos: Position,
    plies: Seq<PlyView>,
    i: nat,
    depth: nat,
    found: Found,
) -> Found
    decreases plies.len() - i,
{
    if i >= plies.len() || depth == 0 {
        found
    } else {
        let below = search_node::<B>(
            me,
            found.memo,
            child(pos, me, plies, i as int),
            (depth - 1) as nat,
            LOST,
            WON,
            false,
        );
        let score = below.0;
        search_plies::<B>(
            me,
            pos,
            plies,
            i + 1,
            depth,
            Found {
                score: larger(found.score, score),
                plies: if score > found.score {
                    seq![plies[i as int]]
                } else if score == found.score {
                    found.plies.push(plies[i as int])
                } else {
                    found.plies
                },
                memo: below.1,
            },
        )
    }
}

/// The result of a search from the root: the material at depth 0; the lowest
/// score if the side `me` has no ply; else the best score of its plies, the
/// plies that reach it, and the memo with that score under the board's hash.
pub open spec fn search_root<B: Backend>(
    me: Color,
    memo: Map<u64, i64>,
    pos: Position,
    depth: nat,
) -> Found {
    let found = search_plies::<B>(
        me,
        pos,
        legal_plies(pos, me),
        0,
        depth,
        Found { score: LOST, plies: Seq::empty(), memo },
    );
    if depth == 0 {
        Found { score: material(pos, me) as i64, plies: Seq::empty(), memo }
    } else if found.plies.len() == 0 {
        Found { score: LOST, plies: Seq::empty(), memo: found.memo }
    } else {
        Found { memo: found.memo.insert(B::digest(pos), found.score), ..found }
    }
}

/// Every score of `before` is found in `after`, unchanged.
pub open spec fn extends(before: Map<u64, i64>, after: Map<u64, i64>) -> bool {
    forall|k: u64| #[trigger]
        before.contains_key(k) ==> after.contains_key(k) && after[k] == before[k]
}

/// A memo that extends an extension of a memo extends that memo.
pub proof fn lemma_extends_twice(first: Map<u64, i64>, second: Map<u64, i64>, third: Map<u64, i64>)
    requires
        extends(first, second),
        extends(second, third),
    ensures
        extends(first, third),
{
    assert forall|k: u64| #[trigger] first.contains_key(k) implies third.contains_key(k)
        && third[k] == first[k] by {
        assert(second.contains_key(k));
    }
}

/// A score that the search can give: won, lost, or a difference in material
/// on a board of 64 squares.
pub open spec fn is_score(score: i64) -> bool {
    score == WON || score == LOST || -192 <= score <= 192
}

/// Every score in the memo is one that the search can give.
pub open spec fn holds_scores(memo: Map<u64, i64>) -> bool {
    forall|k: u64| memo.contains_key(k) ==> is_score(#[trigger] memo[k])
}

/// The material on a board of 64 squares lies between -192 and 192.
pub proof fn lemma_material_bound(pos: Position, me: Color)
    requires
        on_board(pos),
    ensures
        -192 <= material(pos, me) <= 192,
{
    lemma_below_64_bound(pos.dom());
    lemma_side_bound(pos, me);
    lemma_side_bound(pos, me.opposite());
}

proof fn lemma_side_bound(pos: Position, color: Color)
    requires
        pos.dom().finite(),
        pos.dom().len() <= 64,
    ensures
        0 <= material_of(pos, color) <= 192,
{
    let men = squares_of(pos, Piece { color, kind: PieceKind::Man });
    let kings = squares_of(pos, Piece { color, kind: PieceKind::King });
    vstd::set_lib::lemma_len_subset(men, pos.dom());
    vstd::set_lib::lemma_len_subset(kings, pos.dom());
    vstd::set_lib::lemma_len_subset(men.union(kings), pos.dom());
    vstd::set_lib::lemma_set_disjoint_lens(men, kings);
}

/// Scoring a node keeps every score that the memo held, leaves the score of
/// the node in the memo under the hash of its board, and gives a score that
/// is won, lost or a difference in material.
pub proof fn lemma_search_node<B: Backend>(
    me: Color,
    memo: Map<u64, i64>,
    node: Snapshot,
    depth: nat,
    alpha: i64,
    beta: i64,
    maximizing: bool,
)
    requires
        node.position.dom().finite(),
        on_board(node.position),
        holds_scores(memo),
    ensures
        extends(memo, search_node::<B>(me, memo, node, depth, alpha, beta, maximizing).1),
        holds_scores(search_node::<B>(me, memo, node, depth, alpha, beta, maximizing).1),
        is_score(search_node::<B>(me, memo, node, depth, alpha, beta, maximizing).0),
        search_node::<B>(me, memo, node, depth, alpha, beta, maximizing).1.contains_key(
            B::digest(node.position),
        ),
        search_node::<B>(me, memo, node, depth, alpha, beta, maximizing).1[B::digest(
            node.position,
        )] == search_node::<B>(me, memo, node, depth, alpha, beta, maximizing).0,
    decreases depth, 1nat, 0nat,
{
    let key = B::digest(node.position);
    let state = outcome(node.position, node.listed_for, node.listed);
    lemma_material_bound(node.position, me);
    if !memo.contains_key(key) && state is OnGoing && depth > 0 {
        let mover = if maximizing {
            me
        } else {
            me.opposite()
        };
        let start = if maximizing {
            LOST
        } else {
            WON
        };
        lemma_search_children::<B>(
            me,
            memo,
            node.position,
            mover,
            legal_plies(node.position, mover),
            0,
            depth,
            alpha,
            beta,
            maximizing,
            start,
        );
        let found = search_children::<B>(
            me,
            memo,
            node.position,
            mover,
            legal_plies(node.position, mover),
            0,
            depth,
            alpha,
            beta,
            maximizing,
            start,
        );
        let after = found.1.insert(key, found.0);
        assert forall|k: u64| #[trigger] memo.contains_key(k) implies after.contains_key(k)
            && after[k] == memo[k] by {
            assert(k != key);
            assert(found.1.contains_key(k));
        }
    }
}

/// Scoring the children of a node keeps every score that the memo held and
/// gives a score that is won, lost or a difference in material.
pub proof fn lemma_search_children<B: Backend>(
    me: Color,
    memo: Map<u64, i64>,
    pos: Position,
    mover: Color,
    plies: Seq<PlyView>,
    i: nat,
    depth: nat,
    alpha: i64,
    beta: i64,
    maximizing: bool,
    best: i64,
)
    requires
        pos.dom().finite(),
        on_board(pos),
        plies == legal_plies(pos, mover),
        holds_scores(memo),
        is_score(best),
    ensures
        extends(
            memo,
            search_children::<B>(
                me,
                memo,
                pos,
                mover,
                plies,
                i,
                depth,
                alpha,
                beta,
                maximizing,
                best,
            ).1,
        ),
        holds_scores(
            search_children::<B>(
                me,
                memo,
                pos,
                mover,
                plies,
                i,
                depth,
                alpha,
                beta,
                maximizing,
                best,
            ).1,
        ),
        is_score(
            search_children::<B>(
                me,
                memo,
                pos,
                mover,
                plies,
                i,
                depth,
                alpha,
                beta,
                maximizing,
                best,
            ).0,
        ),
    decreases depth, 0nat, plies.len() - i,
{
    if i < plies.len() && depth > 0 {
        lemma_legal_ply_keeps_the_board(pos, mover, i as int);
        let node = child(pos, mover, plies, i as int);
        lemma_search_node::<B>(me, memo, node, (depth - 1) as nat, alpha, beta, !maximizing);
        let below = search_node::<B>(me, memo, node, (depth - 1) as nat, alpha, beta, !maximizing);
        let score = below.0;
        let best_now = if maximizing {
            larger(best, score)
        } else {
            smaller(best, score)
        };
        let alpha_now = if maximizing {
            larger(alpha, score)
        } else {
            alpha
        };
        let beta_now = if maximizing {
            beta
        } else {
            smaller(beta, score)
        };
        if !(beta_now <= alpha_now) {
            lemma_search_children::<B>(
                me,
                below.1,
                pos,
                mover,
                plies,
                i + 1,
                depth,
                alpha_now,
                beta_now,
                maximizing,
                best_now,
            );
            lemma_extends_twice(
                memo,
                below.1,
                search_children::<B>(
                    me,
                    below.1,
                    pos,
                    mover,
                    plies,
                    i + 1,
                    depth,
                    alpha_now,
                    beta_now,
                    maximizing,
                    best_now,
                ).1,
            );
        }
    }
}

/// Scoring the plies at the root keeps every score that the memo held and
/// gives a score that is won, lost or a difference in material.
pub proof fn lemma_search_plies<B: Backend>(
    me: Color,
    pos: Position,
    plies: Seq<PlyView>,
    i: nat,
    depth: nat,
    found: Found,
)
    requires
        pos.dom().finite(),
        on_board(pos),
        plies == legal_plies(pos, me),
        holds_scores(found.memo),
        is_score(found.score),
    ensures
        extends(found.memo, search_plies::<B>(me, pos, plies, i, depth, found).memo),
        holds_scores(search_plies::<B>(me, pos, plies, i, depth, found).memo),
        is_score(search_plies::<B>(me, pos, plies, i, depth, found).score),
    decreases plies.len() - i,
{
    if i < plies.len() && depth > 0 {
        lemma_legal_ply_keeps_the_board(pos, me, i as int);
        let node = child(pos, me, plies, i as int);
        lemma_search_node::<B>(me, found.memo, node, (depth - 1) as nat, LOST, WON, false);
        let below = search_node::<B>(me, found.memo, node, (depth - 1) as nat, LOST, WON, false);
        let score = below.0;
        let next = Found {
            score: larger(found.score, score),
            plies: if score > found.score {
                seq![plies[i as int]]
            } else if score == found.score {
                found.plies.push(plies[i as int])
            } else {
                found.plies
            },
            memo: below.1,
        };
        lemma_search_plies::<B>(me, pos, plies, i + 1, depth, next);
        lemma_extends_twice(
            found.memo,
            below.1,
            search_plies::<B>(me, pos, plies, i + 1, depth, next).memo,
        );
    }
}

/// A search from the root keeps every score that the memo held, but for the
/// score under the hash of the root's own board, which it sets anew; and it
/// gives a score that is won, lost or a difference in material.
pub proof fn lemma_search_root<B: Backend>(
    me: Color,
    memo: Map<u64, i64>,
    pos: Position,
    depth: nat,
)
    requires
        pos.dom().finite(),
        on_board(pos),
        holds_scores(memo),
    ensures
        extends(memo.remove(B::digest(pos)), search_root::<B>(me, memo, pos, depth).memo),
        holds_scores(search_root::<B>(me, memo, pos, depth).memo),
        is_score(search_root::<B>(me, memo, pos, depth).score),
        depth == 0 ==> search_root::<B>(me, memo, pos, depth).score == material(pos, me)
            && search_root::<B>(me, memo, pos, depth).memo == memo,
{
    lemma_material_bound(pos, me);
    let start = Found { score: LOST, plies: Seq::empty(), memo };
    lemma_search_plies::<B>(me, pos, legal_plies(pos, me), 0, depth, start);
    let found = search_plies::<B>(me, pos, legal_plies(pos, me), 0, depth, start);
    let after = search_root::<B>(me, memo, pos, depth).memo;
    assert forall|k: u64| #[trigger]
        memo.remove(B::digest(pos)).contains_key(k) implies after.contains_key(k) && after[k]
        == memo.remove(B::digest(pos))[k] by {
        assert(memo.contains_key(k));
        assert(found.memo.contains_key(k));
    }
}

/// The search engine of one side, with the scores it has found so far.
pub struct Engine {
    maximizing_color: Color,
    seen_states: HashMap<u64, i64>,
}

impl Engine {
    /// The side the engine plays.
    pub closed spec fn color(&self) -> Color {
        self.maximizing_color
    }

    /// The scores found so far, by board hash.
    pub closed spec fn memo(&self) -> Map<u64, i64> {
        self.seen_states@
    }

    pub fn new(maximizing_color: Color) -> (r: Engine)
        ensures
            r.color() == maximizing_color,
            r.memo() == Map::<u64, i64>::empty(),
    {
        Engine { maximizing_color, seen_states: HashMap::new() }
    }

    /// The score of the board's position for the engine's side, by a search
    /// to `SEARCH_DEPTH` with that side to move.
    pub fn evaluate<B: BackendClone>(&mut self, board: &mut Board<B>) -> (r: i64)
        requires
            old(board).wf(),
        ensures
            final(self).color() == old(self).color(),
            r == search_root::<B>(
                old(self).color(),
                old(self).memo(),
                old(board).backend().position(),
                SEARCH_DEPTH as nat,
            ).score,
            final(self).memo() == search_root::<B>(
                old(self).color(),
                old(self).memo(),
                old(board).backend().position(),
                SEARCH_DEPTH as nat,
            ).memo,
            final(board).wf(),
            final(board).turn() == old(board).turn(),
            final(board).selection() == old(board).selection(),
            snapshot_of(&final(board).backend()) == (Snapshot {
                position: old(board).backend().position(),
                listed_for: old(self).color(),
                listed: legal_plies(old(board).backend().position(), old(self).color()),
            }),
    {
        self.search(board.get_backend_mut(), SEARCH_DEPTH)
    }

    /// Searches to the given depth with the engine's side to move, and
    /// returns the best score with the plies that reach it. The legal plies
    /// of that side are generated on the backend unless the depth is 0.
    pub fn best_plies<B: BackendClone>(&mut self, backend: &mut B, depth: usize) -> (r: (
        i64,
        Vec<Ply>,
    ))
        requires
            old(backend).wf(),
        ensures
            final(self).color() == old(self).color(),
            r.0 == search_root::<B>(
                old(self).color(),
                old(self).memo(),
                old(backend).position(),
                depth as nat,
            ).score,
            ply_views(r.1@) == search_root::<B>(
                old(self).color(),
                old(self).memo(),
                old(backend).position(),
                depth as nat,
            ).plies,
            final(self).memo() == search_root::<B>(
                old(self).color(),
                old(self).memo(),
                old(backend).position(),
                depth as nat,
            ).memo,
            final(backend).wf(),
            final(backend).position() == old(backend).position(),
            snapshot_of(final(backend)) == if depth == 0 {
                snapshot_of(old(backend))
            } else {
                Snapshot {
                    position: old(backend).position(),
                    listed_for: old(self).color(),
                    listed: legal_plies(old(backend).position(), old(self).color()),
                }
            },
    {
        if depth == 0 {
            return (static_eval(backend, self.maximizing_color), Vec::new());
        }
        let me = self.maximizing_color;
        let ghost pos = backend.position();
        let ghost memo = self.memo();
        let plies = backend.get_legal_plies(me);
        let mut best_score: i64 = LOST;
        let mut best_plies: Vec<Ply> = Vec::new();
        let mut i: usize = 0;
        assert(ply_views(best_plies@) =~= Seq::<PlyView>::empty());
        while i < plies.len()
            invariant
                i <= plies.len(),
                depth > 0,
                me == self.color(),
                backend.wf(),
                backend.position() == pos,
                backend.cached_color() == me,
                backend.cached_plies() == ply_views(plies@),
                ply_views(plies@) == legal_plies(pos, me),
                search_plies::<B>(
                    me,
                    pos,
                    ply_views(plies@),
                    i as nat,
                    depth as nat,
                    Found { score: best_score, plies: ply_views(best_plies@), memo: self.memo() },
                ) == search_plies::<B>(
                    me,
                    pos,
                    ply_views(plies@),
                    0,
                    depth as nat,
                    Found { score: LOST, plies: Seq::empty(), memo },
                ),
            decreases plies.len() - i,
        {
            let mut backend_clone = backend.clone_box();
            backend_clone.ply(plies[i].clone());
            let score = self.alpha_beta(&mut *backend_clone, depth - 1, LOST, WON, false);
            let ghost kept = best_plies@;
            if score > best_score {
                best_score = score;
                best_plies = Vec::new();
                best_plies.push(plies[i].clone());
                assert(ply_views(best_plies@) =~= seq![plies@[i as int]@]);
            } else if score == best_score {
                best_plies.push(plies[i].clone());
                assert(ply_views(best_plies@) =~= ply_views(kept).push(plies@[i as int]@));
            }
            i += 1;
        }
        if best_plies.len() == 0 {
            assert(ply_views(best_plies@) =~= Seq::<PlyView>::empty());
            return (LOST, best_plies);
        }
        let key = backend.state_hash();
        self.seen_states.insert(key, best_score);
        (best_score, best_plies)
    }

    /// Searches to the given depth with the engine's side to move and returns
    /// the best score.
    pub fn search<B: BackendClone>(&mut self, backend: &mut B, depth: usize) -> (r: i64)
        requires
            old(backend).wf(),
        ensures
            final(self).color() == old(self).color(),
            r == search_root::<B>(
                old(self).color(),
                old(self).memo(),
                old(backend).position(),
                depth as nat,
            ).score,
            final(self).memo() == search_root::<B>(
                old(self).color(),
                old(self).memo(),
                old(backend).position(),
                depth as nat,
            ).memo,
            final(backend).wf(),
            final(backend).position() == old(backend).position(),
            snapshot_of(final(backend)) == if depth == 0 {
                snapshot_of(old(backend))
            } else {
                Snapshot {
                    position: old(backend).position(),
                    listed_for: old(self).color(),
                    listed: legal_plies(old(backend).position(), old(self).color()),
                }
            },
    {
        let found = self.best_plies(backend, depth);
        found.0
    }

    /// Scores the node that `backend` stands for, as `search_node` says.
    /// Where the node is searched below, the plies of the side to move are
    /// generated on the backend.
    fn alpha_beta<B: BackendClone>(
        &mut self,
        backend: &mut B,
        depth: usize,
        alpha: i64,
        beta: i64,
        maximizing: bool,
    ) -> (r: i64)
        requires
            old(backend).wf(),
        ensures
            final(self).color() == old(self).color(),
            (r, final(self).memo()) == search_node::<B>(
                old(self).color(),
                old(self).memo(),
                snapshot_of(old(backend)),
                depth as nat,
                alpha,
                beta,
                maximizing,
            ),
            final(backend).wf(),
            final(backend).position() == old(backend).position(),
        decreases depth,
    {
        let key = backend.state_hash();
        if let Some(cached_score) = self.seen_states.get(&key) {
            return *cached_score;
        }
        let gamestate = backend.get_gamestate();
        if gamestate.is_over() {
            if gamestate.is_draw() {
                self.seen_states.insert(key, 0);
                return 0;
            }
            let score = if gamestate.winner() == Some(self.maximizing_color) {
                WON
            } else {
                LOST
            };
            self.seen_states.insert(key, score);
            return score;
        }
        if depth == 0 {
            let score = static_eval(backend, self.maximizing_color);
            self.seen_states.insert(key, score);
            return score;
        }
        let me = self.maximizing_color;
        let mover = if maximizing {
            me
        } else {
            me.opposite()
        };
        let ghost pos = backend.position();
        let ghost memo = self.memo();
        let ghost first_alpha = alpha;
        let ghost first_beta = beta;
        let mut alpha = alpha;
        let mut beta = beta;
        let mut best_score: i64 = if maximizing {
            LOST
        } else {
            WON
        };
        let ghost start = best_score;
        let plies = backend.get_legal_plies(mover);
        let mut i: usize = 0;
        while i < plies.len()
            invariant_except_break
                i <= plies.len(),
                search_children::<B>(
                    me,
                    self.memo(),
                    pos,
                    mover,
                    ply_views(plies@),
                    i as nat,
                    depth as nat,
                    alpha,
                    beta,
                    maximizing,
                    best_score,
                ) == search_children::<B>(
                    me,
                    memo,
                    pos,
                    mover,
                    ply_views(plies@),
                    0,
                    depth as nat,
                    first_alpha,
                    first_beta,
                    maximizing,
                    start,
                ),
            invariant
                depth > 0,
                me == self.color(),
                backend.wf(),
                backend.position() == pos,
                backend.cached_color() == mover,
                backend.cached_plies() == ply_views(plies@),
                ply_views(plies@) == legal_plies(pos, mover),
            ensures
                (best_score, self.memo()) == search_children::<B>(
                    me,
                    memo,
                    pos,
                    mover,
                    ply_views(plies@),
                    0,
                    depth as nat,
                    first_alpha,
                    first_beta,
                    maximizing,
                    start,
                ),
            decreases plies.len() - i,
        {
            let mut backend_clone = backend.clone_box();
            backend_clone.ply(plies[i].clone());
            let score = self.alpha_beta(&mut *backend_clone, depth - 1, alpha, beta, !maximizing);
            if maximizing {
                if score > best_score {
                    best_score = score;
                }
                if score > alpha {
                    alpha = score;
                }
            } else {
                if score < best_score {
                    best_score = score;
                }
                if score < beta {
                    beta = score;
                }
            }
            if beta <= alpha {
                break ;
            }
            i += 1;
        }
        self.seen_states.insert(key, best_score);
        best_score
    }
}

} // verus!
