//! Negamax search with alpha-beta pruning, the quiescence extension over
//! captures, and the move ordering they share.

use vstd::prelude::*;
use crate::board::{
    after, board_after, board_legal, board_status, dest_of, is_legal, move_dest, opponent_on,
    opponent_on_square, hash_of, source_of, promotion_of, legal_moves, legal_moves_of, same_move, playable, status_of, GameStatus,
};
use crate::eval::{eval_of, evaluate_board, Eval, SCORE_INF, SCORE_MATE};
use crate::move16::Move16;
use crate::ttable::{EntryType, EvalMove, TTEntry, TTable};

verus! {

broadcast use vstd::seq_lib::group_to_multiset_ensures;

/// The longest line of captures that quiescence follows. A game that starts
/// from the initial position has at most thirty captures, so no line of it is
/// cut short; a position set up with more pieces may have longer lines.
pub const QUIESCE_PLIES: u8 = 32;

/// Scores in order from best to worst.
pub open spec fn sorted_desc(s: Seq<EvalMove>) -> bool {
    forall|i: int, j: int| 0 <= i < j < s.len() ==> s[i].eval >= s[j].eval
}

/// Sorts `v` best score first.
pub fn sort_moves(v: &mut Vec<EvalMove>)
    ensures
        sorted_desc(final(v)@),
        final(v)@.to_multiset() == old(v)@.to_multiset(),
        final(v)@.len() == old(v)@.len(),
{
    let mut out: Vec<EvalMove> = Vec::new();
    let mut i: usize = 0;
    while i < v.len()
        invariant
            i <= v@.len(),
            sorted_desc(out@),
            out@.to_multiset() == v@.take(i as int).to_multiset(),
            out@.len() == i,
        decreases v@.len() - i,
    {
        let x = v[i];
        let mut pos: usize = 0;
        while pos < out.len() && out[pos].eval >= x.eval
            invariant
                pos <= out@.len(),
                forall|k: int| 0 <= k < pos ==> out@[k].eval >= x.eval,
            decreases out@.len() - pos,
        {
            pos = pos + 1;
        }
        proof {
            assert forall|k: int| pos <= k < out@.len() implies out@[k].eval < x.eval by {
                assert(out@[pos as int].eval < x.eval);
            }
            assert(v@.take(i as int + 1) == v@.take(i as int).push(x));
        }
        let ghost before = out@;
        out.insert(pos, x);
        proof {
            assert(out@ == before.insert(pos as int, x));
            assert forall|a: int, b: int| 0 <= a < b < out@.len() implies out@[a].eval >= out@[b].eval by {
                if a < pos && b < pos {
                } else if a < pos {
                } else if a == pos {
                } else {
                    assert(out@[a] == before[a - 1]);
                    assert(out@[b] == before[b - 1]);
                }
            }
        }
        i = i + 1;
    }
    proof {
        assert(v@.take(v@.len() as int) == v@);
        out@.to_multiset_ensures();
        v@.to_multiset_ensures();
    }
    *v = out;
}

/// Makes `mv` on `board`, or gives nothing when the move is not legal there
/// (a move taken from the table may be a stale or colliding one).
pub fn make_move_new(board: &chess::Board, mv: chess::ChessMove) -> (r: Option<chess::Board>)
    requires
        playable(*board),
    ensures
        r matches Some(p) ==> playable(p),
        r == if is_legal(*board, mv) {
            Some(after(*board, mv))
        } else {
            None
        },
{
    if !board_legal(board, &mv) {
        None
    } else {
        Some(board_after(board, &mv))
    }
}

/// The moves of a scored list, in order.
pub open spec fn move_list(s: Seq<EvalMove>) -> Seq<chess::ChessMove> {
    s.map_values(|e: EvalMove| e.mv)
}

pub(crate) proof fn lemma_move_list_multiset(s1: Seq<EvalMove>, s2: Seq<EvalMove>)
    requires
        s1.to_multiset() == s2.to_multiset(),
    ensures
        move_list(s1).to_multiset() == move_list(s2).to_multiset(),
    decreases s1.len(),
{
    broadcast use vstd::seq_lib::group_to_multiset_ensures;

    if s1.len() == 0 {
        assert(s1.to_multiset().len() == s1.len());
        assert(s2.to_multiset().len() == s2.len());
        assert(s2.len() == 0);
        assert(move_list(s1) =~= seq![]);
        assert(move_list(s2) =~= seq![]);
    } else {
        let x = s1.last();
        let s1p = s1.drop_last();
        assert(s1 =~= s1p.push(x));
        assert(s1.contains(x)) by {
            assert(s1[s1.len() - 1] == x);
        }
        assert(s2.to_multiset().contains(x));
        assert(s2.contains(x));
        let k = choose|k: int| 0 <= k < s2.len() && s2[k] == x;
        let s2p = s2.remove(k);
        assert(s1p.to_multiset() =~= s2p.to_multiset());
        lemma_move_list_multiset(s1p, s2p);
        assert(move_list(s1) =~= move_list(s1p).push(x.mv));
        assert(move_list(s2p) =~= move_list(s2).remove(k));
        assert(move_list(s2)[k] == x.mv);
        assert(move_list(s1).to_multiset() =~= move_list(s2).to_multiset());
    }
}


proof fn lemma_scored_counts(b: chess::Board, ms: Seq<chess::ChessMove>, skip: Option<chess::ChessMove>, n: int)
    requires
        0 <= n <= ms.len(),
    ensures
        forall|m: chess::ChessMove|
            #[trigger] move_list(scored_moves(b, ms, skip, n)).to_multiset().count(m) == if skip == Some(m) {
                0
            } else {
                ms.take(n).to_multiset().count(m)
            },
    decreases n,
{
    broadcast use vstd::seq_lib::group_to_multiset_ensures;

    if n == 0 {
        assert(move_list(scored_moves(b, ms, skip, 0)) =~= seq![]);
        assert(ms.take(0) =~= seq![]);
    } else {
        lemma_scored_counts(b, ms, skip, n - 1);
        let x = ms[n - 1];
        assert(ms.take(n) =~= ms.take(n - 1).push(x));
        let prev = scored_moves(b, ms, skip, n - 1);
        if skip != Some(x) {
            let em = EvalMove { mv: x, eval: (-eval_of(after(b, x))) as i16 };
            assert(move_list(prev.push(em)) =~= move_list(prev).push(x));
        }
    }
}

proof fn lemma_order_moves_permutes(
    b: chess::Board,
    best_move: Option<EvalMove>,
    pre: Seq<EvalMove>,
    sorted: Seq<EvalMove>,
    ordered: Seq<EvalMove>,
)
    requires
        ordered == pre + sorted,
        pre == prelude(b, best_move),
        legal_moves_of(b).no_duplicates(),
        forall|m: chess::ChessMove| #[trigger] is_legal(b, m) <==> legal_moves_of(b).contains(m),
        move_list(sorted).to_multiset() == move_list(
            scored_moves(
                b,
                legal_moves_of(b),
                match best_move {
                    Some(em) => Some(em.mv),
                    None => None,
                },
                legal_moves_of(b).len() as int,
            ),
        ).to_multiset(),
    ensures
        move_list(ordered).to_multiset() == legal_moves_of(b).to_multiset(),
{
    broadcast use vstd::seq_lib::group_to_multiset_ensures;
    broadcast use vstd::seq_lib::lemma_multiset_commutative;

    let ms = legal_moves_of(b);
    let skip = match best_move {
        Some(em) => Some(em.mv),
        None => None,
    };
    lemma_scored_counts(b, ms, skip, ms.len() as int);
    assert(ms.take(ms.len() as int) =~= ms);
    ms.lemma_multiset_has_no_duplicates();
    assert(move_list(ordered) =~= move_list(pre) + move_list(sorted));
    assert forall|m: chess::ChessMove| #[trigger] move_list(ordered).to_multiset().count(m) == ms.to_multiset().count(m) by {
        match best_move {
            Some(em) => {
                if is_legal(b, em.mv) {
                    assert(move_list(pre) =~= seq![em.mv]);
                    assert(seq![em.mv] =~= Seq::<chess::ChessMove>::empty().push(em.mv));
                    assert(ms.to_multiset().contains(em.mv));
                } else {
                    assert(move_list(pre) =~= Seq::<chess::ChessMove>::empty());
                    assert(!ms.contains(em.mv));
                    assert(ms.to_multiset().count(em.mv) == 0);
                }
            },
            None => {
                assert(move_list(pre) =~= Seq::<chess::ChessMove>::empty());
            },
        }
    }
    assert(move_list(ordered).to_multiset() =~= ms.to_multiset());
}

/// The first `n` moves of `ms` but `skip`, each scored by the static
/// evaluation of the position it leads to, from the mover's point of view.
pub open spec fn scored_moves(b: chess::Board, ms: Seq<chess::ChessMove>, skip: Option<chess::ChessMove>, n: int) -> Seq<EvalMove>
    decreases n,
{
    if n <= 0 {
        seq![]
    } else {
        let m = ms[n - 1];
        let prev = scored_moves(b, ms, skip, n - 1);
        if skip == Some(m) {
            prev
        } else {
            prev.push(EvalMove { mv: m, eval: (-eval_of(after(b, m))) as i16 })
        }
    }
}

/// The move of the table hint, tried first when it is legal.
pub open spec fn prelude(b: chess::Board, hint: Option<EvalMove>) -> Seq<EvalMove> {
    match hint {
        Some(em) => if is_legal(b, em.mv) {
            seq![em]
        } else {
            seq![]
        },
        None => seq![],
    }
}

/// What `order_moves` gives: the hint first when it is legal, then every other
/// legal move scored by `scored_moves`, best first; in all, each legal move once.
pub open spec fn ordered_ok(b: chess::Board, hint: Option<EvalMove>, r: Seq<EvalMove>) -> bool {
    let pre = prelude(b, hint);
    let ms = legal_moves_of(b);
    let skip = match hint {
        Some(em) => Some(em.mv),
        None => None,
    };
    let rest = r.subrange(pre.len() as int, r.len() as int);
    &&& pre.len() <= r.len()
    &&& r.subrange(0, pre.len() as int) == pre
    &&& sorted_desc(rest)
    &&& rest.to_multiset() == scored_moves(b, ms, skip, ms.len() as int).to_multiset()
    &&& move_list(r).to_multiset() == ms.to_multiset()
    &&& forall|i: int| 0 <= i < r.len() ==> is_legal(b, (#[trigger] r[i]).mv)
}

/// The moves to search in a position: the hint first when it is legal, then
/// every other legal move, best static score first.
pub fn order_moves(board: &chess::Board, best_move: Option<EvalMove>) -> (r: Vec<EvalMove>)
    requires
        playable(*board),
    ensures
        ordered_ok(*board, best_move, r@),
{
    let legal = legal_moves(board);
    assert(legal@.no_duplicates());
    let ghost skip = match best_move {
        Some(em) => Some(em.mv),
        None => None,
    };
    let mut rest: Vec<EvalMove> = Vec::new();
    let mut i: usize = 0;
    while i < legal.len()
        invariant
            i <= legal@.len(),
            legal@ == legal_moves_of(*board),
            playable(*board),
            forall|k: int| 0 <= k < legal@.len() ==> is_legal(*board, #[trigger] legal@[k]),
            skip == match best_move {
                Some(em) => Some(em.mv),
                None => None,
            },
            rest@ == scored_moves(*board, legal@, skip, i as int),
        decreases legal@.len() - i,
    {
        let mv = legal[i];
        let is_hint = match best_move {
            Some(em) => same_move(&em.mv, &mv),
            None => false,
        };
        if !is_hint {
            rest.push(EvalMove::new_on_board(mv, board));
        }
        i = i + 1;
    }
    let ghost unsorted = rest@;
    sort_moves(&mut rest);
    proof {
        lemma_move_list_multiset(rest@, unsorted);
    }
    let mut ordered: Vec<EvalMove> = Vec::new();
    match best_move {
        Some(em) => {
            if board_legal(board, &em.mv) {
                ordered.push(em);
            }
        },
        None => {},
    }
    let ghost pre = ordered@;
    let ghost sorted = rest@;
    ordered.append(&mut rest);
    proof {
        assert(ordered@.subrange(0, pre.len() as int) == pre);
        assert(ordered@.subrange(pre.len() as int, ordered@.len() as int) == sorted);
        assert(ordered@ =~= pre + sorted);
        lemma_order_moves_permutes(*board, best_move, pre, sorted, ordered@);
        assert forall|i: int| 0 <= i < ordered@.len() implies is_legal(*board, (#[trigger] ordered@[i]).mv) by {
            assert(move_list(ordered@)[i] == ordered@[i].mv);
            assert(move_list(ordered@).contains(ordered@[i].mv));
            assert(move_list(ordered@).to_multiset().contains(ordered@[i].mv));
            assert(legal_moves_of(*board).to_multiset().contains(ordered@[i].mv));
        }
    }
    ordered
}

/// Whether `m` captures in `b`: it lands on a piece of the side not to move.
pub open spec fn is_capture(b: chess::Board, m: chess::ChessMove) -> bool {
    dest_of(m) < 64 && opponent_on(b, dest_of(m))
}

/// The captures among the first `n` of `ms`, in order.
pub open spec fn captures_in(b: chess::Board, ms: Seq<chess::ChessMove>, n: int) -> Seq<chess::ChessMove>
    decreases n,
{
    if n <= 0 {
        seq![]
    } else {
        let prev = captures_in(b, ms, n - 1);
        if is_capture(b, ms[n - 1]) {
            prev.push(ms[n - 1])
        } else {
            prev
        }
    }
}

/// The legal captures of a position, in the move generator's order.
pub open spec fn captures_of(b: chess::Board) -> Seq<chess::ChessMove> {
    captures_in(b, legal_moves_of(b), legal_moves_of(b).len() as int)
}

/// The legal captures of a position: the moves quiescence follows.
pub fn capture_moves(b: &chess::Board) -> (r: Vec<chess::ChessMove>)
    requires
        playable(*b),
    ensures
        r@ == captures_of(*b),
        forall|i: int| 0 <= i < r@.len() ==> is_legal(*b, #[trigger] r@[i]),
{
    let legal = legal_moves(b);
    let mut caps: Vec<chess::ChessMove> = Vec::new();
    let mut i: usize = 0;
    while i < legal.len()
        invariant
            i <= legal@.len(),
            legal@ == legal_moves_of(*b),
            forall|k: int| 0 <= k < legal@.len() ==> is_legal(*b, #[trigger] legal@[k]),
            caps@ == captures_in(*b, legal@, i as int),
            forall|k: int| 0 <= k < caps@.len() ==> is_legal(*b, #[trigger] caps@[k]),
        decreases legal@.len() - i,
    {
        let mv = legal[i];
        let dst = move_dest(&mv);
        if dst < 64 && opponent_on_square(b, dst) {
            caps.push(mv);
        }
        i = i + 1;
    }
    caps
}

/// What quiescence returns: the static score, raised by captures while they
/// improve on it, cut off at `beta`; `-SCORE_MATE` when mated. Following a
/// capture costs one of `plies`.
pub open spec fn quiesce_value(b: chess::Board, alpha: int, beta: int, plies: nat) -> int
    decreases plies, captures_of(b).len() + 1,
{
    if status_of(b) == GameStatus::Checkmate {
        -SCORE_MATE
    } else if eval_of(b) >= beta {
        beta
    } else {
        capture_scan(b, if alpha < eval_of(b) { eval_of(b) } else { alpha }, beta, plies, 0)
    }
}

/// The captures of `b` from the `i`-th on, searched in the window `alpha`, `beta`.
pub open spec fn capture_scan(b: chess::Board, alpha: int, beta: int, plies: nat, i: int) -> int
    decreases plies, captures_of(b).len() - i,
{
    if plies == 0 || i < 0 || i >= captures_of(b).len() {
        alpha
    } else {
        let score = -quiesce_value(after(b, captures_of(b)[i]), -beta, -alpha, (plies - 1) as nat);
        if score >= beta {
            beta
        } else {
            capture_scan(b, if score > alpha { score } else { alpha }, beta, plies, i + 1)
        }
    }
}

/// Searches captures only until the position is quiet; fails hard: in a
/// window with `alpha < beta` the result stays within it but for a mate.
/// Any window within the score range is accepted.
pub fn quiesce(board: chess::Board, alpha: Eval, beta: Eval, plies: u8) -> (r: Eval)
    requires
        playable(board),
        -SCORE_INF <= alpha <= SCORE_INF,
        -SCORE_INF <= beta <= SCORE_INF,
    ensures
        r == quiesce_value(board, alpha as int, beta as int, plies as nat),
        -SCORE_INF <= r <= SCORE_INF,
        alpha < beta ==> -SCORE_INF < r < SCORE_INF && r <= beta,
        status_of(board) != GameStatus::Checkmate ==> r >= alpha || r == beta,
    decreases plies,
{
    if board_status(&board) == GameStatus::Checkmate {
        return -SCORE_MATE;
    }
    let cur_eval = evaluate_board(&board);
    if cur_eval >= beta {
        return beta;
    }
    let mut best: Eval = alpha;
    if best < cur_eval {
        best = cur_eval;
    }
    if plies == 0 {
        return best;
    }
    let captures = capture_moves(&board);
        assert(quiesce_value(board, alpha as int, beta as int, plies as nat) == capture_scan(
        board,
        best as int,
        beta as int,
        plies as nat,
        0,
    ));
    let mut i: usize = 0;
    while i < captures.len()
        invariant
            captures@ == captures_of(board),
            playable(board),
            forall|k: int| 0 <= k < captures@.len() ==> is_legal(board, #[trigger] captures@[k]),
            i <= captures@.len(),
            plies > 0,
            -SCORE_INF <= alpha <= SCORE_INF,
            -SCORE_INF <= beta <= SCORE_INF,
            -SCORE_INF <= best <= SCORE_INF,
            alpha < beta ==> -SCORE_INF < best < beta,
            alpha <= best,
            status_of(board) != GameStatus::Checkmate,
            quiesce_value(board, alpha as int, beta as int, plies as nat)
                == capture_scan(board, best as int, beta as int, plies as nat, i as int),
        decreases captures@.len() - i,
    {
        let mv = captures[i];
        let child = board_after(&board, &mv);
        let score = -quiesce(child, -beta, -best, plies - 1);
        assert(capture_scan(board, best as int, beta as int, plies as nat, i as int) == if score >= beta {
            beta as int
        } else {
            capture_scan(
                board,
                if score > best { score as int } else { best as int },
                beta as int,
                plies as nat,
                i as int + 1,
            )
        });
        if score >= beta {
            return beta;
        } else if score > best {
            best = score;
        }
        i = i + 1;
    }
    best
}

/// A table entry's score, when it settles the node: it is at least as deep as
/// the search asked for and inside the score range.
pub open spec fn table_cutoff_spec(entry: Option<TTEntry>, depth: u8) -> Option<i16> {
    match entry {
        Some(e) => if e.depth >= depth && -SCORE_INF < e.eval && e.eval < SCORE_INF {
            Some(e.eval)
        } else {
            None
        },
        None => None,
    }
}

/// Whether a probed entry settles a node searched to `depth`.
pub fn table_cutoff(entry: Option<TTEntry>, depth: u8) -> (r: Option<i16>)
    ensures
        r == table_cutoff_spec(entry, depth),
{
    match entry {
        Some(e) => if e.depth >= depth && -SCORE_INF < e.eval && e.eval < SCORE_INF {
            Some(e.eval)
        } else {
            None
        },
        None => None,
    }
}

/// The window and best score of a node while its moves are searched.
#[derive(Clone, Copy, PartialEq, Eq, Structural, Debug)]
pub struct NodeWindow {
    pub alpha: i16,
    pub beta: i16,
    pub max: i16,
}

/// A node's window before any move is searched.
pub open spec fn start_window(alpha: i16, beta: i16) -> NodeWindow {
    NodeWindow { alpha, beta, max: (-SCORE_INF) as i16 }
}

/// What one searched move does to its node.
#[derive(Clone, Copy, PartialEq, Eq, Structural, Debug)]
pub enum Step {
    /// The move's score reached beta: the node returns that score.
    Cutoff(i16),
    /// Mate-distance pruning ends the node with this score.
    Pruned(i16),
    /// The search goes on in this window.
    Next(NodeWindow),
}

/// One move of a node: beta cutoff; else raise `max`, and `alpha` with it;
/// then mate-distance pruning against `mating`, the score of mating here.
pub open spec fn step_spec(w: NodeWindow, score: i16, mating: i16) -> Step {
    if score >= w.beta {
        Step::Cutoff(score)
    } else {
        let max = if score > w.max { score } else { w.max };
        let alpha = if score > w.max && score > w.alpha { score } else { w.alpha };
        let beta = if mating < w.beta { mating } else { w.beta };
        if mating < w.beta && alpha >= mating {
            Step::Pruned(mating)
        } else if -mating > alpha {
            if beta <= -mating {
                Step::Pruned((-mating) as i16)
            } else {
                Step::Next(NodeWindow { alpha: (-mating) as i16, beta, max })
            }
        } else {
            Step::Next(NodeWindow { alpha, beta, max })
        }
    }
}

/// Applies one searched move's score to a node.
pub fn negamax_step(w: NodeWindow, score: i16, mating: i16) -> (r: Step)
    requires
        0 <= mating <= SCORE_MATE,
    ensures
        r == step_spec(w, score, mating),
{
    if score >= w.beta {
        return Step::Cutoff(score);
    }
    let mut max = w.max;
    let mut alpha = w.alpha;
    let mut beta = w.beta;
    if score > max {
        max = score;
        if score > alpha {
            alpha = score;
        }
    }
    if mating < beta {
        beta = mating;
        if alpha >= mating {
            return Step::Pruned(mating);
        }
    }
    if -mating > alpha {
        alpha = -mating;
        if beta <= -mating {
            return Step::Pruned(-mating);
        }
    }
    Step::Next(NodeWindow { alpha, beta, max })
}

/// The node after the moves with these scores, in order; it stops at the
/// first move that ends it.
pub open spec fn run_steps(w0: NodeWindow, scores: Seq<i16>, mating: i16) -> Step
    decreases scores.len(),
{
    if scores.len() == 0 {
        Step::Next(w0)
    } else {
        match run_steps(w0, scores.drop_last(), mating) {
            Step::Next(w) => step_spec(w, scores.last(), mating),
            done => done,
        }
    }
}

/// What a node at `depth` returns after the moves with these scores.
pub open spec fn node_value(w0: NodeWindow, scores: Seq<i16>, mating: i16, depth: u8) -> int {
    match run_steps(w0, scores, mating) {
        Step::Cutoff(v) => v as int,
        Step::Pruned(v) => v as int,
        Step::Next(w) => mate_adjust_spec(w.max as int, depth as int),
    }
}


/// A move whose score is the mating score itself (it mates at once) ends
/// its node with that score, by a beta cutoff or by mate-distance pruning.
/// At the root (`mating == SCORE_MATE`) a mate in one is thus worth
/// `SCORE_MATE`, not `SCORE_MATE - 1`.
pub proof fn lemma_mate_ends_node(w: NodeWindow, mating: i16)
    requires
        0 <= mating <= SCORE_MATE,
        w.max <= w.alpha < w.beta,
    ensures
        step_spec(w, mating, mating) == Step::Cutoff(mating) || step_spec(w, mating, mating) == Step::Pruned(
            mating,
        ),
{
}

/// The score of a position searched to depth 0 in a window.
pub open spec fn leaf_value(b: chess::Board, alpha: int, beta: int) -> int {
    if status_of(b) == GameStatus::Checkmate {
        -SCORE_MATE
    } else if status_of(b) == GameStatus::Stalemate {
        0
    } else {
        quiesce_value(b, alpha, beta, QUIESCE_PLIES as nat)
    }
}

/// A child's score as a node one ply up sees it, searched in the window `w`:
/// in the score range, of a legal move, and, one ply above the leaves, the
/// negated leaf score (or `table_score`, a score the table supplied).
pub open spec fn child_ok(
    b: chess::Board,
    depth: u8,
    m: chess::ChessMove,
    w: NodeWindow,
    score: i16,
    table_score: Option<(chess::ChessMove, i16)>,
) -> bool {
    &&& -SCORE_INF <= score <= SCORE_INF
    &&& is_legal(b, m)
    &&& depth == 1 ==> (score == -leaf_value(after(b, m), -w.beta, -w.alpha) || table_score == Some((m, score)))
}

/// The moves searched at a node and their scores, each one searched in the
/// window the moves before it left.
pub open spec fn searched_ok(
    b: chess::Board,
    depth: u8,
    w0: NodeWindow,
    moves: Seq<chess::ChessMove>,
    scores: Seq<i16>,
    mating: i16,
    table_score: Option<(chess::ChessMove, i16)>,
) -> bool {
    &&& moves.len() == scores.len()
    &&& forall|i: int|
        0 <= i < scores.len() ==> match #[trigger] run_steps(w0, scores.take(i), mating) {
            Step::Next(w) => child_ok(b, depth, moves[i], w, scores[i], table_score),
            _ => false,
        }
}

pub(crate) proof fn lemma_searched_push(
    b: chess::Board,
    depth: u8,
    w0: NodeWindow,
    moves: Seq<chess::ChessMove>,
    scores: Seq<i16>,
    mating: i16,
    table_score: Option<(chess::ChessMove, i16)>,
    w: NodeWindow,
    m: chess::ChessMove,
    score: i16,
)
    requires
        searched_ok(b, depth, w0, moves, scores, mating, table_score),
        run_steps(w0, scores, mating) == Step::Next(w),
        child_ok(b, depth, m, w, score, table_score),
    ensures
        searched_ok(b, depth, w0, moves.push(m), scores.push(score), mating, table_score),
        run_steps(w0, scores.push(score), mating) == step_spec(w, score, mating),
{
    let s2 = scores.push(score);
    assert(s2.drop_last() =~= scores);
    assert(s2.take(scores.len() as int) =~= scores);
    assert forall|i: int| 0 <= i < s2.len() implies match #[trigger] run_steps(w0, s2.take(i), mating) {
        Step::Next(w1) => child_ok(b, depth, moves.push(m)[i], w1, s2[i], table_score),
        _ => false,
    } by {
        if i < scores.len() {
            assert(s2.take(i) =~= scores.take(i));
        }
    }
}

/// The move ordering hint a probed entry gives: its move, unpacked, with its score.
pub open spec fn hint_of(entry: Option<TTEntry>) -> Option<EvalMove> {
    match entry {
        Some(te) => Some(
            EvalMove {
                mv: choose|m: chess::ChessMove|
                    source_of(m) == te.mv.source_spec() && dest_of(m) == te.mv.dest_spec() && promotion_of(m)
                        == te.mv.promotion_spec(),
                eval: te.eval,
            },
        ),
        None => None,
    }
}

/// The moves of `moves` searched in order, with these scores, until the node
/// ended or every move was searched.
pub open spec fn searched_all(
    b: chess::Board,
    depth: u8,
    w0: NodeWindow,
    moves: Seq<chess::ChessMove>,
    scores: Seq<i16>,
    mating: i16,
    table_score: Option<(chess::ChessMove, i16)>,
) -> bool {
    &&& scores.len() <= moves.len()
    &&& searched_ok(b, depth, w0, moves.take(scores.len() as int), scores, mating, table_score)
    &&& (scores.len() == moves.len() || !(run_steps(w0, scores, mating) is Next))
}

/// What a node in play at `depth` returns, given the entry its probe found:
/// the entry's score when it settles the node; else `node_value` over the
/// moves of `order_moves` (with the entry's hint), searched in order until the
/// node ends.
pub open spec fn node_outcome(
    b: chess::Board,
    entry: Option<TTEntry>,
    alpha: i16,
    beta: i16,
    depth: u8,
    mating: i16,
    r: i16,
) -> bool {
    match table_cutoff_spec(entry, depth) {
        Some(v) => r == v,
        None => exists|ordered: Seq<EvalMove>, scores: Seq<i16>|
            ordered_ok(b, hint_of(entry), ordered) && #[trigger] searched_all(
                b,
                depth,
                start_window(alpha, beta),
                move_list(ordered),
                scores,
                mating,
                None,
            ) && r == node_value(start_window(alpha, beta), scores, mating, depth),
    }
}

/// Negamax search of `board` to `depth` plies in the window `alpha`, `beta`
/// (in any order), `root_distance` plies below the root. Probes and fills the
/// table; mate scores count the distance to the mate. Fail-soft: a beta cutoff
/// returns the cutting move's own score. In play at depth 1 or more the result
/// is `search_node`'s for the entry the probe found, which holds this
/// position's key.
pub fn alphabeta(tt: &TTable, board: chess::Board, alpha: Eval, beta: Eval, depth: u8, root_distance: u8) -> (r: Eval)
    requires
        tt.wf(),
        playable(board),
        -SCORE_INF <= alpha <= SCORE_INF,
        -SCORE_INF <= beta <= SCORE_INF,
        depth as int + root_distance as int <= 255,
    ensures
        -SCORE_INF <= r <= SCORE_INF,
        alpha < beta ==> -SCORE_INF < r < SCORE_INF,
        status_of(board) == GameStatus::Checkmate ==> r == -SCORE_MATE,
        status_of(board) == GameStatus::Stalemate ==> r == 0,
        status_of(board) != GameStatus::Stalemate && depth == 0 ==> r == quiesce_value(
            board,
            alpha as int,
            beta as int,
            QUIESCE_PLIES as nat,
        ),
        status_of(board) == GameStatus::Ongoing && depth >= 1 ==> exists|entry: Option<TTEntry>|
            (entry matches Some(e) ==> e.key16 == hash_of(board) as u16 && e.depth != 0) && #[trigger] node_outcome(
                board,
                entry,
                alpha,
                beta,
                depth,
                (SCORE_MATE - root_distance) as i16,
                r,
            ),
    decreases depth, 1int,
{
    match board_status(&board) {
        GameStatus::Checkmate => {
            return -SCORE_MATE;
        },
        GameStatus::Stalemate => {
            return 0;
        },
        GameStatus::Ongoing => {},
    }
    if depth == 0 {
        return quiesce(board, alpha, beta, QUIESCE_PLIES);
    }
    let (table_entry, handle) = tt.probe(&board);
    search_node(tt, board, table_entry, handle, alpha, beta, depth, root_distance)
}

/// The search of a node in play once its probe found `entry` (and the slot
/// `handle`): returns the entry's score when it settles the node
/// (`table_cutoff`); else searches the moves of `order_moves`, with the
/// entry's move as hint, in order, applying `negamax_step` to each score until
/// the node ends, and saves the result.
pub fn search_node(
    tt: &TTable,
    board: chess::Board,
    entry: Option<TTEntry>,
    handle: (usize, usize),
    alpha: Eval,
    beta: Eval,
    depth: u8,
    root_distance: u8,
) -> (r: Eval)
    requires
        tt.wf(),
        playable(board),
        status_of(board) == GameStatus::Ongoing,
        handle.0 < tt.size(),
        handle.1 < 4,
        -SCORE_INF <= alpha <= SCORE_INF,
        -SCORE_INF <= beta <= SCORE_INF,
        1 <= depth,
        depth as int + root_distance as int <= 255,
    ensures
        -SCORE_INF <= r <= SCORE_INF,
        alpha < beta ==> -SCORE_INF < r < SCORE_INF,
        node_outcome(board, entry, alpha, beta, depth, (SCORE_MATE - root_distance) as i16, r),
    decreases depth, 0int,
{
    let mating_score: Eval = SCORE_MATE - root_distance as Eval;
    // A result at least as deep may be cached. A slot that a colliding key
    // filled may hold any score: one outside the range is not used.
    match table_cutoff(entry, depth) {
        Some(v) => {
            return v;
        },
        None => {},
    }
    let mut best_move: Option<EvalMove> = match entry {
        Some(te) => Some(EvalMove::new(te.mv.to_move(), te.eval)),
        None => None,
    };
    proof {
        match entry {
            Some(te) => {
                let m = best_move.unwrap().mv;
                assert(source_of(m) == te.mv.source_spec() && dest_of(m) == te.mv.dest_spec() && promotion_of(m)
                    == te.mv.promotion_spec());
                assert(best_move == hint_of(entry));
            },
            None => {},
        }
    }
    let ghost w0 = start_window(alpha, beta);
    let mut w = NodeWindow { alpha, beta, max: -SCORE_INF };
    let ghost mut scores: Seq<i16> = seq![];
    let legal = order_moves(&board, best_move);
    let ghost moves = move_list(legal@);
    let mut i: usize = 0;
    while i < legal.len()
        invariant
            tt.wf(),
            playable(board),
            status_of(board) == GameStatus::Ongoing,
            handle.0 < tt.size(),
            handle.1 < 4,
            -SCORE_INF <= w.alpha <= SCORE_INF,
            -SCORE_INF <= w.beta <= SCORE_INF,
            -SCORE_INF <= w.max < SCORE_INF,
            alpha < beta ==> w.alpha < w.beta,
            1 <= depth,
            depth as int + root_distance as int <= 255,
            mating_score == SCORE_MATE - root_distance,
            mating_score == (SCORE_MATE - root_distance) as i16,
            w0 == start_window(alpha, beta),
            moves == move_list(legal@),
            ordered_ok(board, hint_of(entry), legal@),
            table_cutoff_spec(entry, depth) is None,
            forall|k: int| 0 <= k < legal@.len() ==> is_legal(board, (#[trigger] legal@[k]).mv),
            scores.len() == i,
            run_steps(w0, scores, mating_score) == Step::Next(w),
            searched_ok(board, depth, w0, moves.take(i as int), scores, mating_score, None),
            i <= legal@.len(),
        decreases legal@.len() - i,
    {
        let mv = legal[i].mv;
        let pos = board_after(&board, &mv);
        let score = -alphabeta(tt, pos, -w.beta, -w.alpha, depth - 1, root_distance + 1);
        proof {
            assert(moves[i as int] == mv);
            lemma_searched_push(board, depth, w0, moves.take(i as int), scores, mating_score, None, w, mv, score);
            assert(moves.take(i as int).push(mv) =~= moves.take(i as int + 1));
            scores = scores.push(score);
        }
        i = i + 1;
        if score > w.max {
            best_move = Some(EvalMove::new(mv, score));
        }
        let step = negamax_step(w, score, mating_score);
        proof {
            assert(run_steps(w0, scores, mating_score) == step);
            assert(searched_all(board, depth, w0, moves, scores, mating_score, None) || step is Next);
        }
        match step {
            Step::Cutoff(v) => {
                tt.save(handle, &board, mv, v, depth, EntryType::Cut);
                assert(v == node_value(w0, scores, mating_score, depth));
                assert(searched_all(board, depth, w0, moves, scores, mating_score, None));
                return v;
            },
            Step::Pruned(v) => {
                assert(v == node_value(w0, scores, mating_score, depth));
                assert(searched_all(board, depth, w0, moves, scores, mating_score, None));
                return v;
            },
            Step::Next(next) => {
                w = next;
            },
        }
    }
    match best_move {
        Some(em) => {
            tt.save(handle, &board, em.mv, em.eval, depth, final_entry_type(w.max, w.alpha));
        },
        None => {},
    }
    assert(moves.take(i as int) =~= moves);
    assert(searched_all(board, depth, w0, moves, scores, mating_score, None));
    mate_adjust(w.max, depth)
}

/// The type a node saves its best move with: exact when the best score
/// reached alpha, else an upper bound.
pub fn final_entry_type(max: Eval, alpha: Eval) -> (r: EntryType)
    ensures
        r == if max < alpha {
            EntryType::All
        } else {
            EntryType::Pv
        },
{
    if max < alpha {
        EntryType::All
    } else {
        EntryType::Pv
    }
}

/// Moves a mate score one step toward zero, so that a nearer mate scores
/// better than a farther one.
pub open spec fn mate_adjust_spec(max: int, depth: int) -> int {
    if max >= SCORE_MATE - depth {
        max - 1
    } else if max < -SCORE_MATE + depth {
        max + 1
    } else {
        max
    }
}

/// The score a search at `depth` returns for its best score `max`.
pub fn mate_adjust(max: Eval, depth: u8) -> (r: Eval)
    requires
        -SCORE_INF <= max < SCORE_INF,
    ensures
        r == mate_adjust_spec(max as int, depth as int),
        -SCORE_INF < r < SCORE_INF,
{
    if max >= SCORE_MATE - depth as Eval {
        max - 1
    } else if max < -SCORE_MATE + depth as Eval {
        max + 1
    } else {
        max
    }
}

} // verus!
