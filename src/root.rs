//! The per-worker root of the search: the root move list kept across
//! iterations, the root search over it, one iteration of iterative deepening
//! with aspiration windows, and the vote that merges the workers' results.

use vstd::prelude::*;
use std::sync::atomic::{AtomicBool, Ordering};
use crate::board::{
    board_after, board_status, dest_of, hash_of, is_legal, legal_moves, promotion_of, same_move, playable,
    source_of, status_of, GameStatus,
};
use crate::eval::{Eval, SCORE_INF, SCORE_MATE};
use crate::search::{
    alphabeta, final_entry_type, make_move_new, mate_adjust, negamax_step, node_value, run_steps,
    hint_of, lemma_move_list_multiset, lemma_searched_push, move_list, searched_ok, table_cutoff_spec, sort_moves, sorted_desc, start_window, table_cutoff, NodeWindow, Step,
};
use crate::ttable::{EntryType, EvalMove, TTEntry, TTable};

verus! {

/// The root state of one worker.
pub struct RootData {
    pub board: chess::Board,
    /// The root moves, best first as of the last iteration.
    pub moves: Vec<EvalMove>,
    /// The best move of the last completed iteration.
    pub best_move: Option<EvalMove>,
    /// The depth of the next iteration.
    pub root_depth: u8,
    /// The depth of the last completed iteration.
    pub completed_depth: u8,
}

/// Every score in the list is a search score or the `-SCORE_INF` sentinel.
pub open spec fn scores_in_range(moves: Seq<EvalMove>) -> bool {
    forall|i: int| 0 <= i < moves.len() ==> -SCORE_INF <= #[trigger] moves[i].eval <= SCORE_INF
}

impl RootData {
    pub open spec fn wf(&self) -> bool {
        &&& playable(self.board)
        &&& scores_in_range(self.moves@)
        &&& forall|i: int| 0 <= i < self.moves@.len() ==> is_legal(self.board, (#[trigger] self.moves@[i]).mv)
        &&& self.best_move matches Some(em) ==> -SCORE_INF <= em.eval <= SCORE_INF
    }

    /// Root data for `board`, with no moves listed yet.
    pub fn new(board: chess::Board) -> (r: RootData)
        requires
            playable(board),
        ensures
            r.wf(),
            r.board == board,
            r.moves@.len() == 0,
            r.best_move is None,
            r.root_depth == 1,
            r.completed_depth == 0,
    {
        RootData { board, moves: Vec::new(), best_move: None, root_depth: 1, completed_depth: 0 }
    }

    /// Forgets the progress of the last search: the next iteration is at depth 1.
    pub fn clear(&mut self)
        ensures
            final(self).board == old(self).board,
            final(self).moves == old(self).moves,
            final(self).best_move is None,
            final(self).root_depth == 1,
            final(self).completed_depth == 0,
    {
        self.best_move = None;
        self.root_depth = 1;
        self.completed_depth = 0;
    }

    /// Sets up a search of `board`: every legal move, unscored.
    pub fn populate(&mut self, board: &chess::Board)
        requires
            playable(*board),
        ensures
            final(self).wf(),
            final(self).board == *board,
            final(self).moves@.len() == crate::board::legal_moves_of(*board).len(),
            (status_of(*board) == GameStatus::Ongoing) <==> final(self).moves@.len() > 0,
            forall|i: int|
                0 <= i < final(self).moves@.len() ==> (#[trigger] final(self).moves@[i]).mv
                    == crate::board::legal_moves_of(*board)[i] && final(self).moves@[i].eval == -SCORE_INF,
            final(self).best_move is None,
            final(self).root_depth == 1,
            final(self).completed_depth == 0,
    {
        self.clear();
        self.board = *board;
        let legal = legal_moves(board);
        let mut moves: Vec<EvalMove> = Vec::new();
        let mut i: usize = 0;
        while i < legal.len()
            invariant
                i <= legal@.len(),
                moves@.len() == i,
                forall|k: int|
                    0 <= k < i ==> (#[trigger] moves@[k]).mv == legal@[k] && moves@[k].eval == -SCORE_INF,
            decreases legal@.len() - i,
        {
            moves.push(EvalMove::new(legal[i], -SCORE_INF));
            i = i + 1;
        }
        self.moves = moves;
    }

    /// Searches the root moves, in list order, in the window `alpha`, `beta`
    /// (in any order) to `depth`. Each searched move's score is kept for the
    /// next iteration's order (`kept_score_spec`). Returns the node's value
    /// and whether `stop` was seen; then the value is 0 and the move in
    /// progress is left as it was. See `root_outcome`.
    pub fn root_search(&mut self, tt: &TTable, stop: &AtomicBool, alpha: Eval, beta: Eval, depth: u8) -> (r: (
        Eval,
        bool,
    ))
        requires
            tt.wf(),
            old(self).wf(),
            -SCORE_INF <= alpha <= SCORE_INF,
            -SCORE_INF <= beta <= SCORE_INF,
            1 <= depth,
        ensures
            final(self).wf(),
            -SCORE_INF <= r.0 <= SCORE_INF,
            alpha < beta && !r.1 ==> -SCORE_INF < r.0 < SCORE_INF,
            r.1 ==> r.0 == 0,
            final(self).board == old(self).board,
            final(self).best_move == old(self).best_move,
            final(self).root_depth == old(self).root_depth,
            final(self).completed_depth == old(self).completed_depth,
            final(self).moves@.len() == old(self).moves@.len(),
            forall|i: int|
                0 <= i < old(self).moves@.len() ==> (#[trigger] final(self).moves@[i]).mv
                    == old(self).moves@[i].mv,
            status_of(old(self).board) == GameStatus::Checkmate ==> r.0 == -SCORE_MATE && !r.1,
            status_of(old(self).board) == GameStatus::Stalemate ==> r.0 == 0 && !r.1,
            status_of(old(self).board) != GameStatus::Ongoing ==> final(self).moves@ == old(self).moves@,
            status_of(old(self).board) == GameStatus::Ongoing ==> exists|entry: Option<TTEntry>, scores: Seq<i16>|
                (entry matches Some(e) ==> e.key16 == hash_of(old(self).board) as u16 && e.depth != 0)
                    && #[trigger] root_outcome(
                    old(self).board,
                    entry,
                    old(self).moves@,
                    final(self).moves@,
                    alpha,
                    beta,
                    depth,
                    scores,
                    r,
                ),
    {
        match board_status(&self.board) {
            GameStatus::Checkmate => {
                return (-SCORE_MATE, false);
            },
            GameStatus::Stalemate => {
                return (0, false);
            },
            GameStatus::Ongoing => {},
        }
        let mating_score: Eval = SCORE_MATE;
        let (table_entry, handle) = tt.probe(&self.board);
        let mut best_move: Option<EvalMove> = None;
        let table_score = table_cutoff(table_entry, depth);
        let tt_move: Option<chess::ChessMove> = match table_entry {
            Some(te) => Some(te.mv.to_move()),
            None => None,
        };
        let ghost ts = root_table_score(table_entry, depth);
        proof {
            match table_entry {
                Some(te) => {
                    let m = tt_move.unwrap();
                    assert(source_of(m) == te.mv.source_spec() && dest_of(m) == te.mv.dest_spec()
                        && promotion_of(m) == te.mv.promotion_spec());
                    assert(hint_of(table_entry).unwrap().mv == m);
                },
                None => {},
            }
        }
        let ghost w0 = start_window(alpha, beta);
        let mut w = NodeWindow { alpha, beta, max: -SCORE_INF };
        let ghost mut scores: Seq<i16> = seq![];
        let ghost moves0 = self.moves@;
        let mut i: usize = 0;
        while i < self.moves.len()
            invariant
                tt.wf(),
                handle.0 < tt.size(),
                handle.1 < 4,
                -SCORE_INF <= w.alpha <= SCORE_INF,
                -SCORE_INF <= w.beta <= SCORE_INF,
                -SCORE_INF <= w.max < SCORE_INF,
                alpha < beta ==> w.alpha < w.beta,
                1 <= depth,
                mating_score == SCORE_MATE,
                w0 == start_window(alpha, beta),
                ts == root_table_score(table_entry, depth),
                table_entry matches Some(e) ==> e.key16 == hash_of(old(self).board) as u16 && e.depth != 0,
                table_score is Some && tt_move is Some ==> ts == Some((tt_move.unwrap(), table_score.unwrap())),
                table_score is Some ==> tt_move is Some,
                scores.len() == i,
                run_steps(w0, scores, mating_score) == Step::Next(w),
                searched_ok(self.board, depth, w0, move_list(moves0).take(i as int), scores, mating_score, ts),
                i <= self.moves@.len(),
                moves0 == old(self).moves@,
                status_of(old(self).board) == GameStatus::Ongoing,
                self.moves@.len() == moves0.len(),
                self.wf(),
                forall|k: int| 0 <= k < moves0.len() ==> (#[trigger] self.moves@[k]).mv == moves0[k].mv,
                forall|k: int| 0 <= k < i ==> kept_rule(w0, scores, k, (#[trigger] self.moves@[k]).eval),
                forall|k: int| i <= k < moves0.len() ==> (#[trigger] self.moves@[k]).eval == moves0[k].eval,
                self.board == old(self).board,
                self.best_move == old(self).best_move,
                self.root_depth == old(self).root_depth,
                self.completed_depth == old(self).completed_depth,
            decreases self.moves@.len() - i,
        {
            if stop.load(Ordering::Acquire) {
                proof {
                    assert(root_outcome(old(self).board, table_entry, moves0, self.moves@, alpha, beta, depth, scores, (0, true)));
                }
                return (0, true);
            }
            let mv = self.moves[i].mv;
            let pos = board_after(&self.board, &mv);
            let reuse: Option<i16> = match (tt_move, table_score) {
                (Some(m), Some(v)) => if same_move(&m, &mv) {
                    Some(v)
                } else {
                    None
                },
                _ => None,
            };
            let value: Eval = match reuse {
                Some(v) => v,
                None => -alphabeta(tt, pos, -w.beta, -w.alpha, depth - 1, 1),
            };
            if stop.load(Ordering::Acquire) {
                proof {
                    assert(root_outcome(old(self).board, table_entry, moves0, self.moves@, alpha, beta, depth, scores, (0, true)));
                }
                return (0, true);
            }
            proof {
                assert(move_list(moves0)[i as int] == mv);
                lemma_searched_push(self.board, depth, w0, move_list(moves0).take(i as int), scores, mating_score, ts, w, mv, value);
                assert(move_list(moves0).take(i as int).push(mv) =~= move_list(moves0).take(i as int + 1));
            }
            let ghost old_scores = scores;
            proof {
                scores = scores.push(value);
            }
            self.moves.set(i, EvalMove::new(mv, kept_score(value, w.alpha)));
            proof {
                assert(scores.take(i as int) =~= old_scores);
                assert forall|k: int| 0 <= k < i + 1 implies kept_rule(w0, scores, k, (#[trigger] self.moves@[k]).eval) by {
                    assert(scores.take(k) =~= old_scores.take(k));
                }
            }
            i = i + 1;
            if value > w.max {
                best_move = Some(EvalMove::new(mv, value));
            }
            let step = negamax_step(w, value, mating_score);
            proof {
                assert(run_steps(w0, scores, mating_score) == step);
            }
            match step {
                Step::Cutoff(v) => {
                    tt.save(handle, &self.board, mv, v, depth, EntryType::Cut);
                    assert(root_outcome(old(self).board, table_entry, moves0, self.moves@, alpha, beta, depth, scores, (v, false)));
                    return (v, false);
                },
                Step::Pruned(v) => {
                    assert(root_outcome(old(self).board, table_entry, moves0, self.moves@, alpha, beta, depth, scores, (v, false)));
                    return (v, false);
                },
                Step::Next(next) => {
                    w = next;
                },
            }
        }
        match best_move {
            Some(em) => {
                tt.save(handle, &self.board, em.mv, em.eval, depth, final_entry_type(w.max, w.alpha));
            },
            None => {},
        }
        let v = mate_adjust(w.max, depth);
        assert(move_list(moves0).take(i as int) =~= move_list(moves0));
        assert(root_outcome(old(self).board, table_entry, moves0, self.moves@, alpha, beta, depth, scores, (v, false)));
        (v, false)
    }

    /// One iteration of iterative deepening at `root_depth`. The first window
    /// is `first_window_spec` around the last best score (else the first
    /// move's); each root search runs at `reduced_depth_spec` and
    /// `aspiration_step` decides whether to search again and in what window.
    /// Returns whether the iteration completed without `stop`; then its best
    /// move, the top of the re-sorted list, is recorded.
    pub fn deepen(&mut self, tt: &TTable, stop: &AtomicBool) -> (completed: bool)
        requires
            tt.wf(),
            old(self).wf(),
            old(self).root_depth < 255,
        ensures
            final(self).wf(),
            final(self).board == old(self).board,
            final(self).root_depth == old(self).root_depth + 1,
            final(self).moves@.len() == old(self).moves@.len(),
            sorted_desc(final(self).moves@),
            move_list(final(self).moves@).to_multiset() == move_list(old(self).moves@).to_multiset(),
            completed ==> old(self).moves@.len() > 0 && final(self).completed_depth == old(self).root_depth
                && final(self).best_move == Some(final(self).moves@[0]),
            !completed ==> final(self).completed_depth == old(self).completed_depth && final(self).best_move
                == old(self).best_move,
    {
        let depth = self.root_depth;
        let prev: i32 = match self.best_move {
            Some(em) => em.eval as i32,
            None => if self.moves.len() > 0 {
                self.moves[0].eval as i32
            } else {
                0
            },
        };
        let window = first_window(depth, prev);
        let mut alpha: i32 = window.0;
        let mut beta: i32 = window.1;
        let mut delta: i32 = window.2;
        let ghost moves_len = self.moves@.len();
        let mut failed_high_count: u8 = 0;
        loop
            invariant
                tt.wf(),
                self.wf(),
                -SCORE_INF <= alpha <= SCORE_INF,
                -SCORE_INF <= beta <= SCORE_INF,
                17 <= delta,
                self.board == old(self).board,
                self.root_depth == depth,
                depth == old(self).root_depth,
                self.completed_depth == old(self).completed_depth,
                self.best_move == old(self).best_move,
                self.moves@.len() == moves_len,
                moves_len == old(self).moves@.len(),
                move_list(self.moves@).to_multiset() == move_list(old(self).moves@).to_multiset(),
            ensures
                tt.wf(),
                self.wf(),
                sorted_desc(self.moves@),
                self.board == old(self).board,
                self.root_depth == depth,
                depth == old(self).root_depth,
                self.completed_depth == old(self).completed_depth,
                self.best_move == old(self).best_move,
                self.moves@.len() == old(self).moves@.len(),
                move_list(self.moves@).to_multiset() == move_list(old(self).moves@).to_multiset(),
            decreases i32::MAX - delta,
        {
            let adj_depth = reduced_depth(depth, failed_high_count);
            let ghost searched = self.moves@;
            let (value, _) = self.root_search(tt, stop, alpha as i16, beta as i16, adj_depth);
            let ghost before = self.moves@;
            proof {
                assert(move_list(before) =~= move_list(searched));
            }
            sort_moves(&mut self.moves);
            proof {
                lemma_sorted_scores_in_range(self.board, before, self.moves@);
                lemma_move_list_multiset(self.moves@, before);
            }
            if stop.load(Ordering::Acquire) {
                break;
            }
            match aspiration_step(value as i32, alpha, beta, delta, failed_high_count) {
                Some(next) => {
                    alpha = next.0;
                    beta = next.1;
                    delta = next.2;
                    failed_high_count = next.3;
                },
                None => {
                    break;
                },
            }
        }
        let completed = !stop.load(Ordering::Acquire) && self.moves.len() > 0;
        if completed {
            self.completed_depth = self.root_depth;
            self.best_move = Some(self.moves[0]);
        }
        self.root_depth = self.root_depth + 1;
        completed
    }

    /// This worker's vote: its best move, that move's score, and the depth it
    /// was found at; nothing before an iteration completes.
    pub fn vote(&self) -> (r: Option<(chess::ChessMove, Eval, u8)>)
        ensures
            r == match self.best_move {
                Some(em) => Some((em.mv, em.eval, self.completed_depth)),
                None => None,
            },
    {
        match self.best_move {
            Some(em) => Some((em.mv, em.eval, self.completed_depth)),
            None => None,
        }
    }
}


/// The half-width of the first aspiration window around `prev`: 17, plus
/// `prev * (prev / 16384)` with the quotient rounded toward zero, which adds
/// `|prev|` once `|prev|` reaches 16384.
pub open spec fn aspiration_delta(prev: int) -> int {
    if prev >= 16384 {
        17 + prev
    } else if prev <= -16384 {
        17 - prev
    } else {
        17
    }
}

/// The first aspiration window around `prev`, clamped to the score range,
/// and its half-width.
pub fn aspiration_window(prev: i32) -> (r: (i32, i32, i32))
    requires
        -SCORE_INF <= prev <= SCORE_INF,
    ensures
        r.2 == aspiration_delta(prev as int),
        r.0 == if prev - r.2 > -SCORE_INF { prev - r.2 } else { -SCORE_INF as int },
        r.1 == if prev + r.2 < SCORE_INF { prev + r.2 } else { SCORE_INF as int },
        -SCORE_INF <= r.0 < r.1 <= SCORE_INF,
        r.2 >= 17,
{
    let quotient: i32 = if prev >= 16384 {
        1
    } else if prev <= -16384 {
        -1
    } else {
        0
    };
    let delta: i32 = 17 + prev * quotient;
    let alpha = if prev - delta > -(SCORE_INF as i32) {
        prev - delta
    } else {
        -(SCORE_INF as i32)
    };
    let beta = if prev + delta < SCORE_INF as i32 {
        prev + delta
    } else {
        SCORE_INF as i32
    };
    (alpha, beta, delta)
}


/// The search depth after `failed_high` fail-highs at `depth`: one less per
/// fail-high, and at least 1.
pub open spec fn reduced_depth_spec(depth: u8, failed_high: u8) -> u8 {
    if depth as int - failed_high as int > 1 {
        (depth - failed_high) as u8
    } else {
        1
    }
}

pub fn reduced_depth(depth: u8, failed_high: u8) -> (r: u8)
    ensures
        r == reduced_depth_spec(depth, failed_high),
        r >= 1,
{
    if depth > failed_high && depth - failed_high > 1 {
        depth - failed_high
    } else {
        1
    }
}

/// The first window of an iteration at `depth`: every score below depth 4,
/// else the aspiration window around `prev`; and its half-width.
pub open spec fn first_window_spec(depth: u8, prev: int) -> (int, int, int) {
    if depth < 4 {
        (-SCORE_INF as int, SCORE_INF as int, 17)
    } else {
        let d = aspiration_delta(prev);
        (
            if prev - d > -SCORE_INF { prev - d } else { -SCORE_INF as int },
            if prev + d < SCORE_INF { prev + d } else { SCORE_INF as int },
            d,
        )
    }
}

pub fn first_window(depth: u8, prev: i32) -> (r: (i32, i32, i32))
    requires
        -SCORE_INF <= prev <= SCORE_INF,
    ensures
        (r.0 as int, r.1 as int, r.2 as int) == first_window_spec(depth, prev as int),
        -SCORE_INF <= r.0 < r.1 <= SCORE_INF,
        17 <= r.2,
{
    if depth < 4 {
        (-(SCORE_INF as i32), SCORE_INF as i32, 17)
    } else {
        aspiration_window(prev)
    }
}

/// The next half-width: a quarter more and 5, saturating at `i32::MAX`.
pub open spec fn widen(delta: int) -> int {
    if delta + delta / 4 + 5 > i32::MAX {
        i32::MAX as int
    } else {
        delta + delta / 4 + 5
    }
}

/// Half of `x`, rounded toward zero.
pub open spec fn half_toward_zero(x: int) -> int {
    if x >= 0 {
        x / 2
    } else {
        -((-x) / 2)
    }
}

/// `x` kept within the score range (the search's arithmetic saturates there).
pub open spec fn clamp_score(x: int) -> int {
    if x < -SCORE_INF {
        -SCORE_INF as int
    } else if x > SCORE_INF {
        SCORE_INF as int
    } else {
        x
    }
}

/// After a root search gave `value` in the window `alpha`, `beta` with
/// half-width `delta` and `failed_high` fail-highs so far: nothing when the
/// value is strictly inside the window; on a fail low, alpha drops to
/// `value - delta` and beta becomes `alpha + beta / 2`, both kept within the
/// score range, and the count restarts; on a fail high, beta rises to
/// `value + delta` (at most `SCORE_INF`) and the count grows. The half-width
/// widens either way. Once it can widen no more (`i32::MAX`) the loop ends.
pub open spec fn aspiration_step_spec(value: int, alpha: int, beta: int, delta: int, failed_high: u8) -> Option<
    (int, int, int, u8),
> {
    if alpha < value && value < beta {
        None
    } else if delta >= i32::MAX {
        None
    } else if value <= alpha {
        Some((clamp_score(value - delta), clamp_score(alpha + half_toward_zero(beta)), widen(delta), 0))
    } else {
        Some(
            (
                alpha,
                clamp_score(value + delta),
                widen(delta),
                if failed_high < 255 { (failed_high + 1) as u8 } else { 255 },
            ),
        )
    }
}

/// One decision of the aspiration loop; see `aspiration_step_spec`.
pub fn aspiration_step(value: i32, alpha: i32, beta: i32, delta: i32, failed_high: u8) -> (r: Option<(i32, i32, i32, u8)>)
    requires
        -SCORE_INF <= value <= SCORE_INF,
        -SCORE_INF <= alpha <= SCORE_INF,
        -SCORE_INF <= beta <= SCORE_INF,
        17 <= delta,
    ensures
        r is None <==> aspiration_step_spec(value as int, alpha as int, beta as int, delta as int, failed_high) is None,
        r matches Some(t) ==> aspiration_step_spec(value as int, alpha as int, beta as int, delta as int, failed_high)
            == Some((t.0 as int, t.1 as int, t.2 as int, t.3)),
        r matches Some(t) ==> -SCORE_INF <= t.0 <= SCORE_INF && -SCORE_INF <= t.1 <= SCORE_INF && delta < t.2,
{
    if alpha < value && value < beta {
        return None;
    }
    if delta == i32::MAX {
        return None;
    }
    let wide: i64 = delta as i64 + delta as i64 / 4 + 5;
    let new_delta: i32 = if wide > i32::MAX as i64 {
        i32::MAX
    } else {
        wide as i32
    };
    if value <= alpha {
        let half_beta: i64 = if beta >= 0 {
            beta as i64 / 2
        } else {
            -((-(beta as i64)) / 2)
        };
        Some((clamp_wide(value as i64 - delta as i64), clamp_wide(alpha as i64 + half_beta), new_delta, 0))
    } else {
        let count = if failed_high < 255 {
            failed_high + 1
        } else {
            255
        };
        Some((alpha, clamp_wide(value as i64 + delta as i64), new_delta, count))
    }
}

/// `x` kept within the score range.
fn clamp_wide(x: i64) -> (r: i32)
    ensures
        r == clamp_score(x as int),
{
    if x < -(SCORE_INF as i64) {
        -(SCORE_INF as i32)
    } else if x > SCORE_INF as i64 {
        SCORE_INF as i32
    } else {
        x as i32
    }
}

proof fn lemma_sorted_scores_in_range(b: chess::Board, before: Seq<EvalMove>, after: Seq<EvalMove>)
    requires
        scores_in_range(before),
        forall|i: int| 0 <= i < before.len() ==> is_legal(b, (#[trigger] before[i]).mv),
        after.to_multiset() == before.to_multiset(),
    ensures
        scores_in_range(after),
        forall|i: int| 0 <= i < after.len() ==> is_legal(b, (#[trigger] after[i]).mv),
{
    broadcast use vstd::seq_lib::group_to_multiset_ensures;

    assert forall|i: int| 0 <= i < after.len() implies is_legal(b, (#[trigger] after[i]).mv) by {
        assert(after.contains(after[i]));
        assert(after.to_multiset().contains(after[i]));
        assert(before.contains(after[i]));
        let j = choose|j: int| 0 <= j < before.len() && before[j] == after[i];
        assert(is_legal(b, before[j].mv));
    }
    assert forall|i: int| 0 <= i < after.len() implies -SCORE_INF <= #[trigger] after[i].eval <= SCORE_INF by {
        assert(after.contains(after[i]));
        assert(after.to_multiset().contains(after[i]));
        assert(before.contains(after[i]));
        let j = choose|j: int| 0 <= j < before.len() && before[j] == after[i];
        assert(-SCORE_INF <= before[j].eval <= SCORE_INF);
    }
}



/// The score the table supplies at the root, with the move it belongs to:
/// the probed entry's score when it is usable at `depth`.
pub open spec fn root_table_score(entry: Option<TTEntry>, depth: u8) -> Option<(chess::ChessMove, i16)> {
    match (table_cutoff_spec(entry, depth), hint_of(entry)) {
        (Some(v), Some(h)) => Some((h.mv, v)),
        _ => None,
    }
}

/// The score a root move keeps for the next iteration's order.
pub open spec fn kept_score_spec(value: i16, alpha: i16) -> i16 {
    if value > alpha {
        value
    } else {
        (-SCORE_INF) as i16
    }
}

/// The `k`-th searched root move keeps `kept_score_spec` of its score against
/// the alpha in force when it was searched.
pub open spec fn kept_rule(w0: NodeWindow, scores: Seq<i16>, k: int, eval: i16) -> bool {
    match run_steps(w0, scores.take(k), SCORE_MATE) {
        Step::Next(w) => eval == kept_score_spec(scores[k], w.alpha),
        _ => false,
    }
}

/// What a root search in play does, given the entry its probe found: the moves
/// of `before`, in order, are searched with these scores (a move may take the
/// usable table score of the entry's own move); each searched move keeps
/// `kept_rule`, the others keep their score. Unless stopped, the search went on
/// until the node ended or every move was searched, and the value is
/// `node_value`; when stopped, the value is 0.
pub open spec fn root_outcome(
    b: chess::Board,
    entry: Option<TTEntry>,
    before: Seq<EvalMove>,
    after: Seq<EvalMove>,
    alpha: i16,
    beta: i16,
    depth: u8,
    scores: Seq<i16>,
    r: (i16, bool),
) -> bool {
    let w0 = start_window(alpha, beta);
    let moves = move_list(before);
    &&& scores.len() <= before.len()
    &&& after.len() == before.len()
    &&& searched_ok(b, depth, w0, moves.take(scores.len() as int), scores, SCORE_MATE, root_table_score(entry, depth))
    &&& forall|k: int| 0 <= k < scores.len() ==> kept_rule(w0, scores, k, (#[trigger] after[k]).eval)
    &&& forall|k: int| scores.len() <= k < before.len() ==> (#[trigger] after[k]).eval == before[k].eval
    &&& r.1 ==> r.0 == 0
    &&& !r.1 ==> (scores.len() == before.len() || !(run_steps(w0, scores, SCORE_MATE) is Next)) && r.0
        == node_value(w0, scores, SCORE_MATE, depth)
}

/// The score a root move keeps for the next iteration's order: its value when
/// it raised `alpha`, else the `-SCORE_INF` sentinel.
pub fn kept_score(value: Eval, alpha: Eval) -> (r: Eval)
    ensures
        r == if value > alpha {
            value as int
        } else {
            -SCORE_INF as int
        },
{
    if value > alpha {
        value
    } else {
        -SCORE_INF
    }
}

/// A worker's vote: its best move, that move's score, and its completed depth.
pub type Vote = (chess::ChessMove, Eval, u8);

/// The lowest score among the first `n` votes.
pub open spec fn min_score(votes: Seq<Vote>, n: int) -> int
    decreases n,
{
    if n <= 1 {
        votes[0].1 as int
    } else {
        let m = min_score(votes, n - 1);
        if (votes[n - 1].1 as int) < m {
            votes[n - 1].1 as int
        } else {
            m
        }
    }
}

/// A vote's weight: its score's margin over the lowest score, plus 14, times
/// its depth.
pub open spec fn vote_weight(v: Vote, min: int) -> int {
    (v.1 as int - min + 14) * v.2 as int
}

/// The summed weight of the votes for `mv` among the first `n`.
pub open spec fn move_weight(votes: Seq<Vote>, mv: chess::ChessMove, min: int, n: int) -> int
    decreases n,
{
    if n <= 0 {
        0
    } else {
        move_weight(votes, mv, min, n - 1) + if votes[n - 1].0 == mv {
            vote_weight(votes[n - 1], min)
        } else {
            0
        }
    }
}

/// The summed weight of every vote for `mv`.
pub open spec fn total_weight(votes: Seq<Vote>, mv: chess::ChessMove) -> int {
    move_weight(votes, mv, min_score(votes, votes.len() as int), votes.len() as int)
}

proof fn lemma_min_score(votes: Seq<Vote>, n: int)
    requires
        1 <= n <= votes.len(),
    ensures
        forall|k: int| 0 <= k < n ==> min_score(votes, n) <= (#[trigger] votes[k]).1,
        exists|k: int| 0 <= k < n && min_score(votes, n) == (#[trigger] votes[k]).1,
    decreases n,
{
    if n > 1 {
        lemma_min_score(votes, n - 1);
        if (votes[n - 1].1 as int) < min_score(votes, n - 1) {
            assert(min_score(votes, n) == votes[n - 1].1);
        } else {
            let k = choose|k: int| 0 <= k < n - 1 && min_score(votes, n - 1) == (#[trigger] votes[k]).1;
            assert(min_score(votes, n) == votes[k].1);
        }
    } else {
        assert(min_score(votes, n) == votes[0].1);
    }
}

/// The lowest score among the votes.
fn lowest_score(votes: &Vec<Vote>) -> (r: i16)
    requires
        votes@.len() >= 1,
    ensures
        r == min_score(votes@, votes@.len() as int),
{
    let mut m: i16 = votes[0].1;
    let mut i: usize = 1;
    while i < votes.len()
        invariant
            1 <= i <= votes@.len(),
            m == min_score(votes@, i as int),
        decreases votes@.len() - i,
    {
        if votes[i].1 < m {
            m = votes[i].1;
        }
        i = i + 1;
    }
    m
}

/// The summed weight of the votes for `mv`.
fn weight_of(votes: &Vec<Vote>, mv: &chess::ChessMove, min: i16) -> (r: i64)
    requires
        votes@.len() <= 0xffff_ffff,
        forall|k: int| 0 <= k < votes@.len() ==> min <= (#[trigger] votes@[k]).1,
    ensures
        r == move_weight(votes@, *mv, min as int, votes@.len() as int),
{
    let mut total: i64 = 0;
    let mut j: usize = 0;
    while j < votes.len()
        invariant
            j <= votes@.len(),
            votes@.len() <= 0xffff_ffff,
            forall|k: int| 0 <= k < votes@.len() ==> min <= (#[trigger] votes@[k]).1,
            total == move_weight(votes@, *mv, min as int, j as int),
            0 <= total <= 16_714_995 * j,
        decreases votes@.len() - j,
    {
        let (m, score, depth) = votes[j];
        if same_move(&m, mv) {
            let margin: i64 = score as i64 - min as i64 + 14;
            proof {
                assert(0 <= margin * depth <= 16_714_995) by (nonlinear_arith)
                    requires
                        14 <= margin <= 65549,
                        depth <= 255,
                ;
            }
            total = total + margin * depth as i64;
        }
        j = j + 1;
    }
    total
}

/// Merges the workers' votes: each vote weighs its score's margin over the
/// lowest score, plus 14, times its depth, and the move with the greatest
/// summed weight wins. Nothing when there are no votes.
pub fn elect_best_move(votes: &Vec<Vote>) -> (r: Option<chess::ChessMove>)
    requires
        votes@.len() <= 0xffff_ffff,
    ensures
        r is None <==> votes@.len() == 0,
        r matches Some(m) ==> exists|i: int| 0 <= i < votes@.len() && (#[trigger] votes@[i]).0 == m,
        r matches Some(m) ==> forall|i: int|
            0 <= i < votes@.len() ==> total_weight(votes@, (#[trigger] votes@[i]).0) <= total_weight(votes@, m),
        votes@.len() == 1 ==> r == Some(votes@[0].0),
{
    if votes.len() == 0 {
        return None;
    }
    let min = lowest_score(votes);
    proof {
        lemma_min_score(votes@, votes@.len() as int);
    }
    let mut best: usize = 0;
    let mut best_weight: i64 = weight_of(votes, &votes[0].0, min);
    let mut i: usize = 1;
    while i < votes.len()
        invariant
            1 <= i <= votes@.len(),
            votes@.len() <= 0xffff_ffff,
            min == min_score(votes@, votes@.len() as int),
            forall|k: int| 0 <= k < votes@.len() ==> min <= (#[trigger] votes@[k]).1,
            best < votes@.len(),
            best_weight == total_weight(votes@, votes@[best as int].0),
            forall|k: int| 0 <= k < i ==> total_weight(votes@, (#[trigger] votes@[k]).0) <= best_weight,
        decreases votes@.len() - i,
    {
        let w = weight_of(votes, &votes[i].0, min);
        if w > best_weight {
            best = i;
            best_weight = w;
        }
        i = i + 1;
    }
    Some(votes[best].0)
}

} // verus!
