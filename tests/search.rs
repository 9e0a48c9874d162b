use std::str::FromStr;
use std::sync::atomic::AtomicBool;

use chess::{Board, BoardStatus, ChessMove, Square};
use transparov::eval::{evaluate_board, piece_value, SCORE_INF, SCORE_MATE};
use transparov::root::{aspiration_window, elect_best_move, RootData};
use transparov::search::{alphabeta, make_move_new, mate_adjust, order_moves, quiesce, sort_moves, QUIESCE_PLIES};
use transparov::ttable::{EvalMove, TTable};

const SCHOLARS_MATE: &str = "r1bqkbnr/pppp1Qpp/2n5/4p3/2B1P3/8/PPPP1PPP/RNB1K1NR b KQkq - 0 3";
const BACK_RANK: &str = "6k1/5ppp/8/8/8/8/5PPP/R5K1 w - - 0 1";

fn board(fen: &str) -> Board {
    Board::from_str(fen).unwrap()
}

#[test]
fn mated_position_scores_mate_and_yields_no_move() {
    let b = board(SCHOLARS_MATE);
    assert_eq!(b.status(), BoardStatus::Checkmate);
    let tt = TTable::new(1);
    assert_eq!(alphabeta(&tt, b, -SCORE_INF, SCORE_INF, 4, 0), -SCORE_MATE);
    assert_eq!(alphabeta(&tt, b, -100, 100, 2, 3), -SCORE_MATE);
    let stop = AtomicBool::new(false);
    let mut root = RootData::new(b);
    root.populate(&b);
    assert!(root.moves.is_empty());
    for _ in 0..4 {
        assert!(!root.deepen(&tt, &stop));
    }
    assert_eq!(root.root_depth, 5);
    assert!(root.vote().is_none());
    assert_eq!(elect_best_move(&Vec::new()), None);
}

#[test]
fn finds_back_rank_mate() {
    let b = board(BACK_RANK);
    let tt = TTable::new(1);
    let stop = AtomicBool::new(false);
    let mut root = RootData::new(b);
    root.populate(&b);
    assert!(root.deepen(&tt, &stop));
    assert!(root.deepen(&tt, &stop));
    assert_eq!(root.completed_depth, 2);
    let best = root.best_move.unwrap();
    assert_eq!(best.mv, ChessMove::new(Square::A1, Square::A8, None));
    assert!(best.eval >= SCORE_MATE - 2);
    let (mv, score, depth) = root.vote().unwrap();
    assert_eq!(mv, best.mv);
    assert_eq!(score, best.eval);
    assert_eq!(depth, 2);
    assert_eq!(elect_best_move(&vec![(mv, score, depth)]), Some(mv));
}

#[test]
fn stopped_search_completes_nothing() {
    let b = Board::default();
    let tt = TTable::new(1);
    let stop = AtomicBool::new(true);
    let mut root = RootData::new(b);
    root.populate(&b);
    assert_eq!(root.moves.len(), 20);
    assert!(!root.deepen(&tt, &stop));
    assert!(root.best_move.is_none());
    assert_eq!(root.completed_depth, 0);
    assert_eq!(root.root_depth, 2);
}

#[test]
fn depth_zero_is_quiescence() {
    for fen in [
        "rnbqkbnr/pppppppp/8/8/8/8/PPPPPPPP/RNBQKBNR w KQkq - 0 1",
        "r1bqkbnr/pppp1ppp/2n5/4p3/3PP3/5N2/PPP2PPP/RNBQKB1R b KQkq - 0 3",
        "4k3/8/3p4/4r3/3P4/8/8/4K2Q w - - 0 1",
    ] {
        let b = board(fen);
        let tt = TTable::new(1);
        let q = quiesce(b, -SCORE_INF, SCORE_INF, QUIESCE_PLIES);
        assert_eq!(alphabeta(&tt, b, -SCORE_INF, SCORE_INF, 0, 0), q);
        assert!(q > -SCORE_INF && q < SCORE_INF);
    }
}

#[test]
fn quiescence_takes_a_free_rook() {
    // White to move can take the rook on e5 with the pawn on d4.
    let b = board("4k3/8/8/4r3/3P4/8/8/4K3 w - - 0 1");
    assert_eq!(evaluate_board(&b), 100 - 500);
    assert_eq!(quiesce(b, -SCORE_INF, SCORE_INF, QUIESCE_PLIES), 100);
    // Without plies for captures only the static score counts.
    assert_eq!(quiesce(b, -SCORE_INF, SCORE_INF, 0), -400);
    // Fail hard at beta.
    assert_eq!(quiesce(b, -SCORE_INF, 50, QUIESCE_PLIES), 50);
}

#[test]
fn material_evaluation() {
    assert_eq!(evaluate_board(&Board::default()), 0);
    assert_eq!(evaluate_board(&board("4k3/8/8/8/8/8/8/3QK3 w - - 0 1")), 900);
    assert_eq!(evaluate_board(&board("4k3/8/8/8/8/8/8/3QK3 b - - 0 1")), -900);
    assert_eq!(evaluate_board(&board("4k3/pp6/8/8/8/8/8/2B1K1N1 w - - 0 1")), 400);
    assert_eq!(piece_value(0), 100);
    assert_eq!(piece_value(2), 300);
    assert_eq!(piece_value(3), 500);
    assert_eq!(piece_value(5), 0);
}

#[test]
fn illegal_move_is_refused() {
    let b = Board::default();
    assert!(make_move_new(&b, ChessMove::new(Square::E2, Square::E5, None)).is_none());
    let after = make_move_new(&b, ChessMove::new(Square::E2, Square::E4, None)).unwrap();
    assert_eq!(after, b.make_move_new(ChessMove::new(Square::E2, Square::E4, None)));
}

#[test]
fn move_ordering_puts_hint_first_then_best_static() {
    // White can take a rook with the pawn (d4xe5) or a knight with the queen.
    let b = board("4k3/8/8/4r3/3P4/8/5n2/4K2Q w - - 0 1");
    let hint = EvalMove::new(ChessMove::new(Square::E1, Square::D2, None), 0);
    let ordered = order_moves(&b, Some(hint));
    assert_eq!(ordered[0].mv, hint.mv);
    assert_eq!(ordered[1].mv, ChessMove::new(Square::D4, Square::E5, None));
    assert_eq!(ordered[1].eval, 1000 - 300);
    for w in ordered[1..].windows(2) {
        assert!(w[0].eval >= w[1].eval);
    }
    assert_eq!(ordered.iter().filter(|em| em.mv == hint.mv).count(), 1);
    // An illegal hint is dropped.
    let bad = EvalMove::new(ChessMove::new(Square::A1, Square::A8, None), 0);
    let ordered2 = order_moves(&b, Some(bad));
    assert_eq!(ordered2.len(), ordered.len());
    assert!(ordered2.iter().all(|em| em.mv != bad.mv));
}

#[test]
fn sorting_is_descending_and_keeps_moves() {
    let m = |s: Square| ChessMove::new(Square::A2, s, None);
    let mut v = vec![
        EvalMove::new(m(Square::A3), -5),
        EvalMove::new(m(Square::A4), 40),
        EvalMove::new(m(Square::B3), 40),
        EvalMove::new(m(Square::B4), -SCORE_INF),
        EvalMove::new(m(Square::C3), 7),
    ];
    sort_moves(&mut v);
    let evals: Vec<i16> = v.iter().map(|em| em.eval).collect();
    assert_eq!(evals, vec![40, 40, 7, -5, -SCORE_INF]);
    assert_eq!(v[0].mv, m(Square::A4));
    assert_eq!(v[1].mv, m(Square::B3));
}

#[test]
fn mate_scores_step_toward_zero() {
    assert_eq!(mate_adjust(SCORE_MATE, 3), SCORE_MATE - 1);
    assert_eq!(mate_adjust(SCORE_MATE - 3, 3), SCORE_MATE - 4);
    assert_eq!(mate_adjust(SCORE_MATE - 4, 3), SCORE_MATE - 4);
    assert_eq!(mate_adjust(-SCORE_MATE, 3), -SCORE_MATE + 1);
    assert_eq!(mate_adjust(-SCORE_INF, 1), -SCORE_MATE);
    assert_eq!(mate_adjust(120, 5), 120);
}

#[test]
fn aspiration_windows() {
    assert_eq!(aspiration_window(0), (-17, 17, 17));
    assert_eq!(aspiration_window(100), (83, 117, 17));
    assert_eq!(aspiration_window(20000), (-17, 32001, 20017));
    assert_eq!(aspiration_window(-20000), (-32001, 17, 20017));
    assert_eq!(aspiration_window(-SCORE_INF as i32), (-32001, 17, 32018));
}

#[test]
fn voting_weighs_score_margin_and_depth() {
    let m1 = ChessMove::new(Square::E2, Square::E4, None);
    let m2 = ChessMove::new(Square::D2, Square::D4, None);
    assert_eq!(elect_best_move(&vec![(m1, 50, 10), (m2, 40, 10)]), Some(m1));
    // Two weaker votes for the same move outweigh one stronger vote.
    assert_eq!(elect_best_move(&vec![(m1, 50, 10), (m2, 40, 10), (m2, 40, 10)]), Some(m2));
    // Depth multiplies.
    assert_eq!(elect_best_move(&vec![(m1, 50, 2), (m2, 40, 10)]), Some(m2));
}

#[test]
fn single_vote_wins() {
    let m = ChessMove::new(Square::G1, Square::F3, None);
    assert_eq!(elect_best_move(&vec![(m, -300, 1)]), Some(m));
}
