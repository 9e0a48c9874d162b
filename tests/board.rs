use std::str::FromStr;
use std::sync::atomic::AtomicBool;

use chess::{Board, ChessMove, Square};
use transparov::eval::{SCORE_INF, SCORE_MATE};
use transparov::move16::Move16;
use transparov::root::RootData;
use transparov::board::is_playable;
use transparov::search::{alphabeta, capture_moves, quiesce, QUIESCE_PLIES};
use transparov::ttable::{EntryType, EvalMove, TTable};

#[test]
fn table_keyed_by_board_hash() {
    let tt = TTable::new(1);
    let b = Board::default();
    let mv = ChessMove::new(Square::G1, Square::F3, None);
    let (found, handle) = tt.probe(&b);
    assert!(found.is_none());
    tt.save(handle, &b, mv, 35, 4, EntryType::Cut);
    let (found, handle2) = tt.probe(&b);
    assert_eq!(handle2, handle);
    let e = found.unwrap();
    assert_eq!(e.key16, b.get_hash() as u16);
    assert_eq!(e.mv, Move16::from_move(mv));
    assert_eq!(e.mv.to_move(), mv);
    assert_eq!(e.eval, 35);
    assert_eq!(e.depth, 4);
    assert_eq!(e.entry_type(), Some(EntryType::Cut));
    let other = b.make_move_new(mv);
    assert!(tt.probe(&other).0.is_none() || tt.probe(&other).0.unwrap().key16 == other.get_hash() as u16);
}

#[test]
fn eval_move_scores_resulting_position() {
    // White takes the undefended queen.
    let b = Board::from_str("4k3/8/8/3q4/8/8/8/3RK3 w - - 0 1").unwrap();
    let mv = ChessMove::new(Square::D1, Square::D5, None);
    let em = EvalMove::new_on_board(mv, &b);
    assert_eq!(em.mv, mv);
    assert_eq!(em.eval, 500);
    let quiet = EvalMove::new_on_board(ChessMove::new(Square::E1, Square::F2, None), &b);
    assert_eq!(quiet.eval, 500 - 900);
}

#[test]
fn eval_moves_compare_by_score() {
    let a = EvalMove::new(ChessMove::new(Square::E2, Square::E4, None), 10);
    let b = EvalMove::new(ChessMove::new(Square::D2, Square::D4, None), 10);
    let c = EvalMove::new(ChessMove::new(Square::C2, Square::C4, None), -3);
    assert!(a == b);
    assert!(a != c);
    assert!(c < a);
    assert_eq!(a.partial_cmp(&b), Some(std::cmp::Ordering::Equal));
    assert_eq!(a.partial_cmp(&c), Some(std::cmp::Ordering::Greater));
}

#[test]
fn mate_at_root_scores_full_mate() {
    // Mate-distance pruning at the root returns the mating score itself.
    let b = Board::from_str("6k1/5ppp/8/8/8/8/5PPP/R5K1 w - - 0 1").unwrap();
    let tt = TTable::new(1);
    assert_eq!(alphabeta(&tt, b, -SCORE_INF, SCORE_INF, 1, 0), SCORE_MATE);
}

#[test]
fn stalemate_scores_zero() {
    let b = Board::from_str("7k/5Q2/6K1/8/8/8/8/8 b - - 0 1").unwrap();
    let tt = TTable::new(1);
    assert_eq!(alphabeta(&tt, b, -SCORE_INF, SCORE_INF, 3, 0), 0);
    // At depth 0 a stalemate still scores 0, while quiescence sees the material.
    assert_eq!(alphabeta(&tt, b, -SCORE_INF, SCORE_INF, 0, 0), 0);
    assert_eq!(quiesce(b, -SCORE_INF, SCORE_INF, QUIESCE_PLIES), -900);
    let stop = AtomicBool::new(false);
    let mut root = RootData::new(b);
    root.populate(&b);
    assert_eq!(root.root_search(&tt, &stop, -SCORE_INF, SCORE_INF, 2), (0, false));
}

#[test]
fn clear_resets_progress() {
    let b = Board::default();
    let tt = TTable::new(1);
    let stop = AtomicBool::new(false);
    let mut root = RootData::new(b);
    root.populate(&b);
    assert!(root.deepen(&tt, &stop));
    assert!(root.best_move.is_some());
    assert_eq!(root.completed_depth, 1);
    root.clear();
    assert!(root.best_move.is_none());
    assert_eq!(root.root_depth, 1);
    assert_eq!(root.completed_depth, 0);
    assert_eq!(root.moves.len(), 20);
}

#[test]
fn root_search_keeps_moves_and_marks_losers() {
    let b = Board::from_str("4k3/8/8/3q4/8/8/8/3RK3 w - - 0 1").unwrap();
    let tt = TTable::new(1);
    let stop = AtomicBool::new(false);
    let mut root = RootData::new(b);
    root.populate(&b);
    let before: Vec<ChessMove> = root.moves.iter().map(|em| em.mv).collect();
    let (v, stopped) = root.root_search(&tt, &stop, -SCORE_INF, SCORE_INF, 1);
    assert!(!stopped);
    let after: Vec<ChessMove> = root.moves.iter().map(|em| em.mv).collect();
    assert_eq!(before, after);
    assert_eq!(v, 500);
    let take = root.moves.iter().find(|em| em.mv == ChessMove::new(Square::D1, Square::D5, None)).unwrap();
    assert_eq!(take.eval, 500);
    assert!(root.moves.iter().all(|em| em.eval == -SCORE_INF || em.eval <= 500));
}

#[test]
fn stopped_root_search_reports_it() {
    let b = Board::default();
    let tt = TTable::new(1);
    let stop = AtomicBool::new(true);
    let mut root = RootData::new(b);
    root.populate(&b);
    let before: Vec<i16> = root.moves.iter().map(|em| em.eval).collect();
    assert_eq!(root.root_search(&tt, &stop, -SCORE_INF, SCORE_INF, 1), (0, true));
    let after: Vec<i16> = root.moves.iter().map(|em| em.eval).collect();
    assert_eq!(before, after);
}

#[test]
fn playable_positions() {
    assert!(is_playable(&Board::default()));
    // Twenty knights on one side are beyond what the move generator holds.
    let crowd = Board::from_str("7k/8/8/NNNN4/NNNNNNNN/NNNNNNNN/8/K7 w - - 0 1").unwrap();
    assert!(!is_playable(&crowd));
}

#[test]
fn captures_land_on_opponent_pieces() {
    let b = Board::from_str("4k3/8/8/4r3/3P4/8/8/4K3 w - - 0 1").unwrap();
    let caps = capture_moves(&b);
    assert_eq!(caps, vec![ChessMove::new(Square::D4, Square::E5, None)]);
    assert!(capture_moves(&Board::default()).is_empty());
}

#[test]
fn inverted_window_searches_without_panic() {
    let b = Board::default();
    let tt = TTable::new(1);
    let v = alphabeta(&tt, b, 100, -100, 2, 0);
    assert!(v >= -SCORE_INF && v <= SCORE_INF);
}
