use chess::{Board, ChessMove, Square};
use transparov::eval::{SCORE_INF, SCORE_MATE};
use transparov::move16::Move16;
use transparov::root::{aspiration_step, first_window, kept_score, reduced_depth};
use transparov::search::{final_entry_type, negamax_step, table_cutoff, NodeWindow, Step};
use transparov::ttable::{refresh_entry, EntryType, TTEntry, TTable};

fn window(alpha: i16, beta: i16, max: i16) -> NodeWindow {
    NodeWindow { alpha, beta, max }
}

#[test]
fn table_cutoff_needs_depth_and_range() {
    let e = TTEntry::new(1, Move16::from(0x0410u16), 42, 5, 4);
    assert_eq!(table_cutoff(Some(e), 5), Some(42));
    assert_eq!(table_cutoff(Some(e), 6), None);
    assert_eq!(table_cutoff(None, 1), None);
    let wild = TTEntry::new(1, Move16::from(0x0410u16), -32768, 9, 4);
    assert_eq!(table_cutoff(Some(wild), 1), None);
}

#[test]
fn negamax_step_cases() {
    // Beta cutoff returns the move's own score (fail-soft).
    assert_eq!(negamax_step(window(0, 50, 10), 80, SCORE_MATE), Step::Cutoff(80));
    // Raising max and alpha; beta tightens to the mating score.
    assert_eq!(
        negamax_step(window(0, SCORE_INF, 10), 30, SCORE_MATE),
        Step::Next(window(30, SCORE_MATE, 30))
    );
    // A score below alpha raises max only.
    assert_eq!(negamax_step(window(20, 50, -SCORE_INF), 5, SCORE_MATE), Step::Next(window(20, 50, 5)));
    // A mate in one at the root ends the node with the mating score itself.
    assert_eq!(
        negamax_step(window(-SCORE_INF, SCORE_INF, -SCORE_INF), SCORE_MATE, SCORE_MATE),
        Step::Pruned(SCORE_MATE)
    );
    // Deeper in the tree a window below the mated score is pruned.
    assert_eq!(negamax_step(window(-SCORE_INF, -31995, -SCORE_INF), -31999, 31990), Step::Pruned(-31990));
}

#[test]
fn final_entry_types() {
    assert_eq!(final_entry_type(10, 10), EntryType::Pv);
    assert_eq!(final_entry_type(9, 10), EntryType::All);
}

#[test]
fn kept_scores() {
    assert_eq!(kept_score(31, 30), 31);
    assert_eq!(kept_score(30, 30), -SCORE_INF);
}

#[test]
fn reduced_depths() {
    assert_eq!(reduced_depth(6, 0), 6);
    assert_eq!(reduced_depth(6, 2), 4);
    assert_eq!(reduced_depth(3, 2), 1);
    assert_eq!(reduced_depth(2, 9), 1);
}

#[test]
fn first_windows() {
    assert_eq!(first_window(3, 100), (-32001, 32001, 17));
    assert_eq!(first_window(4, 100), (83, 117, 17));
}

#[test]
fn aspiration_steps() {
    // Inside the window: done.
    assert_eq!(aspiration_step(100, 83, 117, 17, 0), None);
    // Fail low: alpha = value - delta, beta = alpha + beta / 2.
    assert_eq!(aspiration_step(50, 83, 117, 17, 2), Some((33, 83 + 58, 17 + 4 + 5, 0)));
    // Fail high: beta = value + delta, count grows.
    assert_eq!(aspiration_step(200, 83, 117, 17, 1), Some((83, 217, 26, 2)));
    // Clamped at the ends of the range.
    assert_eq!(aspiration_step(32000, 83, 117, 17, 0), Some((83, 32001, 26, 1)));
    // A negative beta halves toward zero; the new window may be empty.
    assert_eq!(aspiration_step(-100, -100, -50, 17, 0), Some((-117, -125, 26, 0)));
    assert_eq!(aspiration_step(-1000, -1000, -900, 17, 0), Some((-1017, -1450, 26, 0)));
    // Beta stays within the score range.
    assert_eq!(aspiration_step(-32000, -32000, -31000, 17, 0), Some((-32001, -32001, 26, 0)));
    // Once the half-width can grow no more, the loop ends.
    assert_eq!(aspiration_step(-32000, -32000, -31000, i32::MAX, 0), None);
    assert_eq!(aspiration_step(0, -32001, 32001, i32::MAX - 3, 0), None);
    assert_eq!(aspiration_step(32001, -32001, 32001, i32::MAX - 3, 0), Some((-32001, 32001, i32::MAX, 1)));
}

#[test]
fn refresh_keeps_type_bits() {
    let e = TTEntry::new(7, Move16::from(0x0410u16), 3, 2, 0x10 | 2);
    let r = refresh_entry(&e, 0x28);
    assert_eq!(r.genbound, 0x28 | 2);
    assert_eq!(r.key16, 7);
    assert_eq!(r.depth, 2);
}

#[test]
fn save_reports_what_it_wrote() {
    let tt = TTable::new(1);
    let b = Board::default();
    let mv = ChessMove::new(Square::E2, Square::E4, None);
    let (_, handle) = tt.probe(&b);
    let written = tt.save(handle, &b, mv, 12, 3, EntryType::Pv).unwrap();
    assert_eq!(written.key16, b.get_hash() as u16);
    assert_eq!(written.mv, Move16::from_move(mv));
    assert_eq!(written.eval, 12);
    assert_eq!(written.depth, 3);
    assert_eq!(written.genbound, 4);
    assert_eq!(tt.save(handle, &b, mv, 99, 3, EntryType::Cut), None);
    let again = tt.save_hash(handle, b.get_hash(), Move16::from_move(mv), 5, 4, EntryType::All).unwrap();
    assert_eq!(again.genbound, 1);
}
