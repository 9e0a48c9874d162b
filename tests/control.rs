use std::str::FromStr;

use chess::{Board, ChessMove, Square};
use transparov::control::{calculate_time, position_after, Action, Controller, SearchCheck, SearchHandle, TimeControl, UciEvent};

#[test]
fn time_budgets() {
    assert_eq!(calculate_time(TimeControl::MoveTime(5000), true), Some(5000));
    assert_eq!(calculate_time(TimeControl::MoveTime(-1), true), None);
    let tl = TimeControl::TimeLeft { white_time: Some(60_000), black_time: Some(30_000), moves_to_go: None };
    assert_eq!(calculate_time(tl, true), Some(1500));
    assert_eq!(calculate_time(tl, false), Some(750));
    let tl2 = TimeControl::TimeLeft { white_time: Some(60_000), black_time: None, moves_to_go: Some(10) };
    assert_eq!(calculate_time(tl2, true), Some(6000));
    assert_eq!(calculate_time(tl2, false), None);
    assert_eq!(calculate_time(TimeControl::Unlimited, true), None);
}

#[test]
fn search_handle_checks() {
    let h = SearchHandle::new(Some(100), 1000);
    assert_eq!(h.elapsed(1050), 50);
    assert_eq!(h.elapsed(900), 0);
    assert_eq!(h.search_done(false, 1050), SearchCheck::Running);
    assert_eq!(h.search_done(false, 1100), SearchCheck::Overdue);
    assert_eq!(h.search_done(true, 1010), SearchCheck::Finished);
    let open = SearchHandle::new(None, 0);
    assert_eq!(open.search_done(false, 1_000_000), SearchCheck::Running);
}

#[test]
fn position_from_moves() {
    let start = Board::default();
    let moves = vec![
        ChessMove::new(Square::E2, Square::E4, None),
        ChessMove::new(Square::E2, Square::E4, None),
        ChessMove::new(Square::E7, Square::E5, None),
    ];
    let expected = start
        .make_move_new(moves[0])
        .make_move_new(moves[2]);
    assert_eq!(position_after(start, &moves), expected);
    assert_eq!(
        expected,
        Board::from_str("rnbqkbnr/pppp1ppp/8/4p3/4P3/8/PPPP1PPP/RNBQKBNR w KQkq e6 0 2").unwrap()
    );
}

#[test]
fn controller_handshake_and_quit() {
    let mut c = Controller::new();
    let (a, running) = c.handle_message(UciEvent::Uci, false, 0);
    assert!(running);
    assert!(matches!(a.as_slice(), [Action::Identify]));
    let (a, running) = c.handle_message(UciEvent::IsReady, false, 1);
    assert!(running);
    assert!(matches!(a.as_slice(), [Action::ReadyOk]));
    let (a, running) = c.handle_message(UciEvent::Quit, false, 2);
    assert!(!running);
    assert!(matches!(a.as_slice(), [Action::QuitPool]));
}

#[test]
fn controller_stop_emits_one_best_move() {
    let mut c = Controller::new();
    let start = Board::default();
    let (a, _) = c.handle_message(UciEvent::Position { start, moves: vec![] }, false, 0);
    assert!(a.is_empty());
    assert_eq!(c.board, Some(start));
    let (a, _) = c.handle_message(UciEvent::Go { time_control: Some(TimeControl::MoveTime(5000)) }, false, 10);
    assert!(matches!(a.as_slice(), [Action::StartThinking(b)] if *b == start));
    assert_eq!(c.searcher, Some(SearchHandle::new(Some(5000), 10)));
    let e4 = ChessMove::new(Square::E2, Square::E4, None);
    c.handle_message(UciEvent::Info { pv_head: Some(e4) }, false, 40);
    assert_eq!(c.best_move, Some(e4));
    assert!(c.poll(false, 50).is_none());
    let (a, _) = c.handle_message(UciEvent::Stop, false, 60);
    assert!(matches!(a.as_slice(), [Action::StopSearch, Action::SendBestMove(m)] if *m == e4));
    assert_eq!(c.best_move, None);
    // The worker's own bestmove after that is not printed again.
    let (a, _) = c.handle_message(UciEvent::BestMove, true, 70);
    assert!(a.is_empty());
    // Reports after the stop are stale.
    c.handle_message(UciEvent::Info { pv_head: Some(e4) }, true, 80);
    assert_eq!(c.best_move, None);
}

#[test]
fn controller_stops_overdue_search() {
    let mut c = Controller::new();
    c.handle_message(UciEvent::Position { start: Board::default(), moves: vec![] }, false, 0);
    c.handle_message(UciEvent::Go { time_control: Some(TimeControl::MoveTime(100)) }, false, 0);
    // Without a best move the search is not watched.
    assert!(c.poll(false, 500).is_none());
    assert!(c.searcher.is_some());
    c.handle_message(UciEvent::Info { pv_head: Some(ChessMove::new(Square::D2, Square::D4, None)) }, false, 50);
    assert!(c.poll(false, 99).is_none());
    assert!(matches!(c.poll(false, 100), Some(Action::StopSearch)));
    assert!(c.searcher.is_none());
    let (a, _) = c.handle_message(UciEvent::BestMove, true, 120);
    assert!(matches!(a.as_slice(), [Action::ForwardBestMove]));
}

#[test]
fn controller_new_game_forgets_position() {
    let mut c = Controller::new();
    c.handle_message(UciEvent::Position { start: Board::default(), moves: vec![] }, false, 0);
    c.handle_message(UciEvent::UciNewGame, false, 1);
    assert!(c.board.is_none());
    let (a, _) = c.handle_message(UciEvent::Go { time_control: None }, false, 2);
    assert!(a.is_empty());
    assert_eq!(c.searcher, Some(SearchHandle::new(None, 2)));
}
