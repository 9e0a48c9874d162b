//! Decisions of the engine controller that do not touch its channels: the
//! position a `position` command names, the time budget of a `go` command,
//! and when a running search is over. Times are in milliseconds.

use vstd::prelude::*;
use crate::board::{after, board_after, board_legal, is_playable, is_legal, playable, white_to_move, white_to_move_of};

verus! {

/// The time control of a `go` command, in milliseconds.
#[derive(Clone, Copy, PartialEq, Eq, Structural, Debug)]
pub enum TimeControl {
    /// Think for exactly this long.
    MoveTime(i64),
    /// Each side's time left, and the moves until the next time control.
    TimeLeft { white_time: Option<i64>, black_time: Option<i64>, moves_to_go: Option<u8> },
    /// No budget: search until told to stop.
    Unlimited,
}

/// A duration in milliseconds, if it is not negative.
pub open spec fn nonneg_ms(d: i64) -> Option<u64> {
    if d >= 0 {
        Some(d as u64)
    } else {
        None
    }
}

/// The budget for a move: the move time; or the mover's time left split over
/// the moves to go (40 when not given, and at least 1); or none.
pub open spec fn time_budget(tc: TimeControl, white_to_move: bool) -> Option<u64> {
    match tc {
        TimeControl::MoveTime(d) => nonneg_ms(d),
        TimeControl::TimeLeft { white_time, black_time, moves_to_go } => {
            let left = if white_to_move { white_time } else { black_time };
            let n: int = match moves_to_go {
                Some(k) => if k == 0 { 1 } else { k as int },
                None => 40,
            };
            match left {
                Some(d) => match nonneg_ms(d) {
                    Some(ms) => Some((ms as int / n) as u64),
                    None => None,
                },
                None => None,
            }
        },
        TimeControl::Unlimited => None,
    }
}

/// The time budget for the side to move under `tc`.
pub fn calculate_time(tc: TimeControl, white_to_move: bool) -> (r: Option<u64>)
    ensures
        r == time_budget(tc, white_to_move),
{
    match tc {
        TimeControl::MoveTime(d) => if d >= 0 {
            Some(d as u64)
        } else {
            None
        },
        TimeControl::TimeLeft { white_time, black_time, moves_to_go } => {
            let left = if white_to_move {
                white_time
            } else {
                black_time
            };
            let n: u64 = match moves_to_go {
                Some(k) => if k == 0 {
                    1
                } else {
                    k as u64
                },
                None => 40,
            };
            match left {
                Some(d) => if d >= 0 {
                    Some(d as u64 / n)
                } else {
                    None
                },
                None => None,
            }
        },
        TimeControl::Unlimited => None,
    }
}

/// The position after playing the first `n` of `moves` from `start`, each
/// move that is not legal where it comes being passed over.
pub open spec fn play_moves(start: chess::Board, moves: Seq<chess::ChessMove>, n: int) -> chess::Board
    decreases n,
{
    if n <= 0 {
        start
    } else {
        let p = play_moves(start, moves, n - 1);
        if is_legal(p, moves[n - 1]) {
            after(p, moves[n - 1])
        } else {
            p
        }
    }
}

/// The position of a `position` command: its moves played from `start`.
pub fn position_after(start: chess::Board, moves: &Vec<chess::ChessMove>) -> (r: chess::Board)
    requires
        playable(start),
    ensures
        r == play_moves(start, moves@, moves@.len() as int),
        playable(r),
{
    let mut pos = start;
    let mut i: usize = 0;
    while i < moves.len()
        invariant
            i <= moves@.len(),
            pos == play_moves(start, moves@, i as int),
            playable(pos),
        decreases moves@.len() - i,
    {
        if board_legal(&pos, &moves[i]) {
            pos = board_after(&pos, &moves[i]);
        }
        i = i + 1;
    }
    pos
}

/// Where a running search stands.
#[derive(Clone, Copy, PartialEq, Eq, Structural, Debug)]
pub enum SearchCheck {
    /// The workers stopped on their own.
    Finished,
    /// The budget is spent: the caller stops the workers.
    Overdue,
    /// Let it run.
    Running,
}

/// A search in progress: when it started and how long it may take.
#[derive(Clone, Copy, PartialEq, Eq, Structural, Debug)]
pub struct SearchHandle {
    pub start_ms: u64,
    pub search_length: Option<u64>,
}

/// Milliseconds from `start` to `now`; 0 if the clock reads earlier.
pub open spec fn elapsed_spec(start: u64, now: u64) -> u64 {
    if now >= start {
        (now - start) as u64
    } else {
        0
    }
}

impl SearchHandle {
    /// A search started at `now_ms` with an optional budget.
    pub fn new(search_length: Option<u64>, now_ms: u64) -> (r: SearchHandle)
        ensures
            r == (SearchHandle { start_ms: now_ms, search_length }),
    {
        SearchHandle { start_ms: now_ms, search_length }
    }

    /// Time since the search started.
    pub fn elapsed(&self, now_ms: u64) -> (r: u64)
        ensures
            r == elapsed_spec(self.start_ms, now_ms),
    {
        if now_ms >= self.start_ms {
            now_ms - self.start_ms
        } else {
            0
        }
    }

    /// Whether the search is over: finished when the workers stopped; overdue
    /// when its budget is spent; else running.
    pub fn search_done(&self, stopped: bool, now_ms: u64) -> (r: SearchCheck)
        ensures
            r == if stopped {
                SearchCheck::Finished
            } else {
                match self.search_length {
                    Some(d) => if elapsed_spec(self.start_ms, now_ms) >= d {
                        SearchCheck::Overdue
                    } else {
                        SearchCheck::Running
                    },
                    None => SearchCheck::Running,
                }
            },
    {
        if stopped {
            return SearchCheck::Finished;
        }
        match self.search_length {
            Some(d) => if self.elapsed(now_ms) >= d {
                SearchCheck::Overdue
            } else {
                SearchCheck::Running
            },
            None => SearchCheck::Running,
        }
    }
}


/// A command for the controller: a UCI command from the reader, or a report
/// from the search workers.
pub enum UciEvent {
    Uci,
    IsReady,
    UciNewGame,
    /// `position`: the start position and the moves played from it; ignored
    /// when the start position is not playable.
    Position { start: chess::Board, moves: Vec<chess::ChessMove> },
    /// `go`, with its time control if it has one.
    Go { time_control: Option<TimeControl> },
    Stop,
    Quit,
    /// A worker's `info`: the first move of its principal variation.
    Info { pv_head: Option<chess::ChessMove> },
    /// The main worker's final `bestmove`.
    BestMove,
    /// A command the controller does nothing with.
    Ignored,
}

/// What the controller asks its surroundings to do.
#[derive(Clone, Copy, Debug)]
pub enum Action {
    /// Print `id name`, `id author` and `uciok`.
    Identify,
    /// Print `readyok`.
    ReadyOk,
    /// Start the workers on a position.
    StartThinking(chess::Board),
    /// Set the workers' stop flag.
    StopSearch,
    /// Print `bestmove` for this move.
    SendBestMove(chess::ChessMove),
    /// Print the main worker's `bestmove` message as it came.
    ForwardBestMove,
    /// Stop the workers, wait for them and join them.
    QuitPool,
}

/// The controller's state between commands.
pub struct Controller {
    /// The position to search, once one is set.
    pub board: Option<chess::Board>,
    /// The best move reported so far by the running search.
    pub best_move: Option<chess::ChessMove>,
    /// The running search, while it is watched.
    pub searcher: Option<SearchHandle>,
}

impl Controller {
    pub fn new() -> (r: Controller)
        ensures
            r.board is None,
            r.best_move is None,
            r.searcher is None,
    {
        Controller { board: None, best_move: None, searcher: None }
    }

    /// Handles one command at time `now_ms`; `stopped` is the workers' stop
    /// flag as last read. Returns the actions to perform, in order, and
    /// whether to keep running.
    pub fn handle_message(&mut self, event: UciEvent, stopped: bool, now_ms: u64) -> (r: (Vec<Action>, bool))
        ensures
            r.1 == !(event is Quit),
            match event {
                UciEvent::Uci => r.0@ == seq![Action::Identify] && *final(self) == *old(self),
                UciEvent::IsReady => r.0@ == seq![Action::ReadyOk] && *final(self) == *old(self),
                UciEvent::UciNewGame => r.0@.len() == 0 && final(self).board is None
                    && final(self).best_move == old(self).best_move && final(self).searcher == old(self).searcher,
                UciEvent::Position { start, moves } => r.0@.len() == 0 && final(self).board == if playable(
                    start,
                ) {
                    Some(play_moves(start, moves@, moves@.len() as int))
                } else {
                    old(self).board
                } && final(self).best_move == old(self).best_move && final(self).searcher == old(self).searcher,
                UciEvent::Go { time_control } => {
                    &&& final(self).board == old(self).board
                    &&& final(self).best_move == old(self).best_move
                    &&& final(self).searcher == Some(SearchHandle {
                        start_ms: now_ms,
                        search_length: match (time_control, old(self).board) {
                            (Some(tc), Some(b)) => time_budget(tc, white_to_move_of(b)),
                            _ => None,
                        },
                    })
                    &&& r.0@ == match old(self).board {
                        Some(b) => seq![Action::StartThinking(b)],
                        None => seq![],
                    }
                },
                UciEvent::Stop => {
                    &&& final(self).board == old(self).board
                    &&& final(self).best_move is None
                    &&& final(self).searcher == old(self).searcher
                    &&& r.0@ == match old(self).best_move {
                        Some(m) => seq![Action::StopSearch, Action::SendBestMove(m)],
                        None => seq![Action::StopSearch],
                    }
                },
                UciEvent::Quit => r.0@ == seq![Action::QuitPool] && *final(self) == *old(self),
                UciEvent::Info { pv_head } => r.0@.len() == 0 && final(self).board == old(self).board
                    && final(self).searcher == old(self).searcher && final(self).best_move == if stopped {
                    old(self).best_move
                } else {
                    pv_head
                },
                UciEvent::BestMove => final(self).board == old(self).board && final(self).searcher == old(
                    self,
                ).searcher && final(self).best_move is None && r.0@ == if old(self).best_move is Some {
                    seq![Action::ForwardBestMove]
                } else {
                    seq![]
                },
                UciEvent::Ignored => r.0@.len() == 0 && *final(self) == *old(self),
            },
    {
        let mut actions: Vec<Action> = Vec::new();
        match event {
            UciEvent::Uci => {
                actions.push(Action::Identify);
            },
            UciEvent::IsReady => {
                actions.push(Action::ReadyOk);
            },
            UciEvent::UciNewGame => {
                self.board = None;
            },
            UciEvent::Position { start, moves } => {
                // A position the move generator cannot handle is not searched.
                if is_playable(&start) {
                    self.board = Some(position_after(start, &moves));
                }
            },
            UciEvent::Go { time_control } => {
                let search_time = match (time_control, self.board) {
                    (Some(tc), Some(b)) => calculate_time(tc, white_to_move(&b)),
                    _ => None,
                };
                match self.board {
                    Some(b) => {
                        actions.push(Action::StartThinking(b));
                    },
                    None => {},
                }
                self.searcher = Some(SearchHandle::new(search_time, now_ms));
            },
            UciEvent::Stop => {
                actions.push(Action::StopSearch);
                match self.best_move {
                    Some(m) => {
                        actions.push(Action::SendBestMove(m));
                    },
                    None => {},
                }
                self.best_move = None;
            },
            UciEvent::Quit => {
                actions.push(Action::QuitPool);
                return (actions, false);
            },
            UciEvent::Info { pv_head } => {
                // A report from a search that has stopped is stale.
                if !stopped {
                    self.best_move = pv_head;
                }
            },
            UciEvent::BestMove => {
                if self.best_move.is_some() {
                    actions.push(Action::ForwardBestMove);
                }
                self.best_move = None;
            },
            UciEvent::Ignored => {},
        }
        (actions, true)
    }

    /// Watches the running search between commands: once a best move is
    /// known, the search ends when the workers stopped on their own, or is
    /// stopped when its budget is spent.
    pub fn poll(&mut self, stopped: bool, now_ms: u64) -> (r: Option<Action>)
        ensures
            final(self).board == old(self).board,
            final(self).best_move == old(self).best_move,
            ({
                let watch = old(self).best_move is Some && old(self).searcher is Some;
                let check = match old(self).searcher {
                    Some(h) => if stopped {
                        SearchCheck::Finished
                    } else {
                        match h.search_length {
                            Some(d) => if elapsed_spec(h.start_ms, now_ms) >= d {
                                SearchCheck::Overdue
                            } else {
                                SearchCheck::Running
                            },
                            None => SearchCheck::Running,
                        }
                    },
                    None => SearchCheck::Running,
                };
                &&& (watch && check == SearchCheck::Overdue) ==> r == Some(Action::StopSearch)
                    && final(self).searcher is None
                &&& (watch && check == SearchCheck::Finished) ==> r is None && final(self).searcher is None
                &&& !(watch && check != SearchCheck::Running) ==> r is None && final(self).searcher == old(
                    self,
                ).searcher
            }),
    {
        if self.best_move.is_none() {
            return None;
        }
        match self.searcher {
            Some(h) => match h.search_done(stopped, now_ms) {
                SearchCheck::Finished => {
                    self.searcher = None;
                    None
                },
                SearchCheck::Overdue => {
                    self.searcher = None;
                    Some(Action::StopSearch)
                },
                SearchCheck::Running => None,
            },
            None => None,
        }
    }
}

} // verus!
