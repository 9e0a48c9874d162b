//! Scores and the static evaluation: material balance from the side to move's
//! point of view.

use vstd::prelude::*;
use crate::board::{count_of, piece_count, white_to_move, white_to_move_of};

verus! {

/// A score in centipawns, from the side to move's point of view.
pub type Eval = i16;

/// The score of being mated now.
pub const SCORE_MATE: i16 = 32000;

/// A window bound beyond every score the search returns.
pub const SCORE_INF: i16 = 32001;

/// Centipawn value of a piece kind: pawn, knight, bishop, rook, queen, king.
pub open spec fn piece_value_spec(piece: int) -> int {
    if piece == 0 {
        100
    } else if piece == 1 || piece == 2 {
        300
    } else if piece == 3 {
        500
    } else if piece == 4 {
        900
    } else {
        0
    }
}

/// Centipawn value of a piece kind (pawn 0 .. king 5).
pub fn piece_value(piece: u8) -> (r: i32)
    ensures
        r == piece_value_spec(piece as int),
{
    match piece {
        0 => 100,
        1 | 2 => 300,
        3 => 500,
        4 => 900,
        _ => 0,
    }
}

/// Material of one side over the piece kinds below `n`.
pub open spec fn material(b: chess::Board, white: bool, n: int) -> int
    decreases n,
{
    if n <= 0 {
        0
    } else {
        material(b, white, n - 1) + piece_value_spec(n - 1) * count_of(b, (n - 1) as u8, white)
    }
}

/// The static score of a position: the side to move's material less the
/// other side's, kept strictly inside the mate scores.
pub open spec fn eval_of(b: chess::Board) -> int {
    let own = white_to_move_of(b);
    let diff = material(b, own, 6) - material(b, !own, 6);
    if diff >= SCORE_MATE {
        SCORE_MATE - 1
    } else if diff <= -SCORE_MATE {
        -SCORE_MATE + 1
    } else {
        diff
    }
}

/// Material of one side.
fn side_material(b: &chess::Board, white: bool) -> (r: i32)
    ensures
        r == material(*b, white, 6),
        0 <= r <= 345600,
{
    let mut total: i32 = 0;
    let mut p: u8 = 0;
    while p < 6
        invariant
            p <= 6,
            total == material(*b, white, p as int),
            0 <= total <= 57600 * p,
        decreases 6 - p,
    {
        let c = piece_count(b, p, white) as i32;
        let v = piece_value(p);
        proof {
            assert(0 <= v * c <= 57600) by (nonlinear_arith)
                requires
                    0 <= v <= 900,
                    0 <= c <= 64,
            ;
        }
        let vc: i32 = v * c;
        total = total + vc;
        p = p + 1;
    }
    total
}

/// The static score of a position for the side to move.
pub fn evaluate_board(b: &chess::Board) -> (r: Eval)
    ensures
        r == eval_of(*b),
        -SCORE_MATE < r < SCORE_MATE,
{
    let own = white_to_move(b);
    let diff = side_material(b, own) - side_material(b, !own);
    if diff >= SCORE_MATE as i32 {
        SCORE_MATE - 1
    } else if diff <= -(SCORE_MATE as i32) {
        -SCORE_MATE + 1
    } else {
        diff as i16
    }
}

} // verus!
