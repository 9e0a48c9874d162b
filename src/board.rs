//! The chess rules come from the `chess` crate. This module declares its types
//! and gives each call the search makes a contract.

use vstd::prelude::*;

verus! {

#[verifier::external_type_specification]
#[verifier::external_body]
pub struct ExBoard(chess::Board);

#[verifier::external_type_specification]
#[verifier::external_body]
pub struct ExChessMove(chess::ChessMove);

/// Index (0..63) of the square a move starts from.
pub uninterp spec fn source_of(m: chess::ChessMove) -> u8;

/// Index (0..63) of the square a move lands on.
pub uninterp spec fn dest_of(m: chess::ChessMove) -> u8;

/// Index of the promotion piece of a move (pawn 0 .. king 5), if any.
pub uninterp spec fn promotion_of(m: chess::ChessMove) -> Option<u8>;

/// Relies on `ChessMove::get_source` and `Square::to_int`: the source square's index.
#[verifier::external_body]
pub(crate) fn move_source(m: &chess::ChessMove) -> (r: u8)
    ensures
        r == source_of(*m),
{
    m.get_source().to_int()
}

/// Relies on `ChessMove::get_dest` and `Square::to_int`: the destination square's index.
#[verifier::external_body]
pub(crate) fn move_dest(m: &chess::ChessMove) -> (r: u8)
    ensures
        r == dest_of(*m),
{
    m.get_dest().to_int()
}

/// Relies on `ChessMove::get_promotion` and `Piece::to_index` (pawn 0 .. king 5).
#[verifier::external_body]
pub(crate) fn move_promotion(m: &chess::ChessMove) -> (r: Option<u8>)
    ensures
        r == promotion_of(*m),
        r matches Some(p) ==> p < 6,
{
    m.get_promotion().map(|p| p.to_index() as u8)
}

/// Relies on `ChessMove::new`, `ALL_SQUARES` and `ALL_PIECES`: a `ChessMove` is
/// exactly its source, destination and optional promotion piece, so the move
/// built from those parts is the only move that has them.
#[verifier::external_body]
pub(crate) fn new_move(src: u8, dst: u8, prom: Option<u8>) -> (r: chess::ChessMove)
    requires
        src < 64,
        dst < 64,
        prom matches Some(p) ==> p < 6,
    ensures
        source_of(r) == src,
        dest_of(r) == dst,
        promotion_of(r) == prom,
        forall|m: chess::ChessMove|
            source_of(m) == src && dest_of(m) == dst && promotion_of(m) == prom ==> m == r,
{
    chess::ChessMove::new(
        chess::ALL_SQUARES[src as usize],
        chess::ALL_SQUARES[dst as usize],
        prom.map(|p| chess::ALL_PIECES[p as usize]),
    )
}

/// Relies on the derived `PartialEq` of `ChessMove`, which compares its fields:
/// two moves compare equal exactly when they are the same value.
#[verifier::external_body]
pub(crate) fn same_move(a: &chess::ChessMove, b: &chess::ChessMove) -> (r: bool)
    ensures
        r == (*a == *b),
{
    *a == *b
}

/// The position's Zobrist hash.
pub uninterp spec fn hash_of(b: chess::Board) -> u64;

/// Relies on `Board::get_hash`: a function of the position alone.
#[verifier::external_body]
pub(crate) fn board_hash(b: &chess::Board) -> (r: u64)
    ensures
        r == hash_of(*b),
{
    b.get_hash()
}


/// Whether the game goes on, or the side to move is stalemated or mated.
#[derive(Clone, Copy, PartialEq, Eq, Structural, Debug)]
pub enum GameStatus {
    Ongoing,
    Stalemate,
    Checkmate,
}

/// The status of a position.
pub uninterp spec fn status_of(b: chess::Board) -> GameStatus;

/// Relies on `Board::status`: a function of the position alone. It runs the
/// legal move generator, which holds at most 18 moving pieces of the side to
/// move and needs both kings: a playable position keeps within that.
#[verifier::external_body]
pub(crate) fn board_status(b: &chess::Board) -> (r: GameStatus)
    requires
        playable(*b),
    ensures
        r == status_of(*b),
{
    match b.status() {
        chess::BoardStatus::Ongoing => GameStatus::Ongoing,
        chess::BoardStatus::Stalemate => GameStatus::Stalemate,
        chess::BoardStatus::Checkmate => GameStatus::Checkmate,
    }
}

/// Whether a move is legal in a position.
pub uninterp spec fn is_legal(b: chess::Board, m: chess::ChessMove) -> bool;

/// Relies on `Board::legal`, which searches the legal move generator's output
/// (within its limits on a playable position).
#[verifier::external_body]
pub(crate) fn board_legal(b: &chess::Board, m: &chess::ChessMove) -> (r: bool)
    requires
        playable(*b),
    ensures
        r == is_legal(*b, *m),
{
    b.legal(*m)
}

/// Whether a position is sane: no two pieces on a square, one king a side,
/// the side not to move not in check, and the rest of `Board::is_sane`.
pub uninterp spec fn sane_of(b: chess::Board) -> bool;

/// Relies on `Board::is_sane`: a function of the position alone.
#[verifier::external_body]
pub(crate) fn board_sane(b: &chess::Board) -> (r: bool)
    ensures
        r == sane_of(*b),
{
    b.is_sane()
}

/// The position after a move.
pub uninterp spec fn after(b: chess::Board, m: chess::ChessMove) -> chess::Board;

/// Relies on `Board::make_move_new`. On a sane position a legal move is one
/// the legal move generator yields: it captures no king, so the call returns,
/// and it leaves the mover not in check, so the new position is sane. A move
/// adds no piece to either side (a promotion replaces its pawn), so the new
/// position stays playable.
#[verifier::external_body]
pub(crate) fn board_after(b: &chess::Board, m: &chess::ChessMove) -> (r: chess::Board)
    requires
        playable(*b),
        is_legal(*b, *m),
    ensures
        r == after(*b, *m),
        playable(r),
{
    b.make_move_new(*m)
}

/// The legal moves of a position, in the move generator's order.
pub uninterp spec fn legal_moves_of(b: chess::Board) -> Seq<chess::ChessMove>;

/// Relies on `MoveGen::new_legal`. `Board::legal` is defined as membership in
/// that same sequence, and `Board::status` says "in play" exactly when it is
/// not empty; on a sane position each source square holds one piece
/// and each destination (and promotion piece) of it comes once.
#[verifier::external_body]
pub(crate) fn legal_moves(b: &chess::Board) -> (r: Vec<chess::ChessMove>)
    requires
        playable(*b),
    ensures
        r@ == legal_moves_of(*b),
        forall|i: int| 0 <= i < r@.len() ==> is_legal(*b, #[trigger] r@[i]),
        forall|m: chess::ChessMove| #[trigger] is_legal(*b, m) <==> r@.contains(m),
        r@.no_duplicates(),
        (status_of(*b) == GameStatus::Ongoing) <==> r@.len() > 0,
{
    chess::MoveGen::new_legal(b).collect()
}

/// Whether square `sq` holds a piece of the side not to move.
pub uninterp spec fn opponent_on(b: chess::Board, sq: u8) -> bool;

/// Relies on `Board::color_combined` and `Board::side_to_move`: whether the
/// square is among the pieces of the side not to move.
#[verifier::external_body]
pub(crate) fn opponent_on_square(b: &chess::Board, sq: u8) -> (r: bool)
    requires
        sq < 64,
    ensures
        r == opponent_on(*b, sq),
{
    let theirs = *b.color_combined(!b.side_to_move());
    theirs & chess::BitBoard::from_square(chess::ALL_SQUARES[sq as usize]) != chess::EMPTY
}

/// The number of pieces of one side over the piece kinds below `n`.
pub open spec fn side_pieces(b: chess::Board, white: bool, n: int) -> int
    decreases n,
{
    if n <= 0 {
        0
    } else {
        side_pieces(b, white, n - 1) + count_of(b, (n - 1) as u8, white)
    }
}

/// A position the move generator handles: sane (so both kings are on the
/// board) and at most 16 pieces a side.
pub open spec fn playable(b: chess::Board) -> bool {
    &&& sane_of(b)
    &&& side_pieces(b, true, 6) <= 16
    &&& side_pieces(b, false, 6) <= 16
}

/// Whether the search can take this position: see `playable`.
pub fn is_playable(b: &chess::Board) -> (r: bool)
    ensures
        r == playable(*b),
{
    if !board_sane(b) {
        return false;
    }
    let white = side_count(b, true);
    let black = side_count(b, false);
    white <= 16 && black <= 16
}

fn side_count(b: &chess::Board, white: bool) -> (r: u32)
    ensures
        r == side_pieces(*b, white, 6),
{
    let mut total: u32 = 0;
    let mut p: u8 = 0;
    while p < 6
        invariant
            p <= 6,
            total == side_pieces(*b, white, p as int),
            total <= 64 * p,
        decreases 6 - p,
    {
        total = total + piece_count(b, p, white);
        p = p + 1;
    }
    total
}

/// Whether white is to move.
pub uninterp spec fn white_to_move_of(b: chess::Board) -> bool;

/// Relies on `Board::side_to_move`.
#[verifier::external_body]
pub(crate) fn white_to_move(b: &chess::Board) -> (r: bool)
    ensures
        r == white_to_move_of(*b),
{
    b.side_to_move() == chess::Color::White
}

/// How many pieces of kind `piece` (pawn 0 .. king 5) one side has.
pub uninterp spec fn count_of(b: chess::Board, piece: u8, white: bool) -> u32;

/// Relies on `Board::pieces`, `Board::color_combined` and `BitBoard::popcnt`,
/// which counts the set bits of a 64-bit word.
#[verifier::external_body]
pub(crate) fn piece_count(b: &chess::Board, piece: u8, white: bool) -> (r: u32)
    requires
        piece < 6,
    ensures
        r == count_of(*b, piece, white),
        r <= 64,
{
    let color = if white { chess::Color::White } else { chess::Color::Black };
    (b.pieces(chess::ALL_PIECES[piece as usize]) & b.color_combined(color)).popcnt()
}

} // verus!
