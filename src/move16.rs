//! A move packed into sixteen bits: source square in bits 10..15, destination
//! square in bits 4..9, a promotion flag in bit 2 and the promotion piece
//! (knight, bishop, rook, queen as 0..3) in bits 0..1.

use vstd::prelude::*;
use crate::board::{dest_of, move_dest, move_promotion, move_source, new_move, promotion_of, source_of};

verus! {

/// A packed move. The all-zero value stands for "no move".
#[derive(Clone, Copy, PartialEq, Eq, Structural, Debug)]
pub struct Move16 {
    pub mv: u16,
}

/// The two promotion-piece bits for a piece index (knight 1 .. queen 4).
pub open spec fn promotion_code(piece: u8) -> int {
    (piece as int - 1) % 4
}

/// The packed value of a source square, a destination square and an optional
/// promotion piece (indices as the `chess` crate numbers them).
pub open spec fn encode(src: u8, dst: u8, prom: Option<u8>) -> u16 {
    ((src as int % 64) * 1024 + (dst as int % 64) * 16 + match prom {
        Some(p) => 4 + promotion_code(p),
        None => 0,
    }) as u16
}

/// A move whose squares are on the board and whose promotion, if any, is to a
/// knight, bishop, rook or queen.
pub open spec fn valid_parts(src: u8, dst: u8, prom: Option<u8>) -> bool {
    &&& src < 64
    &&& dst < 64
    &&& prom matches Some(p) ==> 1 <= p <= 4
}

impl Move16 {
    pub open spec fn source_spec(self) -> u8 {
        (self.mv as int / 1024) as u8
    }

    pub open spec fn dest_spec(self) -> u8 {
        ((self.mv as int / 16) % 64) as u8
    }

    pub open spec fn promotion_spec(self) -> Option<u8> {
        if (self.mv as int / 4) % 2 == 1 {
            Some((self.mv as int % 4 + 1) as u8)
        } else {
            None
        }
    }

    /// The packed form of `m`.
    pub open spec fn of_move(m: chess::ChessMove) -> Move16 {
        Move16 { mv: encode(source_of(m), dest_of(m), promotion_of(m)) }
    }

    /// Packs a source square, a destination square and an optional promotion piece.
    pub fn from_parts(src: u8, dst: u8, prom: Option<u8>) -> (r: Move16)
        ensures
            r.mv == encode(src, dst, prom),
            src % 64 != dst % 64 ==> r.mv != 0,
    {
        let s: u16 = (src & 63) as u16;
        let d: u16 = (dst & 63) as u16;
        let low: u16 = match prom {
            Some(p) => 4 | ((p as u16).wrapping_sub(1) & 3),
            None => 0,
        };
        proof {
            lemma_pack_bits(src, dst, s, d);
            match prom {
                Some(p) => lemma_promotion_bits(p),
                None => {},
            }
        }
        Move16 { mv: (s << 10) | (d << 4) | low }
    }

    /// Packs a move of the `chess` crate.
    pub fn from_move(m: chess::ChessMove) -> (r: Move16)
        ensures
            r == Move16::of_move(m),
    {
        let src = move_source(&m);
        let dst = move_dest(&m);
        let prom = move_promotion(&m);
        Move16::from_parts(src, dst, prom)
    }

    /// The source square's index.
    pub fn source(&self) -> (r: u8)
        ensures
            r == self.source_spec(),
            r < 64,
    {
        let v = self.mv;
        assert(v >> 10 == v / 1024) by (bit_vector);
        assert(v / 1024 < 64) by (bit_vector);
        (v >> 10) as u8
    }

    /// The destination square's index.
    pub fn dest(&self) -> (r: u8)
        ensures
            r == self.dest_spec(),
            r < 64,
    {
        let v = self.mv;
        assert((v >> 4) & 63 == (v / 16) % 64) by (bit_vector);
        ((v >> 4) & 63) as u8
    }

    /// The promotion piece's index, knight 1 .. queen 4, when the flag is set.
    pub fn promotion(&self) -> (r: Option<u8>)
        ensures
            r == self.promotion_spec(),
            r matches Some(p) ==> 1 <= p <= 4,
    {
        let v = self.mv;
        assert((v & 4 != 0) == ((v / 4) % 2 == 1)) by (bit_vector);
        assert(v & 3 == v % 4) by (bit_vector);
        if v & 4 != 0 {
            Some(((v & 3) + 1) as u8)
        } else {
            None
        }
    }

    /// Unpacks into a move of the `chess` crate.
    pub fn to_move(&self) -> (r: chess::ChessMove)
        ensures
            source_of(r) == self.source_spec(),
            dest_of(r) == self.dest_spec(),
            promotion_of(r) == self.promotion_spec(),
            forall|m: chess::ChessMove|
                source_of(m) == self.source_spec() && dest_of(m) == self.dest_spec()
                    && promotion_of(m) == self.promotion_spec() ==> m == r,
    {
        let src = self.source();
        let dst = self.dest();
        let prom = self.promotion();
        new_move(src, dst, prom)
    }
}

impl From<u16> for Move16 {
    fn from(mv: u16) -> (r: Move16) {
        Move16 { mv }
    }
}

impl vstd::std_specs::convert::FromSpecImpl<u16> for Move16 {
    open spec fn obeys_from_spec() -> bool {
        true
    }

    open spec fn from_spec(mv: u16) -> Move16 {
        Move16 { mv }
    }
}

impl From<Move16> for u16 {
    fn from(m: Move16) -> (r: u16) {
        m.mv
    }
}

impl vstd::std_specs::convert::FromSpecImpl<Move16> for u16 {
    open spec fn obeys_from_spec() -> bool {
        true
    }

    open spec fn from_spec(m: Move16) -> u16 {
        m.mv
    }
}

proof fn lemma_pack_bits(src: u8, dst: u8, s: u16, d: u16)
    requires
        s == (src & 63) as u16,
        d == (dst & 63) as u16,
    ensures
        s == src as int % 64,
        d == dst as int % 64,
        forall|low: u16| low < 8 ==> #[trigger] ((s << 10) | (d << 4) | low) == s * 1024 + d * 16 + low,
{
    assert(src & 63 == src % 64) by (bit_vector);
    assert(dst & 63 == dst % 64) by (bit_vector);
    assert forall|low: u16| low < 8 implies #[trigger] ((s << 10) | (d << 4) | low) == s * 1024 + d * 16 + low by {
        assert(s < 64 && d < 64 && low < 8 ==> ((s << 10) | (d << 4) | low) == s * 1024 + d * 16 + low)
            by (bit_vector);
    }
}

proof fn lemma_promotion_bits(p: u8)
    ensures
        (4u16 | ((p as u16).wrapping_sub(1) & 3)) == 4 + promotion_code(p),
{
    let w = (p as u16).wrapping_sub(1);
    assert(w & 3 == w % 4) by (bit_vector);
    assert((4u16 | (w & 3)) == 4 + (w & 3)) by (bit_vector);
    if p == 0 {
        assert(w == 0xffff);
    } else {
        assert(w == p - 1);
    }
}

/// Packing a valid move and unpacking it gives back its squares and its
/// promotion piece: the round trip through sixteen bits is exact.
pub proof fn lemma_round_trip(src: u8, dst: u8, prom: Option<u8>)
    requires
        valid_parts(src, dst, prom),
    ensures
        (Move16 { mv: encode(src, dst, prom) }).source_spec() == src,
        (Move16 { mv: encode(src, dst, prom) }).dest_spec() == dst,
        (Move16 { mv: encode(src, dst, prom) }).promotion_spec() == prom,
{
    let low: int = match prom {
        Some(p) => 4 + promotion_code(p),
        None => 0,
    };
    assert(0 <= low < 8);
    let v: int = src as int * 1024 + dst as int * 16 + low;
    assert(v == encode(src, dst, prom) as int);
    assert(v / 1024 == src as int);
    assert(v / 16 == src as int * 64 + dst as int);
    assert((src as int * 64 + dst as int) % 64 == dst as int);
    assert(v / 4 == src as int * 256 + dst as int * 4 + low / 4);
    assert(v % 4 == low % 4);
}

/// For a move of the `chess` crate with valid parts, unpacking its packed form
/// gives a move equal to it.
pub proof fn lemma_move_round_trip(m: chess::ChessMove)
    requires
        valid_parts(source_of(m), dest_of(m), promotion_of(m)),
    ensures
        Move16::of_move(m).source_spec() == source_of(m),
        Move16::of_move(m).dest_spec() == dest_of(m),
        Move16::of_move(m).promotion_spec() == promotion_of(m),
{
    lemma_round_trip(source_of(m), dest_of(m), promotion_of(m));
}

} // verus!
