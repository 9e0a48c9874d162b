use std::sync::atomic::AtomicU64;

use chess::{ChessMove, Piece, ALL_SQUARES, PROMOTION_PIECES};
use transparov::move16::Move16;
use transparov::ttable::{
    mul_hi_64, probe_entries, save_decision, EntryType, TTCluster, TTEntry, TTable,
};

#[test]
fn test_sizes() {
    assert_eq!(std::mem::size_of::<TTCluster>(), 32);
    assert_eq!(std::mem::size_of::<AtomicU64>(), 8);
}

fn conversion_works(mv: ChessMove) -> bool {
    let mv16 = Move16::from_move(mv);
    let chess_move: ChessMove = mv16.to_move();
    mv == chess_move
}

#[test]
fn test_move_conversion() {
    for src in 0..64usize {
        for dst in 0..64usize {
            if dst == src {
                continue;
            }
            let (src_sq, dst_sq) = (ALL_SQUARES[src], ALL_SQUARES[dst]);
            let non_prom = ChessMove::new(src_sq, dst_sq, None);
            assert!(conversion_works(non_prom));

            for piece in PROMOTION_PIECES {
                let mv = ChessMove::new(src_sq, dst_sq, Some(piece));
                assert!(conversion_works(mv));
            }
        }
    }
}

#[test]
fn move16_layout() {
    // e2e4: source 12, destination 28.
    let m = Move16::from_parts(12, 28, None);
    assert_eq!(u16::from(m), (12 << 10) | (28 << 4));
    assert_eq!(m.source(), 12);
    assert_eq!(m.dest(), 28);
    assert_eq!(m.promotion(), None);
    // a7a8=Q: queen is piece index 4, code 3, flag bit 2.
    let q = Move16::from_parts(48, 56, Some(4));
    assert_eq!(q.mv, (48 << 10) | (56 << 4) | 4 | 3);
    assert_eq!(q.promotion(), Some(4));
    let n = Move16::from_parts(48, 56, Some(1));
    assert_eq!(n.mv & 7, 4);
    assert_eq!(Move16::from(0x1234u16).mv, 0x1234);
}

#[test]
fn move16_from_chess_move() {
    let mv = ChessMove::new(ALL_SQUARES[52], ALL_SQUARES[60], Some(Piece::Knight));
    let m = Move16::from_move(mv);
    assert_eq!(m.source(), 52);
    assert_eq!(m.dest(), 60);
    assert_eq!(m.promotion(), Some(1));
    assert_ne!(m.mv, 0);
}

#[test]
fn entry_word_round_trip() {
    let e = TTEntry::new(0xBEEF, Move16::from(0x1234u16), -31999, 7, 0x28 | 4);
    let w = e.to_word();
    assert_eq!(w, 0xBEEF | (0x1234 << 16) | ((-31999i16 as u16 as u64) << 32) | (7 << 48) | (0x2C << 56));
    assert_eq!(TTEntry::from_word(w), e);
    assert_eq!(e.entry_type(), Some(EntryType::Pv));
    assert_eq!(TTEntry::new(0, Move16::from(0u16), 0, 0, 0x10 | 2).entry_type(), Some(EntryType::Cut));
    assert_eq!(TTEntry::new(0, Move16::from(0u16), 0, 0, 0x10).entry_type(), None);
}

#[test]
fn entry_type_bits() {
    assert_eq!(u8::from(EntryType::Pv), 4);
    assert_eq!(u8::from(EntryType::Cut), 2);
    assert_eq!(u8::from(EntryType::All), 1);
    assert_eq!(EntryType::from_bits(1), Some(EntryType::All));
    assert_eq!(EntryType::from_bits(3), None);
}

#[test]
fn high_product() {
    assert_eq!(mul_hi_64(u64::MAX, 32768), 32767);
    assert_eq!(mul_hi_64(1 << 63, 4), 2);
    assert_eq!(mul_hi_64(12345, 32768), 0);
}

fn entry(key16: u16, depth: u8, genbound: u8) -> TTEntry {
    TTEntry::new(key16, Move16::from(0x0410u16), 10, depth, genbound)
}

#[test]
fn probe_picks_first_hit_then_victim() {
    let es = [entry(1, 3, 4), entry(2, 0, 0), entry(3, 3, 4), entry(4, 3, 4)];
    // Key 3 is behind an empty slot: the empty slot comes first.
    assert_eq!(probe_entries(&es, 3, 0), (None, 1));
    // Key 1 is found and its generation refreshed.
    let (found, slot) = probe_entries(&es, 1, 0x18);
    assert_eq!(slot, 0);
    assert_eq!(found.unwrap().genbound, 0x18 | 4);
    // A full cluster without the key: the shallowest slot is the victim.
    let full = [entry(1, 5, 4), entry(2, 2, 4), entry(3, 2, 4), entry(4, 9, 4)];
    assert_eq!(probe_entries(&full, 7, 0), (None, 1));
    // Age counts against depth: two generations back costs 16.
    let aged = [entry(1, 5, 0x10 | 4), entry(2, 20, 4), entry(3, 20, 4), entry(4, 6, 0x10 | 4)];
    assert_eq!(probe_entries(&aged, 7, 0x10), (None, 1));
}

#[test]
fn save_replaces_only_deeper() {
    let old = entry(1, 4, 4);
    assert_eq!(save_decision(&old, entry(2, 4, 4)), None);
    assert_eq!(save_decision(&old, entry(2, 5, 4)), Some(entry(2, 5, 4)));
}

#[test]
fn tt_save_then_probe() {
    let tt = TTable::new(1);
    let hash: u64 = 0x0123_4567_89AB_CDEF;
    let (found, handle) = tt.probe_hash(hash);
    assert!(found.is_none());
    assert_eq!(handle.0 as u64, mul_hi_64(hash, 32768));
    let mv = Move16::from_parts(12, 28, None);
    tt.save_hash(handle, hash, mv, 123, 6, EntryType::Pv);
    let (found, handle2) = tt.probe_hash(hash);
    assert_eq!(handle2, handle);
    let e = found.unwrap();
    assert_eq!(e.key16, 0xCDEF);
    assert_eq!(e.mv, mv);
    assert_eq!(e.eval, 123);
    assert_eq!(e.depth, 6);
    assert_eq!(e.entry_type(), Some(EntryType::Pv));
    // A shallower save does not overwrite.
    tt.save_hash(handle, hash, mv, -5, 2, EntryType::All);
    assert_eq!(tt.probe_hash(hash).0.unwrap().eval, 123);
}

#[test]
fn tt_replacement_in_full_cluster() {
    let tt = TTable::new(1);
    let mv = Move16::from_parts(1, 2, None);
    for key in 1..=4u64 {
        let (found, handle) = tt.probe_hash(key);
        assert!(found.is_none());
        assert_eq!(handle, (0, (key - 1) as usize));
        tt.save_hash(handle, key, mv, 0, 3, EntryType::Pv);
    }
    let (found, handle) = tt.probe_hash(5);
    assert!(found.is_none());
    assert_eq!(handle, (0, 0));
    tt.save_hash(handle, 5, mv, 77, 5, EntryType::Pv);
    let e = tt.probe_hash(5).0.unwrap();
    assert_eq!(e.depth, 5);
    assert_eq!(e.eval, 77);
    assert!(tt.probe_hash(1).0.is_none());
    for key in 2..=4u64 {
        assert_eq!(tt.probe_hash(key).0.unwrap().depth, 3);
    }
}

#[test]
fn new_search_ages_entries() {
    let tt = TTable::new(1);
    let mv = Move16::from_parts(1, 2, None);
    let (_, handle) = tt.probe_hash(9);
    tt.save_hash(handle, 9, mv, 0, 3, EntryType::Cut);
    tt.new_search();
    let e = tt.probe_hash(9).0.unwrap();
    assert_eq!(e.genbound, 8 | 2);
}
