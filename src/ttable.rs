//! The transposition table: clusters of four packed entries, each entry one
//! 64-bit atomic word, so that a reader never sees half of a write.
//!
//! The decisions (which slot a probe lands on, whether a save replaces the
//! entry there) are pure functions over the entries of a cluster, stated by
//! `probe_spec` and `save_spec`; the table applies them to the words it loads.

use vstd::prelude::*;
use std::sync::atomic::{AtomicU64, AtomicU8, Ordering};
use crate::board::board_hash;
use crate::move16::Move16;

verus! {

pub const CLUSTER_SIZE: usize = 4;

/// Bytes in one cluster: four 8-byte entries.
pub const CLUSTER_BYTES: u64 = 32;

pub const GEN_BITS: u8 = 3;

/// What `new_search` adds to the generation counter.
pub const GEN_DELTA: u8 = 8;

pub const GEN_CYCLE: u16 = 263;

pub const GEN_MASK: u16 = 0xF8;

/// Which bound an entry's score is.
#[derive(Clone, Copy, PartialEq, Eq, Structural, Debug)]
pub enum EntryType {
    /// Exact score.
    Pv,
    /// Lower bound: the move caused a beta cutoff.
    Cut,
    /// Upper bound: no move raised alpha.
    All,
}

impl EntryType {
    pub open spec fn bits_spec(self) -> u8 {
        match self {
            EntryType::Pv => 4,
            EntryType::Cut => 2,
            EntryType::All => 1,
        }
    }

    /// The low three bits of `genbound` that mark this type.
    pub fn bits(&self) -> (r: u8)
        ensures
            r == self.bits_spec(),
    {
        match self {
            EntryType::Pv => 4,
            EntryType::Cut => 2,
            EntryType::All => 1,
        }
    }

    /// The type that `b` marks, if it marks one.
    pub fn from_bits(b: u8) -> (r: Option<EntryType>)
        ensures
            r matches Some(t) ==> t.bits_spec() == b,
            r is None <==> (b != 1 && b != 2 && b != 4),
    {
        if b == 4 {
            Some(EntryType::Pv)
        } else if b == 2 {
            Some(EntryType::Cut)
        } else if b == 1 {
            Some(EntryType::All)
        } else {
            None
        }
    }
}

impl From<EntryType> for u8 {
    fn from(et: EntryType) -> (r: u8) {
        et.bits()
    }
}

impl vstd::std_specs::convert::FromSpecImpl<EntryType> for u8 {
    open spec fn obeys_from_spec() -> bool {
        true
    }

    open spec fn from_spec(et: EntryType) -> u8 {
        et.bits_spec()
    }
}

/// One slot of the table, eight bytes once packed.
#[derive(Clone, Copy, PartialEq, Eq, Structural, Debug)]
pub struct TTEntry {
    /// The low sixteen bits of the position's hash.
    pub key16: u16,
    pub mv: Move16,
    pub eval: i16,
    /// Search depth of the score; 0 marks an empty slot.
    pub depth: u8,
    /// Generation in the high five bits, entry type in the low three.
    pub genbound: u8,
}

/// The packed word of an entry: key in bits 0..15, move in 16..31, score in
/// 32..47, depth in 48..55, `genbound` in 56..63.
pub open spec fn word_of(e: TTEntry) -> u64 {
    (e.key16 as u64) | ((e.mv.mv as u64) << 16u64) | (((#[verifier::truncate] (e.eval as u16)) as u64) << 32u64)
        | ((e.depth as u64) << 48u64) | ((e.genbound as u64) << 56u64)
}

/// The entry that a packed word holds.
pub open spec fn entry_of(w: u64) -> TTEntry {
    TTEntry {
        key16: w as u16,
        mv: Move16 { mv: (w >> 16u64) as u16 },
        eval: #[verifier::truncate] (((w >> 32u64) as u16) as i16),
        depth: (w >> 48u64) as u8,
        genbound: (w >> 56u64) as u8,
    }
}

impl TTEntry {
    pub fn new(key16: u16, mv: Move16, eval: i16, depth: u8, genbound: u8) -> (r: TTEntry)
        ensures
            r == (TTEntry { key16, mv, eval, depth, genbound }),
    {
        TTEntry { key16, mv, eval, depth, genbound }
    }

    /// The bound type in the low three bits of `genbound`, if they mark one.
    pub fn entry_type(&self) -> (r: Option<EntryType>)
        ensures
            r matches Some(t) ==> t.bits_spec() == self.genbound & 7,
            r is None <==> (self.genbound & 7 != 1 && self.genbound & 7 != 2 && self.genbound & 7 != 4),
    {
        EntryType::from_bits(self.genbound & 7)
    }

    /// Packs the entry into one word.
    pub fn to_word(&self) -> (r: u64)
        ensures
            r == word_of(*self),
    {
        (self.key16 as u64) | ((self.mv.mv as u64) << 16u64) | (((#[verifier::truncate] (self.eval as u16)) as u64) << 32u64)
            | ((self.depth as u64) << 48u64) | ((self.genbound as u64) << 56u64)
    }

    /// Unpacks a word.
    pub fn from_word(w: u64) -> (r: TTEntry)
        ensures
            r == entry_of(w),
    {
        TTEntry {
            key16: w as u16,
            mv: Move16 { mv: (w >> 16u64) as u16 },
            eval: #[verifier::truncate] (((w >> 32u64) as u16) as i16),
            depth: (w >> 48u64) as u8,
            genbound: (w >> 56u64) as u8,
        }
    }
}

/// Unpacking a packed entry gives back every field as written.
pub proof fn lemma_word_round_trip(e: TTEntry)
    ensures
        entry_of(word_of(e)) == e,
{
    let k = e.key16;
    let m = e.mv.mv;
    let v = #[verifier::truncate] (e.eval as u16);
    let d = e.depth;
    let g = e.genbound;
    let w = word_of(e);
    assert(w == (k as u64) | ((m as u64) << 16u64) | ((v as u64) << 32u64) | ((d as u64) << 48u64)
        | ((g as u64) << 56u64));
    assert(((k as u64) | ((m as u64) << 16u64) | ((v as u64) << 32u64) | ((d as u64) << 48u64)
        | ((g as u64) << 56u64)) as u16 == k) by (bit_vector);
    assert((((k as u64) | ((m as u64) << 16u64) | ((v as u64) << 32u64) | ((d as u64) << 48u64)
        | ((g as u64) << 56u64)) >> 16u64) as u16 == m) by (bit_vector);
    assert((((k as u64) | ((m as u64) << 16u64) | ((v as u64) << 32u64) | ((d as u64) << 48u64)
        | ((g as u64) << 56u64)) >> 32u64) as u16 == v) by (bit_vector);
    assert((((k as u64) | ((m as u64) << 16u64) | ((v as u64) << 32u64) | ((d as u64) << 48u64)
        | ((g as u64) << 56u64)) >> 48u64) as u8 == d) by (bit_vector);
    assert((((k as u64) | ((m as u64) << 16u64) | ((v as u64) << 32u64) | ((d as u64) << 48u64)
        | ((g as u64) << 56u64)) >> 56u64) as u8 == g) by (bit_vector);
    let x = e.eval;
    assert(((x as u16) as i16) == x) by (bit_vector);
}


/// A probe for `key16` stops at a slot that holds that key or is empty.
pub open spec fn is_hit(e: TTEntry, key16: u16) -> bool {
    e.key16 == key16 || e.depth == 0
}

/// `e` with its generation bits set to `gen` and its type bits kept.
pub open spec fn refreshed(e: TTEntry, gen: u8) -> TTEntry {
    TTEntry { genbound: gen | (e.genbound & 7), ..e }
}

/// How many generations old an entry is, in steps of `GEN_DELTA`.
pub open spec fn age_of(e: TTEntry, gen: u8) -> u8 {
    ((GEN_CYCLE + gen as u16 - e.genbound as u16) as u16 & GEN_MASK) as u8
}

/// An entry's worth against replacement: its depth less its age, wrapping.
/// The slot with the lowest worth is the one a new position takes.
pub open spec fn replace_value(e: TTEntry, gen: u8) -> u8 {
    ((e.depth as int - age_of(e, gen) as int) % 256) as u8
}

/// The first slot at or after `i` that is a hit for `key16`, or `es.len()`.
pub open spec fn first_hit(es: Seq<TTEntry>, key16: u16, i: int) -> int
    decreases es.len() - i,
{
    if i >= es.len() || i < 0 {
        es.len() as int
    } else if is_hit(es[i], key16) {
        i
    } else {
        first_hit(es, key16, i + 1)
    }
}

/// Among the first `n` slots, the first one of lowest worth.
pub open spec fn victim(es: Seq<TTEntry>, gen: u8, n: int) -> int
    decreases n,
{
    if n <= 1 {
        0
    } else {
        let v = victim(es, gen, n - 1);
        if replace_value(es[v], gen) > replace_value(es[n - 1], gen) {
            n - 1
        } else {
            v
        }
    }
}

/// What a probe of `key16` returns on a cluster holding `es`, at generation
/// `gen`: the entry found (refreshed), if any, and the slot to save into.
pub open spec fn probe_spec(es: Seq<TTEntry>, key16: u16, gen: u8) -> (Option<TTEntry>, int) {
    let h = first_hit(es, key16, 0);
    if h < es.len() {
        (if es[h].depth != 0 { Some(refreshed(es[h], gen)) } else { None }, h)
    } else {
        (None, victim(es, gen, es.len() as int))
    }
}

/// The cluster after a probe: the slot that was hit has its generation refreshed.
pub open spec fn probe_writes(es: Seq<TTEntry>, key16: u16, gen: u8) -> Seq<TTEntry> {
    let h = first_hit(es, key16, 0);
    if h < es.len() {
        es.update(h, refreshed(es[h], gen))
    } else {
        es
    }
}

/// What a save writes over `old`: the new entry when it is deeper, else nothing.
pub open spec fn save_spec(old: TTEntry, new: TTEntry) -> Option<TTEntry> {
    if new.depth > old.depth {
        Some(new)
    } else {
        None
    }
}

/// The slot index that the high 64 bits of `hash * n` name.
pub open spec fn cluster_index(hash: u64, n: nat) -> int {
    (hash as int * n) / 0x1_0000_0000_0000_0000
}

/// `e` with its generation bits set to `gen`, as a probe writes it back.
pub fn refresh_entry(e: &TTEntry, gen: u8) -> (r: TTEntry)
    ensures
        r == refreshed(*e, gen),
{
    TTEntry { genbound: gen | (e.genbound & 7), ..*e }
}

/// An entry's worth against replacement at generation `gen`.
pub fn replace_worth(e: &TTEntry, gen: u8) -> (r: u8)
    ensures
        r == replace_value(*e, gen),
{
    let age: u8 = ((GEN_CYCLE + gen as u16 - e.genbound as u16) & GEN_MASK) as u8;
    e.depth.wrapping_sub(age)
}

proof fn lemma_first_hit(es: Seq<TTEntry>, key16: u16, i: int)
    requires
        0 <= i <= es.len(),
    ensures
        i <= first_hit(es, key16, i) <= es.len(),
        first_hit(es, key16, i) < es.len() ==> is_hit(es[first_hit(es, key16, i)], key16),
        forall|j: int| i <= j < first_hit(es, key16, i) ==> !is_hit(#[trigger] es[j], key16),
    decreases es.len() - i,
{
    if i < es.len() && !is_hit(es[i], key16) {
        lemma_first_hit(es, key16, i + 1);
    }
}

proof fn lemma_first_hit_at(es: Seq<TTEntry>, key16: u16, i: int, s: int)
    requires
        0 <= i <= s < es.len(),
        is_hit(es[s], key16),
        forall|j: int| i <= j < s ==> !is_hit(#[trigger] es[j], key16),
    ensures
        first_hit(es, key16, i) == s,
    decreases s - i,
{
    if i < s {
        lemma_first_hit_at(es, key16, i + 1, s);
    }
}

proof fn lemma_victim_range(es: Seq<TTEntry>, gen: u8, n: int)
    requires
        1 <= n,
    ensures
        0 <= victim(es, gen, n) < n,
    decreases n,
{
    if n > 1 {
        lemma_victim_range(es, gen, n - 1);
    }
}

/// Picks the slot a probe of `key16` lands on in a cluster holding `es`.
pub fn probe_entries(es: &[TTEntry; 4], key16: u16, gen: u8) -> (r: (Option<TTEntry>, usize))
    ensures
        r.0 == probe_spec(es@, key16, gen).0,
        r.1 == probe_spec(es@, key16, gen).1,
        r.1 < 4,
{
    proof {
        lemma_first_hit(es@, key16, 0);
    }
    let mut replace_idx: usize = 0;
    let mut idx: usize = 0;
    while idx < CLUSTER_SIZE
        invariant
            0 <= idx <= 4,
            forall|j: int| 0 <= j < idx ==> !is_hit(#[trigger] es@[j], key16),
            idx >= 1 ==> replace_idx == victim(es@, gen, idx as int),
            idx == 0 ==> replace_idx == 0,
            replace_idx < 4,
        decreases 4 - idx,
    {
        let entry = es[idx];
        if entry.key16 == key16 || entry.depth == 0 {
            proof {
                lemma_first_hit_at(es@, key16, 0, idx as int);
            }
            let fresh = TTEntry { genbound: gen | (entry.genbound & 7), ..entry };
            if entry.depth != 0 {
                return (Some(fresh), idx);
            } else {
                return (None, idx);
            }
        }
        proof {
            if idx >= 1 {
                let v = victim(es@, gen, idx as int);
                assert(victim(es@, gen, idx as int + 1) == if replace_value(es@[v], gen) > replace_value(
                    es@[idx as int],
                    gen,
                ) {
                    idx as int
                } else {
                    v
                });
            }
        }
        if idx > 0 && replace_worth(&es[replace_idx], gen) > replace_worth(&entry, gen) {
            replace_idx = idx;
        }
        idx = idx + 1;
    }
    proof {
        if first_hit(es@, key16, 0) < 4 {
            let h = first_hit(es@, key16, 0);
            assert(!is_hit(es@[h], key16));
        }
    }
    (None, replace_idx)
}


/// Decides what a save writes over `old`: `new` when it is deeper, else nothing
/// (on equal depth the older entry stays).
pub fn save_decision(old: &TTEntry, new: TTEntry) -> (r: Option<TTEntry>)
    ensures
        r == save_spec(*old, new),
{
    if new.depth > old.depth {
        Some(new)
    } else {
        None
    }
}

/// A save into the slot that a probe named, when it is deeper than what the
/// slot held, is what the next probe of the same key returns, field for field,
/// as long as nothing else was written to that cluster in between.
pub proof fn lemma_save_then_probe(
    es: Seq<TTEntry>,
    key16: u16,
    gen: u8,
    mv: Move16,
    eval: i16,
    depth: u8,
    et: EntryType,
)
    requires
        es.len() >= 1,
        depth > probe_writes(es, key16, gen)[probe_spec(es, key16, gen).1].depth,
    ensures
        ({
            let s = probe_spec(es, key16, gen).1;
            let new = TTEntry { key16, mv, eval, depth, genbound: gen | et.bits_spec() };
            let es1 = probe_writes(es, key16, gen);
            &&& 0 <= s < es.len()
            &&& save_spec(es1[s], new) == Some(new)
            &&& probe_spec(es1.update(s, new), key16, gen) == (Some(new), s)
        }),
{
    let s = probe_spec(es, key16, gen).1;
    let new = TTEntry { key16, mv, eval, depth, genbound: gen | et.bits_spec() };
    let es1 = probe_writes(es, key16, gen);
    let es2 = es1.update(s, new);
    lemma_first_hit(es, key16, 0);
    let h = first_hit(es, key16, 0);
    if h >= es.len() {
        lemma_victim_range(es, gen, es.len() as int);
    }
    assert(0 <= s < es.len());
    assert forall|j: int| 0 <= j < s implies !is_hit(#[trigger] es2[j], key16) by {
        assert(es2[j] == es[j]);
    }
    lemma_first_hit_at(es2, key16, 0, s);
    let b = et.bits_spec();
    assert(b < 8);
    assert(b < 8 ==> (gen | ((gen | b) & 7)) == gen | b) by (bit_vector);
    assert(refreshed(new, gen) == new);
}

/// A cluster: four slots, each one packed entry in one atomic word.
pub struct TTCluster {
    pub entries: [AtomicU64; 4],
}

impl TTCluster {
    pub fn new() -> (r: TTCluster) {
        TTCluster {
            entries: [AtomicU64::new(0), AtomicU64::new(0), AtomicU64::new(0), AtomicU64::new(0)],
        }
    }

    /// Loads the entry in slot `idx`. Other threads may write the slot at any
    /// time, so nothing is known of what comes back.
    fn get_entry(&self, idx: usize) -> (r: TTEntry)
        requires
            idx < 4,
    {
        TTEntry::from_word(self.entries[idx].load(Ordering::SeqCst))
    }

    /// Stores `entry` into slot `idx` as one word.
    fn save_entry(&self, idx: usize, entry: TTEntry)
        requires
            idx < 4,
    {
        self.entries[idx].store(entry.to_word(), Ordering::SeqCst);
    }
}

/// The slot a probe names: cluster index and slot within the cluster.
pub type TTHandle = (usize, usize);

/// The high 64 bits of the 128-bit product `x * y`.
pub fn mul_hi_64(x: u64, y: u64) -> (r: u64)
    ensures
        r == (x as int * y as int) / 0x1_0000_0000_0000_0000,
        y > 0 ==> r < y,
{
    proof {
        assert(x as int * y as int <= 0xffff_ffff_ffff_ffff * 0xffff_ffff_ffff_ffff) by (nonlinear_arith);
        assert(y > 0 ==> (x as int * y as int) / 0x1_0000_0000_0000_0000 < y) by (nonlinear_arith)
            requires
                x < 0x1_0000_0000_0000_0000,
        ;
    }
    let xy: u128 = x as u128 * y as u128;
    assert(xy >> 64u128 == xy / 0x1_0000_0000_0000_0000) by (bit_vector);
    (xy >> 64u128) as u64
}

/// The transposition table, shared by all search threads through `&self`.
pub struct TTable {
    cluster_count: u64,
    gen8: AtomicU8,
    table: Vec<TTCluster>,
}

impl TTable {
    /// The table's shape is intact: one cluster per count, and at least one.
    pub closed spec fn wf(&self) -> bool {
        &&& self.table@.len() == self.cluster_count
        &&& self.cluster_count >= 1
    }

    /// The number of clusters.
    pub closed spec fn size(&self) -> nat {
        self.cluster_count as nat
    }

    /// A table of `mb_size` megabytes: `mb_size * 2^20 / 32` clusters, all empty.
    pub fn new(mb_size: u64) -> (r: TTable)
        requires
            1 <= mb_size,
            mb_size * 32768 <= usize::MAX,
        ensures
            r.wf(),
            r.size() == mb_size * 32768,
    {
        let cluster_count: u64 = mb_size * (0x10_0000 / CLUSTER_BYTES);
        let mut table: Vec<TTCluster> = Vec::new();
        while (table.len() as u64) < cluster_count
            invariant
                table@.len() <= cluster_count,
                cluster_count <= usize::MAX,
            decreases cluster_count - table@.len(),
        {
            table.push(TTCluster::new());
        }
        TTable { cluster_count, gen8: AtomicU8::new(0), table }
    }

    /// The current generation.
    fn gen8(&self) -> u8 {
        self.gen8.load(Ordering::Relaxed)
    }

    /// Starts a new generation: older entries age and become cheaper to replace.
    pub fn new_search(&self) {
        self.gen8.fetch_add(GEN_DELTA, Ordering::Relaxed);
    }

    /// How cheap `entry` is to replace at the current generation.
    pub fn entry_age(&self, entry: &TTEntry) -> (r: u8)
        ensures
            exists|gen: u8| r == replace_value(*entry, gen),
    {
        let gen = self.gen8();
        replace_worth(entry, gen)
    }

    /// The cluster that a hash maps to.
    fn get_cluster_idx(&self, hash: u64) -> (r: usize)
        requires
            self.wf(),
        ensures
            r == cluster_index(hash, self.size()),
            r < self.size(),
    {
        let h = mul_hi_64(hash, self.cluster_count);
        let n = self.table.len();
        assert(h < n);
        h as usize
    }

    fn get_entry(&self, handle: TTHandle) -> (r: TTEntry)
        requires
            self.wf(),
            handle.0 < self.size(),
            handle.1 < 4,
    {
        let (cluster_idx, idx) = handle;
        self.table[cluster_idx].get_entry(idx)
    }

    fn save_entry(&self, handle: TTHandle, entry: TTEntry)
        requires
            self.wf(),
            handle.0 < self.size(),
            handle.1 < 4,
    {
        let (cluster_idx, idx) = handle;
        self.table[cluster_idx].save_entry(idx, entry);
    }

    /// Looks up a position by its hash. The four slots of its cluster are
    /// loaded and `probe_entries` decides; the slot it lands on, if a hit, is
    /// written back with a fresh generation. Returns the entry found, which
    /// holds the key and is not empty, and the slot a save should use.
    pub fn probe_hash(&self, hash: u64) -> (r: (Option<TTEntry>, TTHandle))
        requires
            self.wf(),
        ensures
            r.1.0 == cluster_index(hash, self.size()),
            r.1.0 < self.size(),
            r.1.1 < 4,
            r.0 matches Some(e) ==> e.key16 == hash as u16 && e.depth != 0,
            exists|es: Seq<TTEntry>, gen: u8|
                es.len() == 4 && #[trigger] probe_spec(es, hash as u16, gen) == (r.0, r.1.1 as int),
    {
        let cluster_idx = self.get_cluster_idx(hash);
        let key16: u16 = hash as u16;
        let gen = self.gen8();
        let cluster = &self.table[cluster_idx];
        let es: [TTEntry; 4] = [cluster.get_entry(0), cluster.get_entry(1), cluster.get_entry(2), cluster.get_entry(3)];
        let (found, idx) = probe_entries(&es, key16, gen);
        proof {
            lemma_first_hit(es@, key16, 0);
        }
        let hit = es[idx].key16 == key16 || es[idx].depth == 0;
        if hit {
            cluster.save_entry(idx, refresh_entry(&es[idx], gen));
        }
        assert(probe_spec(es@, key16, gen) == (found, idx as int));
        (found, (cluster_idx, idx))
    }

    /// Looks up a position.
    pub fn probe(&self, board: &chess::Board) -> (r: (Option<TTEntry>, TTHandle))
        requires
            self.wf(),
        ensures
            r.1.0 == cluster_index(crate::board::hash_of(*board), self.size()),
            r.1.0 < self.size(),
            r.1.1 < 4,
            r.0 matches Some(e) ==> e.key16 == crate::board::hash_of(*board) as u16 && e.depth != 0,
            exists|es: Seq<TTEntry>, gen: u8|
                es.len() == 4 && #[trigger] probe_spec(es, crate::board::hash_of(*board) as u16, gen) == (
                    r.0,
                    r.1.1 as int,
                ),
    {
        let hash = board_hash(board);
        self.probe_hash(hash)
    }

    /// Saves a result for the position with hash `hash` into the slot `handle`
    /// names, when `save_decision` says the new entry is deeper than the old
    /// one loaded from the slot. Returns the entry written, if any: key, move,
    /// score, depth, and the current generation with the type bits.
    pub fn save_hash(&self, handle: TTHandle, hash: u64, mv: Move16, eval: i16, depth: u8, et: EntryType) -> (r: Option<TTEntry>)
        requires
            self.wf(),
            handle.0 < self.size(),
            handle.1 < 4,
        ensures
            exists|old: TTEntry, gen: u8|
                r == #[trigger] save_spec(old, TTEntry { key16: hash as u16, mv, eval, depth, genbound: gen | et.bits_spec() }),
    {
        let old = self.get_entry(handle);
        let gen = self.gen8();
        let genbound = gen | et.bits();
        let new = TTEntry::new(hash as u16, mv, eval, depth, genbound);
        let written = save_decision(&old, new);
        match written {
            Some(e) => {
                self.save_entry(handle, e);
            },
            None => {},
        }
        assert(written == save_spec(old, TTEntry { key16: hash as u16, mv, eval, depth, genbound: gen | et.bits_spec() }));
        written
    }

    /// Saves a result for `board` and its best move `mv`.
    pub fn save(&self, handle: TTHandle, board: &chess::Board, mv: chess::ChessMove, eval: i16, depth: u8, et: EntryType) -> (r: Option<TTEntry>)
        requires
            self.wf(),
            handle.0 < self.size(),
            handle.1 < 4,
        ensures
            exists|old: TTEntry, gen: u8|
                r == #[trigger] save_spec(
                    old,
                    TTEntry {
                        key16: crate::board::hash_of(*board) as u16,
                        mv: Move16::of_move(mv),
                        eval,
                        depth,
                        genbound: gen | et.bits_spec(),
                    },
                ),
    {
        let hash = board_hash(board);
        self.save_hash(handle, hash, Move16::from_move(mv), eval, depth, et)
    }
}


/// A move with a score: an entry of the root move list, or a move ordering hint.
#[derive(Clone, Copy, Debug)]
pub struct EvalMove {
    pub mv: chess::ChessMove,
    pub eval: i16,
}

impl EvalMove {
    pub fn new(mv: chess::ChessMove, eval: i16) -> (r: EvalMove)
        ensures
            r == (EvalMove { mv, eval }),
    {
        EvalMove { mv, eval }
    }

    /// `mv` scored by the static evaluation of the position it leads to, from
    /// the mover's point of view.
    pub fn new_on_board(mv: chess::ChessMove, board: &chess::Board) -> (r: EvalMove)
        requires
            crate::board::playable(*board),
            crate::board::is_legal(*board, mv),
        ensures
            r.mv == mv,
            r.eval == -crate::eval::eval_of(crate::board::after(*board, mv)),
    {
        let pos = crate::board::board_after(board, &mv);
        EvalMove::new(mv, -crate::eval::evaluate_board(&pos))
    }
}


/// Moves compare by score alone: two moves of equal score are equal.
impl PartialEq for EvalMove {
    fn eq(&self, other: &EvalMove) -> (r: bool) {
        self.eval == other.eval
    }
}

impl vstd::std_specs::cmp::PartialEqSpecImpl for EvalMove {
    open spec fn obeys_eq_spec() -> bool {
        true
    }

    open spec fn eq_spec(&self, other: &EvalMove) -> bool {
        self.eval == other.eval
    }
}

/// The order of scores, lowest first.
pub open spec fn score_order(a: i16, b: i16) -> std::cmp::Ordering {
    if a < b {
        std::cmp::Ordering::Less
    } else if a > b {
        std::cmp::Ordering::Greater
    } else {
        std::cmp::Ordering::Equal
    }
}

/// Moves are ordered by score, lowest first.
impl PartialOrd for EvalMove {
    fn partial_cmp(&self, other: &EvalMove) -> (r: Option<std::cmp::Ordering>) {
        if self.eval < other.eval {
            Some(std::cmp::Ordering::Less)
        } else if self.eval > other.eval {
            Some(std::cmp::Ordering::Greater)
        } else {
            Some(std::cmp::Ordering::Equal)
        }
    }
}

impl vstd::std_specs::cmp::PartialOrdSpecImpl for EvalMove {
    open spec fn obeys_partial_cmp_spec() -> bool {
        true
    }

    open spec fn partial_cmp_spec(&self, other: &EvalMove) -> Option<std::cmp::Ordering> {
        Some(score_order(self.eval, other.eval))
    }
}

} // verus!
