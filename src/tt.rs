use vstd::prelude::*;
use crate::types::{pack_move, unpack_move, Move};

verus! {

#[derive(Copy, Clone, PartialEq, Eq, Debug, Structural)]
pub enum Bound {
    Exact,
    Lower,
    Upper,
}

pub open spec fn bound_code(b: Bound) -> u64 {
    match b {
        Bound::Exact => 0,
        Bound::Lower => 1,
        Bound::Upper => 2,
    }
}

pub open spec fn bound_of_code(v: u8) -> Bound {
    if v == 0 {
        Bound::Exact
    } else if v == 1 {
        Bound::Lower
    } else {
        Bound::Upper
    }
}

impl Bound {
    fn from_u8(val: u8) -> (r: Bound)
        ensures
            r == bound_of_code(val),
    {
        if val == 0 {
            Bound::Exact
        } else if val == 1 {
            Bound::Lower
        } else {
            Bound::Upper
        }
    }

    fn code(self) -> (r: u64)
        ensures
            r == bound_code(self),
    {
        match self {
            Bound::Exact => 0,
            Bound::Lower => 1,
            Bound::Upper => 2,
        }
    }
}

/// A 16-byte table entry: the full key and a packed data word holding
/// score (bits 0-15, offset by 32768), move (16-31), depth (32-39),
/// age (40-47) and bound (48-49).
#[derive(Copy, Clone, Debug)]
pub struct TTEntry {
    pub key: u64,
    pub data: u64,
}

pub open spec fn pack_data(score: int, mv: u16, depth: int, age: u8, b: Bound) -> u64 {
    ((score + 32768) as u64) | ((mv as u64) << 16u64) | ((depth as u64) << 32u64) | ((
    age as u64) << 40u64) | (bound_code(b) << 48u64)
}

pub open spec fn entry_score(d: u64) -> int {
    (d & 0xFFFF) as int - 32768
}

pub open spec fn entry_move_bits(d: u64) -> u16 {
    ((d >> 16u64) & 0xFFFF) as u16
}

pub open spec fn entry_depth(d: u64) -> int {
    ((d >> 32u64) & 0xFF) as int
}

pub open spec fn entry_age(d: u64) -> u8 {
    ((d >> 40u64) & 0xFF) as u8
}

pub open spec fn entry_bound(d: u64) -> Bound {
    bound_of_code(((d >> 48u64) & 0x3) as u8)
}

proof fn lemma_unpack(s: u64, m: u64, d: u64, a: u64, b: u64)
    requires
        s < 0x10000,
        m < 0x10000,
        d < 0x100,
        a < 0x100,
        b < 4,
    ensures
        (s | (m << 16u64) | (d << 32u64) | (a << 40u64) | (b << 48u64)) & 0xFFFF == s,
        ((s | (m << 16u64) | (d << 32u64) | (a << 40u64) | (b << 48u64)) >> 16u64) & 0xFFFF == m,
        ((s | (m << 16u64) | (d << 32u64) | (a << 40u64) | (b << 48u64)) >> 32u64) & 0xFF == d,
        ((s | (m << 16u64) | (d << 32u64) | (a << 40u64) | (b << 48u64)) >> 40u64) & 0xFF == a,
        ((s | (m << 16u64) | (d << 32u64) | (a << 40u64) | (b << 48u64)) >> 48u64) & 0x3 == b,
{
    assert((s | (m << 16u64) | (d << 32u64) | (a << 40u64) | (b << 48u64)) & 0xFFFF == s)
        by (bit_vector)
        requires
            s < 0x10000,
            m < 0x10000,
            d < 0x100,
            a < 0x100,
            b < 4,
    ;
    assert(((s | (m << 16u64) | (d << 32u64) | (a << 40u64) | (b << 48u64)) >> 16u64) & 0xFFFF
        == m) by (bit_vector)
        requires
            s < 0x10000,
            m < 0x10000,
            d < 0x100,
            a < 0x100,
            b < 4,
    ;
    assert(((s | (m << 16u64) | (d << 32u64) | (a << 40u64) | (b << 48u64)) >> 32u64) & 0xFF == d)
        by (bit_vector)
        requires
            s < 0x10000,
            m < 0x10000,
            d < 0x100,
            a < 0x100,
            b < 4,
    ;
    assert(((s | (m << 16u64) | (d << 32u64) | (a << 40u64) | (b << 48u64)) >> 40u64) & 0xFF == a)
        by (bit_vector)
        requires
            s < 0x10000,
            m < 0x10000,
            d < 0x100,
            a < 0x100,
            b < 4,
    ;
    assert(((s | (m << 16u64) | (d << 32u64) | (a << 40u64) | (b << 48u64)) >> 48u64) & 0x3 == b)
        by (bit_vector)
        requires
            s < 0x10000,
            m < 0x10000,
            d < 0x100,
            a < 0x100,
            b < 4,
    ;
}

/// Packing an entry and reading its fields back gives the stored values.
pub proof fn lemma_entry_round_trip(score: int, mv: u16, depth: int, age: u8, b: Bound)
    requires
        -32768 <= score < 32768,
        0 <= depth < 256,
    ensures
        entry_score(pack_data(score, mv, depth, age, b)) == score,
        entry_move_bits(pack_data(score, mv, depth, age, b)) == mv,
        entry_depth(pack_data(score, mv, depth, age, b)) == depth,
        entry_age(pack_data(score, mv, depth, age, b)) == age,
        entry_bound(pack_data(score, mv, depth, age, b)) == b,
{
    lemma_unpack((score + 32768) as u64, mv as u64, depth as u64, age as u64, bound_code(b));
}

impl TTEntry {
    pub fn new(key: u64, depth: i16, score: i32, bound: Bound, best_move: Option<Move>, age: u8) -> (r:
        TTEntry)
        requires
            0 <= depth < 256,
            -32768 <= score < 32768,
        ensures
            r.key == key,
            r.data == pack_data(
                score as int,
                match best_move {
                    Some(m) => pack_move(m),
                    None => 0,
                },
                depth as int,
                age,
                bound,
            ),
    {
        let packed_move: u16 = match best_move {
            Some(m) => u16::from(m),
            None => 0,
        };
        let data = ((score as i64 + 32768) as u64) | ((packed_move as u64) << 16u64) | ((
        depth as u64) << 32u64) | ((age as u64) << 40u64) | (bound.code() << 48u64);
        TTEntry { key, data }
    }

    pub fn score(&self) -> (r: i32)
        ensures
            r == entry_score(self.data),
    {
        proof {
            lemma_mask_le(self.data, 0xFFFF);
        }
        ((self.data & 0xFFFF) as i64 - 32768) as i32
    }

    pub fn depth(&self) -> (r: i16)
        ensures
            r == entry_depth(self.data),
    {
        proof {
            lemma_mask_le(self.data >> 32u64, 0xFF);
        }
        ((self.data >> 32u64) & 0xFF) as i16
    }

    /// The stored move, or None where the packed move is zero.
    pub fn best_move(&self) -> (r: Option<Move>)
        ensures
            r == if entry_move_bits(self.data) == 0 {
                None
            } else {
                Some(unpack_move(entry_move_bits(self.data)))
            },
    {
        proof {
            lemma_mask_le(self.data >> 16u64, 0xFFFF);
        }
        let packed = ((self.data >> 16u64) & 0xFFFF) as u16;
        if packed == 0 {
            None
        } else {
            Some(Move::from(packed))
        }
    }

    pub fn age(&self) -> (r: u8)
        ensures
            r == entry_age(self.data),
    {
        proof {
            lemma_mask_le(self.data >> 40u64, 0xFF);
        }
        ((self.data >> 40u64) & 0xFF) as u8
    }

    pub fn bound(&self) -> (r: Bound)
        ensures
            r == entry_bound(self.data),
    {
        proof {
            lemma_mask_le(self.data >> 48u64, 0x3);
        }
        Bound::from_u8(((self.data >> 48u64) & 0x3) as u8)
    }

    pub fn is_empty(&self) -> (r: bool)
        ensures
            r == (self.key == 0),
    {
        self.key == 0
    }
}

proof fn lemma_mask_le(x: u64, m: u64)
    ensures
        x & m <= m,
{
    assert(x & m <= m) by (bit_vector);
}

pub open spec fn empty_entry() -> TTEntry {
    TTEntry { key: 0, data: 0 }
}

/// Four entries, one cache line.
#[derive(Copy, Clone, Debug)]
pub struct TTCluster {
    pub entries: [TTEntry; 4],
}

/// Index of the first entry at or after `j` holding `key` (4 when none).
pub open spec fn first_with_key(e: Seq<TTEntry>, key: u64, j: int) -> int
    decreases 4 - j,
{
    if j >= 4 {
        4
    } else if e[j].key == key {
        j
    } else {
        first_with_key(e, key, j + 1)
    }
}

/// Replacement quality: depth less the entry's age distance.
pub open spec fn quality(e: TTEntry, age: u8) -> int {
    entry_depth(e.data) - vstd::wrapping::u8_specs::wrapping_sub(age, entry_age(e.data)) as int
}

/// Index of the first entry of least quality among `j..4`.
pub open spec fn worst_from(e: Seq<TTEntry>, age: u8, j: int) -> int
    decreases 3 - j,
{
    if j >= 3 {
        3
    } else {
        let w = worst_from(e, age, j + 1);
        if quality(e[j], age) <= quality(e[w], age) {
            j
        } else {
            w
        }
    }
}

/// The bucket after storing `new` (whose age is the table's `age`): an entry
/// with the same key is overwritten when the new depth is at least as deep or
/// the entry is from another search; else the first empty entry is filled;
/// else the entry of least quality is evicted.
pub open spec fn stored_bucket(e: Seq<TTEntry>, key: u64, new: TTEntry, age: u8) -> Seq<TTEntry> {
    let k = first_with_key(e, key, 0);
    if k < 4 {
        if entry_age(e[k].data) != age || entry_depth(new.data) >= entry_depth(e[k].data) {
            e.update(k, new)
        } else {
            e
        }
    } else {
        let z = first_with_key(e, 0, 0);
        if z < 4 {
            e.update(z, new)
        } else {
            e.update(worst_from(e, age, 0), new)
        }
    }
}

fn find_key(c: &TTCluster, key: u64) -> (r: usize)
    ensures
        r == first_with_key(c.entries@, key, 0),
        r <= 4,
{
    let mut j: usize = 0;
    while j < 4
        invariant
            j <= 4,
            first_with_key(c.entries@, key, 0) == first_with_key(c.entries@, key, j as int),
        decreases 4 - j,
    {
        if c.entries[j].key == key {
            return j;
        }
        j += 1;
    }
    4
}

fn quality_exec(e: &TTEntry, age: u8) -> (r: i32)
    ensures
        r == quality(*e, age),
{
    e.depth() as i32 - age.wrapping_sub(e.age()) as i32
}

fn find_worst(c: &TTCluster, age: u8) -> (r: usize)
    ensures
        r == worst_from(c.entries@, age, 0),
        r < 4,
{
    let mut w: usize = 3;
    let mut j: usize = 3;
    while j > 0
        invariant
            j <= 3,
            w < 4,
            w == worst_from(c.entries@, age, j as int),
        decreases j,
    {
        j -= 1;
        if quality_exec(&c.entries[j], age) <= quality_exec(&c.entries[w], age) {
            w = j;
        }
    }
    w
}

pub fn empty_cluster() -> (r: TTCluster)
    ensures
        forall|j: int| 0 <= j < 4 ==> #[trigger] r.entries@[j] == empty_entry(),
{
    let r = TTCluster { entries: [TTEntry { key: 0, data: 0 }; 4] };
    proof {
        broadcast use vstd::array::group_array_axioms;

        assert(forall|j: int| 0 <= j < 4 ==> r.entries[j] == empty_entry());
    }
    r
}

/// The table: a power-of-two number of clusters, addressed by the low bits
/// of the key, and the current search age.
pub struct TransTable {
    pub slots: Vec<TTCluster>,
    pub mask: usize,
    pub age: u8,
}

pub const MAX_HASH_MB: usize = 4096;

impl TransTable {
    pub open spec fn wf(&self) -> bool {
        &&& self.slots@.len() == self.mask + 1
        &&& self.mask < usize::MAX
    }

    pub open spec fn index_of(&self, key: u64) -> int {
        ((key as usize) & self.mask) as int
    }

    /// A table of the largest power-of-two number of clusters that fits in
    /// `mb` MiB (64 bytes per cluster).
    pub fn with_mb(mb: usize) -> (r: TransTable)
        requires
            1 <= mb <= MAX_HASH_MB,
        ensures
            r.wf(),
            r.age == 0,
            is_pow2(r.slots@.len() as int),
            r.slots@.len() * 64 <= mb * 1024 * 1024,
            r.slots@.len() * 128 > mb * 1024 * 1024,
            forall|i: int, j: int|
                0 <= i < r.slots@.len() && 0 <= j < 4 ==> #[trigger] r.slots@[i].entries@[j]
                    == empty_entry(),
    {
        let budget = mb * 16384;
        let mut n: usize = 1;
        while n * 2 <= budget
            invariant
                1 <= n <= budget,
                budget == mb * 16384,
                is_pow2(n as int),
                mb <= MAX_HASH_MB,
            decreases budget - n,
        {
            proof {
                assert((n * 2) as int / 2 == n as int);
            }
            n = n * 2;
        }
        let mut slots: Vec<TTCluster> = Vec::new();
        let mut i: usize = 0;
        while i < n
            invariant
                i <= n,
                slots@.len() == i,
                forall|a: int, j: int|
                    0 <= a < i && 0 <= j < 4 ==> #[trigger] slots@[a].entries@[j] == empty_entry(),
            decreases n - i,
        {
            slots.push(empty_cluster());
            i += 1;
        }
        TransTable { slots, mask: n - 1, age: 0 }
    }

    /// Starts a new search generation.
    pub fn tick_age(&mut self)
        ensures
            final(self).age == vstd::wrapping::u8_specs::wrapping_add(old(self).age, 1),
            final(self).slots == old(self).slots,
            final(self).mask == old(self).mask,
    {
        self.age = self.age.wrapping_add(1);
    }

    pub fn idx(&self, key: u64) -> (r: usize)
        requires
            self.wf(),
        ensures
            r == self.index_of(key),
            r < self.slots@.len(),
    {
        let k = key as usize;
        let m = self.mask;
        proof {
            assert(k & m <= m) by (bit_vector);
        }
        k & m
    }

    /// Empties every entry and starts a new generation.
    pub fn clear(&mut self)
        requires
            old(self).wf(),
        ensures
            final(self).wf(),
            final(self).mask == old(self).mask,
            final(self).age == vstd::wrapping::u8_specs::wrapping_add(old(self).age, 1),
            forall|i: int, j: int|
                0 <= i < final(self).slots@.len() && 0 <= j < 4
                    ==> #[trigger] final(self).slots@[i].entries@[j] == empty_entry(),
    {
        let n = self.slots.len();
        let mut i: usize = 0;
        while i < n
            invariant
                i <= n,
                n == self.slots@.len(),
                self.wf(),
                self.mask == old(self).mask,
                self.age == old(self).age,
                forall|a: int, j: int|
                    0 <= a < i && 0 <= j < 4 ==> #[trigger] self.slots@[a].entries@[j]
                        == empty_entry(),
            decreases n - i,
        {
            self.slots.set(i, empty_cluster());
            i += 1;
        }
        self.tick_age();
    }

    /// The first entry of the key's bucket that holds the key.
    pub fn probe(&self, key: u64) -> (r: Option<TTEntry>)
        requires
            self.wf(),
        ensures
            ({
                let e = self.slots@[self.index_of(key)].entries@;
                let k = first_with_key(e, key, 0);
                r == if k < 4 {
                    Some(e[k])
                } else {
                    None
                }
            }),
    {
        let i = self.idx(key);
        let j = find_key(&self.slots[i], key);
        if j < 4 {
            Some(self.slots[i].entries[j])
        } else {
            None
        }
    }

    /// Stores a search result under the replacement policy of `stored_bucket`.
    pub fn store(&mut self, key: u64, depth: i16, score: i32, bound: Bound, best_move: Option<Move>)
        requires
            old(self).wf(),
            0 <= depth < 256,
            -32768 <= score < 32768,
        ensures
            final(self).wf(),
            final(self).mask == old(self).mask,
            final(self).age == old(self).age,
            ({
                let i = old(self).index_of(key);
                let new = TTEntry {
                    key,
                    data: pack_data(
                        score as int,
                        match best_move {
                            Some(m) => pack_move(m),
                            None => 0,
                        },
                        depth as int,
                        old(self).age,
                        bound,
                    ),
                };
                &&& final(self).slots@.len() == old(self).slots@.len()
                &&& final(self).slots@[i].entries@ == stored_bucket(
                    old(self).slots@[i].entries@,
                    key,
                    new,
                    old(self).age,
                )
                &&& forall|a: int|
                    0 <= a < old(self).slots@.len() && a != i ==> #[trigger] final(self).slots@[a]
                        == old(self).slots@[a]
            }),
    {
        let i = self.idx(key);
        let mut cluster = self.slots[i];
        let new_entry = TTEntry::new(key, depth, score, bound, best_move, self.age);
        let k = find_key(&cluster, key);
        if k < 4 {
            let e = cluster.entries[k];
            if e.age() != self.age || new_entry.depth() >= e.depth() {
                cluster.entries[k] = new_entry;
            }
        } else {
            let z = find_key(&cluster, 0);
            if z < 4 {
                cluster.entries[z] = new_entry;
            } else {
                let w = find_worst(&cluster, self.age);
                cluster.entries[w] = new_entry;
            }
        }
        self.slots.set(i, cluster);
    }

    /// (filled entries, all entries): an entry is filled when its key is
    /// not zero.
    pub fn stats(&self) -> (r: (usize, usize))
        requires
            self.wf(),
            self.slots@.len() * 4 <= usize::MAX,
        ensures
            r.0 == filled_count(self.slots@, self.slots@.len() as int),
            r.1 == self.slots@.len() * 4,
            r.0 <= r.1,
    {
        let n = self.slots.len();
        let mut filled: usize = 0;
        let mut i: usize = 0;
        while i < n
            invariant
                i <= n,
                n == self.slots@.len(),
                n * 4 <= usize::MAX,
                filled == filled_count(self.slots@, i as int),
                filled <= i * 4,
            decreases n - i,
        {
            let c = cluster_filled(&self.slots[i]);
            filled = filled + c;
            i += 1;
        }
        (filled, n * 4)
    }

    /// Filled share of the table in permille: filled * 1000 / all.
    pub fn hashfull_permill(&self) -> (r: usize)
        requires
            self.wf(),
            self.slots@.len() * 4000 <= usize::MAX,
        ensures
            r == filled_count(self.slots@, self.slots@.len() as int) * 1000 / (
            self.slots@.len() as int * 4),
            r <= 1000,
    {
        let (filled, total) = self.stats();
        proof {
            assert(filled * 1000 <= total * 1000) by (nonlinear_arith)
                requires
                    filled <= total,
            ;
            assert((filled * 1000) as int / (total as int) <= 1000) by (nonlinear_arith)
                requires
                    filled * 1000 <= total * 1000,
                    total > 0,
            ;
        }
        filled * 1000 / total
    }
}

/// Filled entries (non-zero key) of one bucket.
pub open spec fn cluster_count(c: TTCluster) -> int {
    (if c.entries@[0].key != 0 {
        1int
    } else {
        0
    }) + (if c.entries@[1].key != 0 {
        1int
    } else {
        0
    }) + (if c.entries@[2].key != 0 {
        1int
    } else {
        0
    }) + (if c.entries@[3].key != 0 {
        1int
    } else {
        0
    })
}

/// Filled entries of the first `n` buckets.
pub open spec fn filled_count(s: Seq<TTCluster>, n: int) -> int
    decreases n,
{
    if n <= 0 {
        0
    } else {
        filled_count(s, n - 1) + cluster_count(s[n - 1])
    }
}

fn cluster_filled(c: &TTCluster) -> (r: usize)
    ensures
        r == cluster_count(*c),
        r <= 4,
{
    let mut n: usize = 0;
    if !c.entries[0].is_empty() {
        n += 1;
    }
    if !c.entries[1].is_empty() {
        n += 1;
    }
    if !c.entries[2].is_empty() {
        n += 1;
    }
    if !c.entries[3].is_empty() {
        n += 1;
    }
    n
}

/// `n` is a power of two.
pub open spec fn is_pow2(n: int) -> bool
    decreases n,
{
    if n <= 0 {
        false
    } else if n == 1 {
        true
    } else {
        n % 2 == 0 && is_pow2(n / 2)
    }
}


} // verus!
