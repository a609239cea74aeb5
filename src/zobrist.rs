use vstd::prelude::*;
use crate::types::{piece_index, Color, Piece};

verus! {

/// The fixed key family: a splitmix64 mix of the key's position in the
/// family.  Keys 0..832 are piece-square keys (piece index * 64 + square),
/// 832..848 castle-mask keys, 848..856 en-passant file keys, 856 the
/// side-to-move key.
pub open spec fn zkey(n: u64) -> u64 {
    let z0 = vstd::wrapping::u64_specs::wrapping_mul(
        vstd::wrapping::u64_specs::wrapping_add(n, 1),
        0x9E3779B97F4A7C15u64,
    );
    let z1 = vstd::wrapping::u64_specs::wrapping_mul(z0 ^ (z0 >> 30u64), 0xBF58476D1CE4E5B9u64);
    let z2 = vstd::wrapping::u64_specs::wrapping_mul(z1 ^ (z1 >> 27u64), 0x94D049BB133111EBu64);
    z2 ^ (z2 >> 31u64)
}

pub fn zobrist_key(n: u64) -> (r: u64)
    ensures
        r == zkey(n),
{
    let z0 = n.wrapping_add(1).wrapping_mul(0x9E3779B97F4A7C15u64);
    let z1 = (z0 ^ (z0 >> 30u64)).wrapping_mul(0xBF58476D1CE4E5B9u64);
    let z2 = (z1 ^ (z1 >> 27u64)).wrapping_mul(0x94D049BB133111EBu64);
    z2 ^ (z2 >> 31u64)
}

pub open spec fn psq_key(p: Piece, s: int) -> u64 {
    if p == Piece::Empty {
        0
    } else {
        zkey((piece_index(p) * 64 + s) as u64)
    }
}

pub open spec fn castle_key(c: int) -> u64 {
    zkey((832 + c) as u64)
}

pub open spec fn ep_key(ep: int) -> u64 {
    if ep < 0 {
        0
    } else {
        zkey((848 + ep % 8) as u64)
    }
}

pub open spec fn side_key(c: Color) -> u64 {
    if c == Color::Black {
        zkey(856)
    } else {
        0
    }
}

/// The key tables, filled from the key family.
#[derive(Clone)]
pub struct Zobrist {
    pub piece: Vec<u64>,
    pub castle: Vec<u64>,
    pub ep_file: Vec<u64>,
    pub side: u64,
}

fn key_table(base: u64, n: u64) -> (r: Vec<u64>)
    requires
        base + n < 1000,
    ensures
        r@.len() == n,
        forall|i: int| 0 <= i < n ==> #[trigger] r@[i] == zkey((base + i) as u64),
{
    let mut v: Vec<u64> = Vec::new();
    let mut i: u64 = 0;
    while i < n
        invariant
            i <= n,
            base + n < 1000,
            v@.len() == i,
            forall|j: int| 0 <= j < i ==> #[trigger] v@[j] == zkey((base + j) as u64),
        decreases n - i,
    {
        v.push(zobrist_key(base + i));
        i += 1;
    }
    v
}

impl Zobrist {
    pub open spec fn wf(&self) -> bool {
        &&& self.piece@.len() == 832
        &&& self.castle@.len() == 16
        &&& self.ep_file@.len() == 8
        &&& forall|i: int| 0 <= i < 832 ==> #[trigger] self.piece@[i] == zkey(i as u64)
        &&& forall|i: int| 0 <= i < 16 ==> #[trigger] self.castle@[i] == zkey((832 + i) as u64)
        &&& forall|i: int| 0 <= i < 8 ==> #[trigger] self.ep_file@[i] == zkey((848 + i) as u64)
        &&& self.side == zkey(856)
    }

    pub fn new() -> (r: Zobrist)
        ensures
            r.wf(),
    {
        Zobrist {
            piece: key_table(0, 832),
            castle: key_table(832, 16),
            ep_file: key_table(848, 8),
            side: zobrist_key(856),
        }
    }

    /// Key of piece `pc` standing on `sq` (0 for Empty).
    pub fn piece_key(&self, pc: Piece, sq: usize) -> (r: u64)
        requires
            self.wf(),
            sq < 64,
        ensures
            r == psq_key(pc, sq as int),
    {
        if pc.is_empty() {
            0
        } else {
            self.piece[pc.index() * 64 + sq]
        }
    }

    pub fn castle_key(&self, c: u8) -> (r: u64)
        requires
            self.wf(),
            c < 16,
        ensures
            r == castle_key(c as int),
    {
        self.castle[c as usize]
    }

    pub fn ep_key(&self, ep: i32) -> (r: u64)
        requires
            self.wf(),
            ep == -1 || 0 <= ep < 64,
        ensures
            r == ep_key(ep as int),
    {
        if ep < 0 {
            0
        } else {
            self.ep_file[(ep % 8) as usize]
        }
    }
}

} // verus!
