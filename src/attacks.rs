use vstd::prelude::*;
use crate::bits::{bit, has_bit, lemma_bit_zero, with_bit};
use crate::types::Color;

verus! {

pub open spec fn on_board(s: int) -> bool {
    0 <= s < 64
}

pub open spec fn abs_diff(a: int, b: int) -> int {
    if a >= b {
        a - b
    } else {
        b - a
    }
}

/// Distance between the files of two squares.
pub open spec fn fdist(a: int, b: int) -> int {
    abs_diff(a % 8, b % 8)
}

/// Distance between the ranks of two squares.
pub open spec fn rdist(a: int, b: int) -> int {
    abs_diff(a / 8, b / 8)
}

pub open spec fn knight_reach(a: int, b: int) -> bool {
    &&& on_board(a)
    &&& on_board(b)
    &&& (fdist(a, b) == 1 && rdist(a, b) == 2) || (fdist(a, b) == 2 && rdist(a, b) == 1)
}

pub open spec fn king_reach(a: int, b: int) -> bool {
    &&& on_board(a)
    &&& on_board(b)
    &&& a != b
    &&& fdist(a, b) <= 1
    &&& rdist(a, b) <= 1
}

/// A pawn of color `c` on `a` attacks `b`.
pub open spec fn pawn_reach(c: Color, a: int, b: int) -> bool {
    &&& on_board(a)
    &&& on_board(b)
    &&& fdist(a, b) == 1
    &&& if c == Color::White {
        b / 8 == a / 8 + 1
    } else {
        b / 8 == a / 8 - 1
    }
}

pub open spec fn strictly_between(x: int, y: int, z: int) -> bool {
    (x < y && y < z) || (z < y && y < x)
}

/// `a` and `b` are distinct squares on one rank or file (`diag` false), or on
/// one diagonal (`diag` true).
pub open spec fn aligned(diag: bool, a: int, b: int) -> bool {
    &&& on_board(a)
    &&& on_board(b)
    &&& a != b
    &&& if diag {
        fdist(a, b) == rdist(a, b)
    } else {
        a / 8 == b / 8 || a % 8 == b % 8
    }
}

/// `u` lies strictly between `a` and `b` on their common line.
pub open spec fn between(diag: bool, a: int, u: int, b: int) -> bool {
    &&& on_board(u)
    &&& if diag {
        &&& fdist(a, u) == rdist(a, u)
        &&& fdist(u, b) == rdist(u, b)
        &&& strictly_between(a % 8, u % 8, b % 8)
        &&& strictly_between(a / 8, u / 8, b / 8)
    } else {
        ||| (a / 8 == u / 8 && u / 8 == b / 8 && strictly_between(a % 8, u % 8, b % 8))
        ||| (a % 8 == u % 8 && u % 8 == b % 8 && strictly_between(a / 8, u / 8, b / 8))
    }
}

/// A slider on `a` attacks `b` under occupancy `occ`: they are aligned and no
/// occupied square stands between them.  The attacked square itself may be
/// occupied.
pub open spec fn slider_attack(diag: bool, occ: u64, a: int, b: int) -> bool {
    &&& aligned(diag, a, b)
    &&& forall|u: int| #[trigger] between(diag, a, u, b) ==> !bit(occ, u)
}

pub fn diff(a: usize, b: usize) -> (r: usize)
    ensures
        r == abs_diff(a as int, b as int),
{
    if a >= b {
        a - b
    } else {
        b - a
    }
}

pub fn strictly_between_exec(x: usize, y: usize, z: usize) -> (r: bool)
    ensures
        r == strictly_between(x as int, y as int, z as int),
{
    (x < y && y < z) || (z < y && y < x)
}

pub fn aligned_exec(diag: bool, a: usize, b: usize) -> (r: bool)
    requires
        a < 64,
        b < 64,
    ensures
        r == aligned(diag, a as int, b as int),
{
    if a == b {
        false
    } else if diag {
        diff(a % 8, b % 8) == diff(a / 8, b / 8)
    } else {
        a / 8 == b / 8 || a % 8 == b % 8
    }
}

pub fn between_exec(diag: bool, a: usize, u: usize, b: usize) -> (r: bool)
    requires
        a < 64,
        u < 64,
        b < 64,
    ensures
        r == between(diag, a as int, u as int, b as int),
{
    if diag {
        diff(a % 8, u % 8) == diff(a / 8, u / 8) && diff(u % 8, b % 8) == diff(u / 8, b / 8)
            && strictly_between_exec(a % 8, u % 8, b % 8) && strictly_between_exec(
            a / 8,
            u / 8,
            b / 8,
        )
    } else {
        (a / 8 == u / 8 && u / 8 == b / 8 && strictly_between_exec(a % 8, u % 8, b % 8)) || (a % 8
            == u % 8 && u % 8 == b % 8 && strictly_between_exec(a / 8, u / 8, b / 8))
    }
}

/// No square of `occ` stands strictly between `a` and `b`.
pub fn path_clear(diag: bool, occ: u64, a: usize, b: usize) -> (r: bool)
    requires
        a < 64,
        b < 64,
    ensures
        r == (forall|u: int| #[trigger] between(diag, a as int, u, b as int) ==> !bit(occ, u)),
{
    let mut u: usize = 0;
    while u < 64
        invariant
            u <= 64,
            a < 64,
            b < 64,
            forall|v: int| 0 <= v < u && #[trigger] between(diag, a as int, v, b as int) ==> !bit(occ, v),
        decreases 64 - u,
    {
        if between_exec(diag, a, u, b) && has_bit(occ, u) {
            return false;
        }
        u += 1;
    }
    true
}

/// Squares attacked by a slider on `sq` under occupancy `occ`.
pub fn slider_attacks(diag: bool, sq: usize, occ: u64) -> (r: u64)
    requires
        sq < 64,
    ensures
        forall|t: int| #[trigger] bit(r, t) == slider_attack(diag, occ, sq as int, t),
{
    let mut att: u64 = 0;
    proof {
        lemma_bit_zero();
    }
    let mut t: usize = 0;
    while t < 64
        invariant
            t <= 64,
            sq < 64,
            forall|v: int| #[trigger] bit(att, v) == (v < t && slider_attack(diag, occ, sq as int, v)),
        decreases 64 - t,
    {
        if aligned_exec(diag, sq, t) && path_clear(diag, occ, sq, t) {
            att = with_bit(att, t);
        }
        t += 1;
    }
    att
}

/// Squares a rook on `sq` attacks under occupancy `occ`.
pub fn get_rook_attacks(sq: usize, occ: u64) -> (r: u64)
    requires
        sq < 64,
    ensures
        forall|t: int| #[trigger] bit(r, t) == slider_attack(false, occ, sq as int, t),
{
    slider_attacks(false, sq, occ)
}

/// Squares a bishop on `sq` attacks under occupancy `occ`.
pub fn get_bishop_attacks(sq: usize, occ: u64) -> (r: u64)
    requires
        sq < 64,
    ensures
        forall|t: int| #[trigger] bit(r, t) == slider_attack(true, occ, sq as int, t),
{
    slider_attacks(true, sq, occ)
}

pub fn knight_attacks_from(sq: usize) -> (r: u64)
    requires
        sq < 64,
    ensures
        forall|t: int| #[trigger] bit(r, t) == knight_reach(sq as int, t),
{
    let mut att: u64 = 0;
    proof {
        lemma_bit_zero();
    }
    let mut t: usize = 0;
    while t < 64
        invariant
            t <= 64,
            sq < 64,
            forall|v: int| #[trigger] bit(att, v) == (v < t && knight_reach(sq as int, v)),
        decreases 64 - t,
    {
        let fd = diff(sq % 8, t % 8);
        let rd = diff(sq / 8, t / 8);
        if (fd == 1 && rd == 2) || (fd == 2 && rd == 1) {
            att = with_bit(att, t);
        }
        t += 1;
    }
    att
}

pub fn king_attacks_from(sq: usize) -> (r: u64)
    requires
        sq < 64,
    ensures
        forall|t: int| #[trigger] bit(r, t) == king_reach(sq as int, t),
{
    let mut att: u64 = 0;
    proof {
        lemma_bit_zero();
    }
    let mut t: usize = 0;
    while t < 64
        invariant
            t <= 64,
            sq < 64,
            forall|v: int| #[trigger] bit(att, v) == (v < t && king_reach(sq as int, v)),
        decreases 64 - t,
    {
        if t != sq && diff(sq % 8, t % 8) <= 1 && diff(sq / 8, t / 8) <= 1 {
            att = with_bit(att, t);
        }
        t += 1;
    }
    att
}

/// Squares a pawn of color `c` on `sq` attacks.
pub fn pawn_attacks_from(c: Color, sq: usize) -> (r: u64)
    requires
        sq < 64,
    ensures
        forall|t: int| #[trigger] bit(r, t) == pawn_reach(c, sq as int, t),
{
    let mut att: u64 = 0;
    proof {
        lemma_bit_zero();
    }
    let mut t: usize = 0;
    while t < 64
        invariant
            t <= 64,
            sq < 64,
            forall|v: int| #[trigger] bit(att, v) == (v < t && pawn_reach(c, sq as int, v)),
        decreases 64 - t,
    {
        let forward = match c {
            Color::White => t / 8 == sq / 8 + 1,
            Color::Black => t / 8 + 1 == sq / 8,
        };
        if diff(sq % 8, t % 8) == 1 && forward {
            att = with_bit(att, t);
        }
        t += 1;
    }
    att
}

} // verus!
