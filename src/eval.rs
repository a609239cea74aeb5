use vstd::prelude::*;
use crate::board::{piece_attacks, piece_attacks_exec, Board};
use crate::types::{piece_color, piece_kind, Color, Piece, PieceKind, BK_CASTLE, BQ_CASTLE, WK_CASTLE, WQ_CASTLE};

verus! {

pub const MAX_PHASE: i32 = 24;

pub const CASTLING_RIGHTS_BONUS: i32 = 25;

pub const BISHOP_PAIR_MG: i32 = 40;

pub const BISHOP_PAIR_EG: i32 = 60;

/// Middlegame and endgame value of a kind (king counts 0 here).
pub open spec fn kind_mg(k: PieceKind) -> int {
    match k {
        PieceKind::Pawn => 82,
        PieceKind::Knight => 337,
        PieceKind::Bishop => 365,
        PieceKind::Rook => 477,
        PieceKind::Queen => 1025,
        PieceKind::King => 0,
    }
}

pub open spec fn kind_eg(k: PieceKind) -> int {
    match k {
        PieceKind::Pawn => 94,
        PieceKind::Knight => 281,
        PieceKind::Bishop => 297,
        PieceKind::Rook => 512,
        PieceKind::Queen => 936,
        PieceKind::King => 0,
    }
}

/// Phase weight: knight and bishop 1, rook 2, queen 4.
pub open spec fn kind_phase(k: PieceKind) -> int {
    match k {
        PieceKind::Knight => 1,
        PieceKind::Bishop => 1,
        PieceKind::Rook => 2,
        PieceKind::Queen => 4,
        _ => 0,
    }
}

/// Signed contribution of a piece from White's point of view.
pub open spec fn signed(p: Piece, v: int) -> int {
    if piece_color(p) == Some(Color::White) {
        v
    } else {
        -v
    }
}

pub open spec fn piece_mg(p: Piece) -> int {
    match piece_kind(p) {
        Some(k) => signed(p, kind_mg(k)),
        None => 0,
    }
}

pub open spec fn piece_eg(p: Piece) -> int {
    match piece_kind(p) {
        Some(k) => signed(p, kind_eg(k)),
        None => 0,
    }
}

pub open spec fn piece_phase(p: Piece) -> int {
    match piece_kind(p) {
        Some(k) => kind_phase(k),
        None => 0,
    }
}

pub open spec fn sum_mg(po: Seq<Piece>, n: int) -> int
    decreases n,
{
    if n <= 0 {
        0
    } else {
        sum_mg(po, n - 1) + piece_mg(po[n - 1])
    }
}

pub open spec fn sum_eg(po: Seq<Piece>, n: int) -> int
    decreases n,
{
    if n <= 0 {
        0
    } else {
        sum_eg(po, n - 1) + piece_eg(po[n - 1])
    }
}

pub open spec fn sum_phase(po: Seq<Piece>, n: int) -> int
    decreases n,
{
    if n <= 0 {
        0
    } else {
        sum_phase(po, n - 1) + piece_phase(po[n - 1])
    }
}

pub open spec fn count_piece(po: Seq<Piece>, p: Piece, n: int) -> int
    decreases n,
{
    if n <= 0 {
        0
    } else {
        count_piece(po, p, n - 1) + if po[n - 1] == p {
            1int
        } else {
            0
        }
    }
}

/// Integer division rounding toward zero, as the machine divides.
pub open spec fn tdiv(a: int, d: int) -> int {
    if a >= 0 {
        a / d
    } else {
        -((-a) / d)
    }
}

/// Middlegame terms beyond material: castling rights and the bishop pair.
pub open spec fn extra_mg(po: Seq<Piece>, castle: u8) -> int {
    (if castle & (WK_CASTLE | WQ_CASTLE) != 0 {
        CASTLING_RIGHTS_BONUS as int
    } else {
        0
    }) - (if castle & (BK_CASTLE | BQ_CASTLE) != 0 {
        CASTLING_RIGHTS_BONUS as int
    } else {
        0
    }) + (if count_piece(po, Piece::WB, 64) >= 2 {
        BISHOP_PAIR_MG as int
    } else {
        0
    }) - (if count_piece(po, Piece::BB, 64) >= 2 {
        BISHOP_PAIR_MG as int
    } else {
        0
    })
}

pub open spec fn extra_eg(po: Seq<Piece>) -> int {
    (if count_piece(po, Piece::WB, 64) >= 2 {
        BISHOP_PAIR_EG as int
    } else {
        0
    }) - (if count_piece(po, Piece::BB, 64) >= 2 {
        BISHOP_PAIR_EG as int
    } else {
        0
    })
}

/// A pawn `pawn` stands on a file in `flo..=fhi` and a rank in `rlo..=rhi`.
pub open spec fn pawn_in_box(po: Seq<Piece>, pawn: Piece, flo: int, fhi: int, rlo: int, rhi: int) -> bool {
    exists|s: int|
        0 <= s < 64 && #[trigger] po[s] == pawn && flo <= s % 8 <= fhi && rlo <= s / 8 <= rhi
}

pub open spec fn passed_mg(r: int) -> int {
    if r == 1 {
        10
    } else if r == 2 {
        20
    } else if r == 3 {
        35
    } else if r == 4 {
        60
    } else if r == 5 {
        100
    } else if r == 6 {
        150
    } else {
        0
    }
}

pub open spec fn passed_eg(r: int) -> int {
    if r == 1 {
        20
    } else if r == 2 {
        40
    } else if r == 3 {
        70
    } else if r == 4 {
        110
    } else if r == 5 {
        160
    } else if r == 6 {
        220
    } else {
        0
    }
}

/// Structure terms of a pawn of color `c` on `sq`, from its own side's view:
/// isolated (-10, -20), doubled (-10, -25), passed (bonus by relative rank),
/// backward (-8, -15).  `mg` selects the middlegame or endgame value.
pub open spec fn pawn_terms(po: Seq<Piece>, sq: int, c: Color, mg: bool) -> int {
    let us = crate::types::make_piece(PieceKind::Pawn, c);
    let them = crate::types::make_piece(PieceKind::Pawn, crate::types::opposite(c));
    let f = sq % 8;
    let r = sq / 8;
    let rel = if c == Color::White {
        r
    } else {
        7 - r
    };
    let isolated = !pawn_in_box(po, us, f - 1, f - 1, 0, 7) && !pawn_in_box(po, us, f + 1, f + 1, 0, 7);
    let doubled = pawn_in_box(po, us, f, f, 0, r - 1) || pawn_in_box(po, us, f, f, r + 1, 7);
    let passed = if c == Color::White {
        !pawn_in_box(po, them, f - 1, f + 1, r + 1, 7)
    } else {
        !pawn_in_box(po, them, f - 1, f + 1, 0, r - 1)
    };
    let (blo, bhi, stop_attacker_rank) = if c == Color::White {
        (0, r - 1, r + 2)
    } else {
        (r + 1, 7, r - 2)
    };
    let backward = !pawn_in_box(po, us, f - 1, f - 1, blo, bhi) && !pawn_in_box(po, us, f + 1, f + 1, blo, bhi) && (pawn_in_box(po, them, f - 1, f - 1, stop_attacker_rank, stop_attacker_rank) || pawn_in_box(po, them, f + 1, f + 1, stop_attacker_rank, stop_attacker_rank));
    (if isolated { if mg { -10int } else { -20 } } else { 0 })
        + (if doubled { if mg { -10int } else { -25 } } else { 0 })
        + (if passed { if mg { passed_mg(rel) } else { passed_eg(rel) } } else { 0 })
        + (if backward { if mg { -8int } else { -15 } } else { 0 })
}

/// Pawn-structure sum over the first `n` squares, from White's view.
pub open spec fn pawn_sum(po: Seq<Piece>, n: int, mg: bool) -> int
    decreases n,
{
    if n <= 0 {
        0
    } else {
        pawn_sum(po, n - 1, mg) + if po[n - 1] == Piece::WP {
            pawn_terms(po, n - 1, Color::White, mg)
        } else if po[n - 1] == Piece::BP {
            -pawn_terms(po, n - 1, Color::Black, mg)
        } else {
            0
        }
    }
}

/// Number of squares among the first `n` that the piece on `u` attacks and
/// that hold no piece of its own color.
pub open spec fn reach_count(po: Seq<Piece>, occ: u64, u: int, n: int) -> int
    decreases n,
{
    if n <= 0 {
        0
    } else {
        reach_count(po, occ, u, n - 1) + if piece_attacks(po[u], occ, u, n - 1) && piece_color(
            po[n - 1],
        ) != piece_color(po[u]) {
            1int
        } else {
            0
        }
    }
}

/// Knight mobility table, saturating at its last entry.
pub open spec fn knight_mobility(n: int) -> int {
    if n <= 0 {
        -30
    } else if n <= 1 {
        -20
    } else if n <= 2 {
        -10
    } else if n <= 3 {
        0
    } else if n <= 4 {
        5
    } else if n <= 5 {
        10
    } else if n <= 6 {
        15
    } else if n <= 7 {
        20
    } else {
        25
    }
}

fn knight_mobility_exec(n: i32) -> (r: i32)
    ensures
        r == knight_mobility(n as int),
        -30 <= r <= 47,
{
    if n <= 0 {
        -30
    } else if n <= 1 {
        -20
    } else if n <= 2 {
        -10
    } else if n <= 3 {
        0
    } else if n <= 4 {
        5
    } else if n <= 5 {
        10
    } else if n <= 6 {
        15
    } else if n <= 7 {
        20
    } else {
        25
    }
}

/// Bishop mobility table, saturating at its last entry.
pub open spec fn bishop_mobility(n: int) -> int {
    if n <= 0 {
        -30
    } else if n <= 1 {
        -20
    } else if n <= 2 {
        -10
    } else if n <= 3 {
        -5
    } else if n <= 4 {
        0
    } else if n <= 5 {
        5
    } else if n <= 6 {
        10
    } else if n <= 7 {
        15
    } else if n <= 8 {
        20
    } else if n <= 9 {
        25
    } else if n <= 10 {
        30
    } else if n <= 11 {
        35
    } else if n <= 12 {
        40
    } else {
        45
    }
}

fn bishop_mobility_exec(n: i32) -> (r: i32)
    ensures
        r == bishop_mobility(n as int),
        -30 <= r <= 47,
{
    if n <= 0 {
        -30
    } else if n <= 1 {
        -20
    } else if n <= 2 {
        -10
    } else if n <= 3 {
        -5
    } else if n <= 4 {
        0
    } else if n <= 5 {
        5
    } else if n <= 6 {
        10
    } else if n <= 7 {
        15
    } else if n <= 8 {
        20
    } else if n <= 9 {
        25
    } else if n <= 10 {
        30
    } else if n <= 11 {
        35
    } else if n <= 12 {
        40
    } else {
        45
    }
}

/// Rook mobility table, saturating at its last entry.
pub open spec fn rook_mobility(n: int) -> int {
    if n <= 0 {
        -20
    } else if n <= 1 {
        -15
    } else if n <= 2 {
        -10
    } else if n <= 3 {
        -5
    } else if n <= 4 {
        0
    } else if n <= 5 {
        5
    } else if n <= 6 {
        10
    } else if n <= 7 {
        12
    } else if n <= 8 {
        15
    } else if n <= 9 {
        18
    } else if n <= 10 {
        20
    } else if n <= 11 {
        22
    } else if n <= 12 {
        25
    } else if n <= 13 {
        28
    } else {
        30
    }
}

fn rook_mobility_exec(n: i32) -> (r: i32)
    ensures
        r == rook_mobility(n as int),
        -30 <= r <= 47,
{
    if n <= 0 {
        -20
    } else if n <= 1 {
        -15
    } else if n <= 2 {
        -10
    } else if n <= 3 {
        -5
    } else if n <= 4 {
        0
    } else if n <= 5 {
        5
    } else if n <= 6 {
        10
    } else if n <= 7 {
        12
    } else if n <= 8 {
        15
    } else if n <= 9 {
        18
    } else if n <= 10 {
        20
    } else if n <= 11 {
        22
    } else if n <= 12 {
        25
    } else if n <= 13 {
        28
    } else {
        30
    }
}

/// Queen mobility table, saturating at its last entry.
pub open spec fn queen_mobility(n: int) -> int {
    if n <= 0 {
        -10
    } else if n <= 1 {
        -5
    } else if n <= 2 {
        0
    } else if n <= 3 {
        3
    } else if n <= 4 {
        5
    } else if n <= 5 {
        8
    } else if n <= 6 {
        10
    } else if n <= 7 {
        12
    } else if n <= 8 {
        15
    } else if n <= 9 {
        18
    } else if n <= 10 {
        20
    } else if n <= 11 {
        22
    } else if n <= 12 {
        24
    } else if n <= 13 {
        26
    } else if n <= 14 {
        28
    } else if n <= 15 {
        30
    } else if n <= 16 {
        32
    } else if n <= 17 {
        34
    } else if n <= 18 {
        36
    } else if n <= 19 {
        38
    } else if n <= 20 {
        40
    } else if n <= 21 {
        41
    } else if n <= 22 {
        42
    } else if n <= 23 {
        43
    } else if n <= 24 {
        44
    } else if n <= 25 {
        45
    } else if n <= 26 {
        46
    } else {
        47
    }
}

fn queen_mobility_exec(n: i32) -> (r: i32)
    ensures
        r == queen_mobility(n as int),
        -30 <= r <= 47,
{
    if n <= 0 {
        -10
    } else if n <= 1 {
        -5
    } else if n <= 2 {
        0
    } else if n <= 3 {
        3
    } else if n <= 4 {
        5
    } else if n <= 5 {
        8
    } else if n <= 6 {
        10
    } else if n <= 7 {
        12
    } else if n <= 8 {
        15
    } else if n <= 9 {
        18
    } else if n <= 10 {
        20
    } else if n <= 11 {
        22
    } else if n <= 12 {
        24
    } else if n <= 13 {
        26
    } else if n <= 14 {
        28
    } else if n <= 15 {
        30
    } else if n <= 16 {
        32
    } else if n <= 17 {
        34
    } else if n <= 18 {
        36
    } else if n <= 19 {
        38
    } else if n <= 20 {
        40
    } else if n <= 21 {
        41
    } else if n <= 22 {
        42
    } else if n <= 23 {
        43
    } else if n <= 24 {
        44
    } else if n <= 25 {
        45
    } else if n <= 26 {
        46
    } else {
        47
    }
}

/// Mobility score of a kind with `n` reachable squares, by per-kind table.
pub open spec fn mobility_score(k: PieceKind, n: int) -> int {
    match k {
        PieceKind::Knight => knight_mobility(n),
        PieceKind::Bishop => bishop_mobility(n),
        PieceKind::Rook => rook_mobility(n),
        PieceKind::Queen => queen_mobility(n),
        _ => 0,
    }
}

/// Mobility sum over the first `n` squares, from White's view.
pub open spec fn mobility_sum(po: Seq<Piece>, occ: u64, n: int) -> int
    decreases n,
{
    if n <= 0 {
        0
    } else {
        mobility_sum(po, occ, n - 1) + match piece_kind(po[n - 1]) {
            Some(k) => signed(po[n - 1], mobility_score(k, reach_count(po, occ, n - 1, 64))),
            None => 0,
        }
    }
}

/// Saturating king-danger table, indexed by attack weight / 10.
pub open spec fn safety_table(i: int) -> int {
    if i <= 1 {
        0
    } else if i == 2 {
        2
    } else if i == 3 {
        5
    } else if i == 4 {
        8
    } else if i == 5 {
        12
    } else if i == 6 {
        18
    } else if i == 7 {
        25
    } else if i == 8 {
        35
    } else if i == 9 {
        45
    } else if i == 10 {
        55
    } else if i == 11 {
        70
    } else if i == 12 {
        85
    } else if i == 13 {
        100
    } else if i == 14 {
        120
    } else if i == 15 {
        140
    } else if i == 16 {
        160
    } else if i == 17 {
        180
    } else if i == 18 {
        200
    } else {
        220
    }
}

/// Weight of an attacker of the king ring: knight 20, bishop 30, rook 50,
/// queen 90.
pub open spec fn ring_weight(k: PieceKind) -> int {
    match k {
        PieceKind::Knight => 20,
        PieceKind::Bishop => 30,
        PieceKind::Rook => 50,
        PieceKind::Queen => 90,
        _ => 0,
    }
}

/// The piece on `u` attacks a square next to the king on `k`.
pub open spec fn hits_ring(po: Seq<Piece>, occ: u64, u: int, k: int, c: Color) -> bool {
    exists|t: int| 0 <= t < 64 && in_ring(k, t, c) && #[trigger] piece_attacks(po[u], occ, u, t)
}

/// The king ring of a king of color `c` on `k`: the squares it attacks, and
/// the three squares one rank further forward.
pub open spec fn in_ring(k: int, t: int, c: Color) -> bool {
    crate::attacks::king_reach(k, t) || (0 <= t < 64 && crate::attacks::fdist(k, t) <= 1 && t / 8
        == k / 8 + if c == Color::White {
        2int
    } else {
        -2int
    })
}

/// Summed ring weights of the enemies (of `c`) among the first `n` squares.
pub open spec fn ring_attack(po: Seq<Piece>, occ: u64, c: Color, k: int, n: int) -> int
    decreases n,
{
    if n <= 0 {
        0
    } else {
        ring_attack(po, occ, c, k, n - 1) + if piece_color(po[n - 1]) == Some(
            crate::types::opposite(c),
        ) && hits_ring(po, occ, n - 1, k, c) {
            ring_weight(piece_kind(po[n - 1]).unwrap())
        } else {
            0
        }
    }
}

/// Shield penalty for one file next to (or on) the king's file: 25 when the
/// side has no pawn there (40 when the enemy has none there either), else 25 or 40 when its rearmost pawn there has
/// advanced one or more ranks beyond its home rank.
pub open spec fn shield_file(po: Seq<Piece>, c: Color, f: int) -> int {
    let pawn = crate::types::make_piece(PieceKind::Pawn, c);
    let theirs = crate::types::make_piece(PieceKind::Pawn, crate::types::opposite(c));
    if !pawn_in_box(po, pawn, f, f, 0, 7) {
        if !pawn_in_box(po, theirs, f, f, 0, 7) {
            40
        } else {
            25
        }
    } else if c == Color::White {
        if !pawn_in_box(po, pawn, f, f, 0, 7) {
            25
        } else if pawn_in_box(po, pawn, f, f, 0, 1) {
            0
        } else if pawn_in_box(po, pawn, f, f, 2, 2) {
            25
        } else {
            40
        }
    } else {
        if !pawn_in_box(po, pawn, f, f, 0, 7) {
            25
        } else if pawn_in_box(po, pawn, f, f, 6, 7) {
            0
        } else if pawn_in_box(po, pawn, f, f, 5, 5) {
            25
        } else {
            40
        }
    }
}

/// Danger to the king of color `c` on `k`: table value of the ring attacks
/// plus pawn-shield penalties while the king is on its first two ranks.
pub open spec fn king_danger(po: Seq<Piece>, occ: u64, c: Color, k: int) -> int {
    let f = k % 8;
    let home = if c == Color::White {
        k / 8 <= 1
    } else {
        k / 8 >= 6
    };
    let shield = if home {
        (if f > 0 {
            shield_file(po, c, f - 1)
        } else {
            0
        }) + shield_file(po, c, f) + (if f < 7 {
            shield_file(po, c, f + 1)
        } else {
            0
        })
    } else {
        0
    };
    let a = ring_attack(po, occ, c, k, 64) / 10;
    safety_table(if a > 19 {
        19
    } else {
        a
    }) + shield
}

/// Rook bonuses from White's view: open file 20, semi-open 10, seventh
/// rank 25.
pub open spec fn rook_bonus(po: Seq<Piece>, u: int) -> int {
    let p = po[u];
    let c = piece_color(p).unwrap();
    let ours = crate::types::make_piece(PieceKind::Pawn, c);
    let theirs = crate::types::make_piece(PieceKind::Pawn, crate::types::opposite(c));
    let f = u % 8;
    let file = if !pawn_in_box(po, ours, f, f, 0, 7) {
        if !pawn_in_box(po, theirs, f, f, 0, 7) {
            20int
        } else {
            10
        }
    } else {
        0
    };
    let seventh = if (c == Color::White && u / 8 == 6) || (c == Color::Black && u / 8 == 1) {
        25int
    } else {
        0
    };
    signed(p, file + seventh)
}

pub open spec fn rook_sum(po: Seq<Piece>, n: int) -> int
    decreases n,
{
    if n <= 0 {
        0
    } else {
        rook_sum(po, n - 1) + if piece_kind(po[n - 1]) == Some(PieceKind::Rook) {
            rook_bonus(po, n - 1)
        } else {
            0
        }
    }
}

/// First square holding `p` (64 when none).
pub open spec fn first_square_of(po: Seq<Piece>, p: Piece, n: int) -> int
    decreases 64 - n,
{
    if n >= 64 {
        64
    } else if po[n] == p {
        n
    } else {
        first_square_of(po, p, n + 1)
    }
}

/// King danger of color `c` (0 without a king).
pub open spec fn safety_of(po: Seq<Piece>, occ: u64, c: Color) -> int {
    let k = first_square_of(po, crate::types::make_piece(PieceKind::King, c), 0);
    if k < 64 {
        king_danger(po, occ, c, k)
    } else {
        0
    }
}

/// Outpost bonus in the middlegame and the endgame.
pub const OUTPOST_MG: i32 = 25;

pub const OUTPOST_EG: i32 = 15;

/// A knight of color `c` on `sq` stands on an outpost: on its fourth to
/// sixth rank, defended by a friendly pawn, and no enemy pawn on an adjacent
/// file ahead can ever attack it.
pub open spec fn outpost(po: Seq<Piece>, sq: int, c: Color) -> bool {
    let us = crate::types::make_piece(PieceKind::Pawn, c);
    let them = crate::types::make_piece(PieceKind::Pawn, crate::types::opposite(c));
    let f = sq % 8;
    let r = sq / 8;
    let rel = if c == Color::White {
        r
    } else {
        7 - r
    };
    let behind = if c == Color::White {
        r - 1
    } else {
        r + 1
    };
    let (alo, ahi) = if c == Color::White {
        (r + 1, 7)
    } else {
        (0, r - 1)
    };
    &&& 3 <= rel <= 5
    &&& (pawn_in_box(po, us, f - 1, f - 1, behind, behind) || pawn_in_box(po, us, f + 1, f + 1, behind, behind))
    &&& !pawn_in_box(po, them, f - 1, f - 1, alo, ahi)
    &&& !pawn_in_box(po, them, f + 1, f + 1, alo, ahi)
}

/// Outpost bonuses over the first `n` squares, from White's view.
pub open spec fn outpost_sum(po: Seq<Piece>, n: int, mg: bool) -> int
    decreases n,
{
    if n <= 0 {
        0
    } else {
        let v = if mg {
            OUTPOST_MG as int
        } else {
            OUTPOST_EG as int
        };
        outpost_sum(po, n - 1, mg) + if po[n - 1] == Piece::WN && outpost(po, n - 1, Color::White) {
            v
        } else if po[n - 1] == Piece::BN && outpost(po, n - 1, Color::Black) {
            -v
        } else {
            0
        }
    }
}

/// The tapered score from White's point of view.
pub open spec fn white_score(po: Seq<Piece>, occ: u64, castle: u8) -> int {
    let mg = sum_mg(po, 64) + extra_mg(po, castle) + pawn_sum(po, 64, true) + mobility_sum(
        po,
        occ,
        64,
    ) + rook_sum(po, 64) + safety_of(po, occ, Color::Black) - safety_of(po, occ, Color::White)
        + outpost_sum(po, 64, true);
    let eg = sum_eg(po, 64) + extra_eg(po) + pawn_sum(po, 64, false) + mobility_sum(po, occ, 64)
        + outpost_sum(po, 64, false);
    let ph = if sum_phase(po, 64) < MAX_PHASE {
        sum_phase(po, 64)
    } else {
        MAX_PHASE as int
    };
    tdiv(mg * ph + eg * (MAX_PHASE - ph), MAX_PHASE as int)
}

/// The score from the side to move's point of view.
pub open spec fn eval_spec(po: Seq<Piece>, occ: u64, castle: u8, turn: Color) -> int {
    if turn == Color::White {
        white_score(po, occ, castle)
    } else {
        -white_score(po, occ, castle)
    }
}

fn kind_values(k: PieceKind) -> (r: (i32, i32, i32))
    ensures
        r.0 == kind_mg(k),
        r.1 == kind_eg(k),
        r.2 == kind_phase(k),
{
    match k {
        PieceKind::Pawn => (82, 94, 0),
        PieceKind::Knight => (337, 281, 1),
        PieceKind::Bishop => (365, 297, 1),
        PieceKind::Rook => (477, 512, 2),
        PieceKind::Queen => (1025, 936, 4),
        PieceKind::King => (0, 0, 0),
    }
}

/// Material, phase and bishop counts summed over the board.
fn material(po: &[Piece; 64]) -> (r: (i32, i32, i32, i32, i32))
    ensures
        r.0 == sum_mg(po@, 64),
        r.1 == sum_eg(po@, 64),
        r.2 == sum_phase(po@, 64),
        r.3 == count_piece(po@, Piece::WB, 64),
        r.4 == count_piece(po@, Piece::BB, 64),
        -65600 <= r.0 <= 65600,
        -65600 <= r.1 <= 65600,
        0 <= r.2 <= 256,
{
    let mut mg: i32 = 0;
    let mut eg: i32 = 0;
    let mut ph: i32 = 0;
    let mut wb: i32 = 0;
    let mut bb: i32 = 0;
    let mut sq: usize = 0;
    while sq < 64
        invariant
            sq <= 64,
            mg == sum_mg(po@, sq as int),
            eg == sum_eg(po@, sq as int),
            ph == sum_phase(po@, sq as int),
            wb == count_piece(po@, Piece::WB, sq as int),
            bb == count_piece(po@, Piece::BB, sq as int),
            -1025 * sq <= mg <= 1025 * sq,
            -1025 * sq <= eg <= 1025 * sq,
            0 <= ph <= 4 * sq,
            0 <= wb <= sq,
            0 <= bb <= sq,
        decreases 64 - sq,
    {
        let p = po[sq];
        if let Some(k) = p.kind() {
            let (m, e, f) = kind_values(k);
            if p.color() == Some(Color::White) {
                mg = mg + m;
                eg = eg + e;
            } else {
                mg = mg - m;
                eg = eg - e;
            }
            ph = ph + f;
        }
        if p == Piece::WB {
            wb = wb + 1;
        }
        if p == Piece::BB {
            bb = bb + 1;
        }
        sq += 1;
    }
    (mg, eg, ph, wb, bb)
}

fn pawn_in_box_exec(po: &[Piece; 64], pawn: Piece, flo: i32, fhi: i32, rlo: i32, rhi: i32) -> (r: bool)
    ensures
        r == pawn_in_box(po@, pawn, flo as int, fhi as int, rlo as int, rhi as int),
{
    let mut s: usize = 0;
    while s < 64
        invariant
            s <= 64,
            forall|t: int|
                0 <= t < s ==> !(#[trigger] po@[t] == pawn && flo <= t % 8 <= fhi && rlo <= t / 8 <= rhi),
        decreases 64 - s,
    {
        let f = (s % 8) as i32;
        let r = (s / 8) as i32;
        if po[s] == pawn && flo <= f && f <= fhi && rlo <= r && r <= rhi {
            proof {
                assert(po@[s as int] == pawn);
            }
            return true;
        }
        s += 1;
    }
    false
}

/// Structure terms of the pawn of color `c` on `sq`: (middlegame, endgame).
fn evaluate_single_pawn(po: &[Piece; 64], sq: usize, c: Color) -> (r: (i32, i32))
    requires
        sq < 64,
    ensures
        r.0 == pawn_terms(po@, sq as int, c, true),
        r.1 == pawn_terms(po@, sq as int, c, false),
        -60 <= r.0 <= 150,
        -60 <= r.1 <= 220,
{
    let us = Piece::from_kind(PieceKind::Pawn, c);
    let them = Piece::from_kind(PieceKind::Pawn, c.other());
    let f = (sq % 8) as i32;
    let r = (sq / 8) as i32;
    let rel = if c == Color::White {
        r
    } else {
        7 - r
    };
    let isolated = !pawn_in_box_exec(po, us, f - 1, f - 1, 0, 7) && !pawn_in_box_exec(po, us, f + 1, f + 1, 0, 7);
    let doubled = pawn_in_box_exec(po, us, f, f, 0, r - 1) || pawn_in_box_exec(po, us, f, f, r + 1, 7);
    let passed = if c == Color::White {
        !pawn_in_box_exec(po, them, f - 1, f + 1, r + 1, 7)
    } else {
        !pawn_in_box_exec(po, them, f - 1, f + 1, 0, r - 1)
    };
    let (blo, bhi, sr) = if c == Color::White {
        (0, r - 1, r + 2)
    } else {
        (r + 1, 7, r - 2)
    };
    let backward = !pawn_in_box_exec(po, us, f - 1, f - 1, blo, bhi) && !pawn_in_box_exec(po, us, f + 1, f + 1, blo, bhi) && (pawn_in_box_exec(po, them, f - 1, f - 1, sr, sr) || pawn_in_box_exec(po, them, f + 1, f + 1, sr, sr));
    let mut mg: i32 = 0;
    let mut eg: i32 = 0;
    if isolated {
        mg = mg - 10;
        eg = eg - 20;
    }
    if doubled {
        mg = mg - 10;
        eg = eg - 25;
    }
    if passed {
        let (pm, pe): (i32, i32) = if rel == 1 {
            (10, 20)
        } else if rel == 2 {
            (20, 40)
        } else if rel == 3 {
            (35, 70)
        } else if rel == 4 {
            (60, 110)
        } else if rel == 5 {
            (100, 160)
        } else if rel == 6 {
            (150, 220)
        } else {
            (0, 0)
        };
        mg = mg + pm;
        eg = eg + pe;
    }
    if backward {
        mg = mg - 8;
        eg = eg - 15;
    }
    (mg, eg)
}

/// Pawn-structure score from White's view: (middlegame, endgame).
fn evaluate_pawns(po: &[Piece; 64]) -> (r: (i32, i32))
    ensures
        r.0 == pawn_sum(po@, 64, true),
        r.1 == pawn_sum(po@, 64, false),
        -14080 <= r.0 <= 14080,
        -14080 <= r.1 <= 14080,
{
    let mut mg: i32 = 0;
    let mut eg: i32 = 0;
    let mut sq: usize = 0;
    while sq < 64
        invariant
            sq <= 64,
            mg == pawn_sum(po@, sq as int, true),
            eg == pawn_sum(po@, sq as int, false),
            -220 * sq <= mg <= 220 * sq,
            -220 * sq <= eg <= 220 * sq,
        decreases 64 - sq,
    {
        let p = po[sq];
        if p == Piece::WP {
            let (m, e) = evaluate_single_pawn(po, sq, Color::White);
            mg = mg + m;
            eg = eg + e;
        } else if p == Piece::BP {
            let (m, e) = evaluate_single_pawn(po, sq, Color::Black);
            mg = mg - m;
            eg = eg - e;
        }
        sq += 1;
    }
    (mg, eg)
}

fn reach_count_exec(b: &Board, u: usize) -> (r: i32)
    requires
        u < 64,
    ensures
        r == reach_count(b.piece_on@, b.all_pieces, u as int, 64),
        0 <= r <= 64,
{
    let p = b.piece_on[u];
    let mut n: i32 = 0;
    let mut t: usize = 0;
    while t < 64
        invariant
            t <= 64,
            u < 64,
            p == b.piece_on@[u as int],
            n == reach_count(b.piece_on@, b.all_pieces, u as int, t as int),
            0 <= n <= t,
        decreases 64 - t,
    {
        if piece_attacks_exec(p, b.all_pieces, u, t) && b.piece_on[t].color() != p.color() {
            n = n + 1;
        }
        t += 1;
    }
    n
}

/// Mobility of knights, bishops, rooks and queens, from White's view.
fn evaluate_mobility(b: &Board) -> (r: i32)
    ensures
        r == mobility_sum(b.piece_on@, b.all_pieces, 64),
        -3008 <= r <= 3008,
{
    let mut total: i32 = 0;
    let mut sq: usize = 0;
    while sq < 64
        invariant
            sq <= 64,
            total == mobility_sum(b.piece_on@, b.all_pieces, sq as int),
            -47 * sq <= total <= 47 * sq,
        decreases 64 - sq,
    {
        let p = b.piece_on[sq];
        match p.kind() {
            Some(k) => {
                let n = reach_count_exec(b, sq);
                let v: i32 = match k {
                    PieceKind::Knight => knight_mobility_exec(n),
                    PieceKind::Bishop => bishop_mobility_exec(n),
                    PieceKind::Rook => rook_mobility_exec(n),
                    PieceKind::Queen => queen_mobility_exec(n),
                    _ => 0,
                };
                if p.color() == Some(Color::White) {
                    total = total + v;
                } else {
                    total = total - v;
                }
            },
            None => {},
        }
        sq += 1;
    }
    total
}

fn safety_table_exec(i: i32) -> (r: i32)
    ensures
        r == safety_table(i as int),
        0 <= r <= 220,
{
    if i <= 1 {
        0
    } else if i == 2 {
        2
    } else if i == 3 {
        5
    } else if i == 4 {
        8
    } else if i == 5 {
        12
    } else if i == 6 {
        18
    } else if i == 7 {
        25
    } else if i == 8 {
        35
    } else if i == 9 {
        45
    } else if i == 10 {
        55
    } else if i == 11 {
        70
    } else if i == 12 {
        85
    } else if i == 13 {
        100
    } else if i == 14 {
        120
    } else if i == 15 {
        140
    } else if i == 16 {
        160
    } else if i == 17 {
        180
    } else if i == 18 {
        200
    } else {
        220
    }
}

fn hits_ring_exec(b: &Board, u: usize, k: usize, c: Color) -> (r: bool)
    requires
        u < 64,
        k < 64,
    ensures
        r == hits_ring(b.piece_on@, b.all_pieces, u as int, k as int, c),
{
    let p = b.piece_on[u];
    let mut t: usize = 0;
    while t < 64
        invariant
            t <= 64,
            u < 64,
            k < 64,
            p == b.piece_on@[u as int],
            forall|v: int|
                0 <= v < t ==> !(in_ring(k as int, v, c) && #[trigger] piece_attacks(
                    b.piece_on@[u as int],
                    b.all_pieces,
                    u as int,
                    v,
                )),
        decreases 64 - t,
    {
        let near = t != k && crate::attacks::diff(k % 8, t % 8) <= 1 && crate::attacks::diff(k / 8, t / 8) <= 1;
        let ahead = crate::attacks::diff(k % 8, t % 8) <= 1 && if c == Color::White {
            t / 8 == k / 8 + 2
        } else {
            t / 8 + 2 == k / 8
        };
        let near = near || ahead;
        if near && piece_attacks_exec(p, b.all_pieces, u, t) {
            return true;
        }
        t += 1;
    }
    false
}

fn shield_file_exec(po: &[Piece; 64], c: Color, f: i32) -> (r: i32)
    ensures
        r == shield_file(po@, c, f as int),
        0 <= r <= 40,
{
    let pawn = Piece::from_kind(PieceKind::Pawn, c);
    let theirs = Piece::from_kind(PieceKind::Pawn, c.other());
    if !pawn_in_box_exec(po, pawn, f, f, 0, 7) {
        if !pawn_in_box_exec(po, theirs, f, f, 0, 7) {
            40
        } else {
            25
        }
    } else if c == Color::White {
        if pawn_in_box_exec(po, pawn, f, f, 0, 1) {
            0
        } else if pawn_in_box_exec(po, pawn, f, f, 2, 2) {
            25
        } else {
            40
        }
    } else {
        if pawn_in_box_exec(po, pawn, f, f, 6, 7) {
            0
        } else if pawn_in_box_exec(po, pawn, f, f, 5, 5) {
            25
        } else {
            40
        }
    }
}

/// Danger to the king of color `c`: ring attacks through the saturating
/// table, plus pawn-shield penalties.
fn evaluate_king_safety(b: &Board, c: Color) -> (r: i32)
    ensures
        r == safety_of(b.piece_on@, b.all_pieces, c),
        0 <= r <= 340,
{
    let king = Piece::from_kind(PieceKind::King, c);
    let mut k: usize = 0;
    while k < 64 && b.piece_on[k] != king
        invariant
            k <= 64,
            king == crate::types::make_piece(PieceKind::King, c),
            first_square_of(b.piece_on@, king, 0) == first_square_of(b.piece_on@, king, k as int),
        decreases 64 - k,
    {
        k += 1;
    }
    if k >= 64 {
        return 0;
    }
    proof {
        assert(first_square_of(b.piece_on@, king, k as int) == k);
    }
    let them = c.other();
    let mut attack: i32 = 0;
    let mut u: usize = 0;
    while u < 64
        invariant
            u <= 64,
            k < 64,
            them == crate::types::opposite(c),
            attack == ring_attack(b.piece_on@, b.all_pieces, c, k as int, u as int),
            0 <= attack <= 90 * u,
        decreases 64 - u,
    {
        let p = b.piece_on[u];
        if p.color() == Some(them) {
            let w: i32 = match p.kind() {
                Some(PieceKind::Knight) => 20,
                Some(PieceKind::Bishop) => 30,
                Some(PieceKind::Rook) => 50,
                Some(PieceKind::Queen) => 90,
                _ => 0,
            };
            if hits_ring_exec(b, u, k, c) {
                attack = attack + w;
            }
        }
        u += 1;
    }
    let a = attack / 10;
    let mut total = safety_table_exec(
        if a > 19 {
            19
        } else {
            a
        },
    );
    let f = (k % 8) as i32;
    let home = if c == Color::White {
        k / 8 <= 1
    } else {
        k / 8 >= 6
    };
    if home {
        if f > 0 {
            total = total + shield_file_exec(&b.piece_on, c, f - 1);
        }
        total = total + shield_file_exec(&b.piece_on, c, f);
        if f < 7 {
            total = total + shield_file_exec(&b.piece_on, c, f + 1);
        }
    }
    total
}

/// Rook file and seventh-rank bonuses, from White's view.
fn evaluate_rooks(po: &[Piece; 64]) -> (r: i32)
    ensures
        r == rook_sum(po@, 64),
        -2880 <= r <= 2880,
{
    let mut total: i32 = 0;
    let mut sq: usize = 0;
    while sq < 64
        invariant
            sq <= 64,
            total == rook_sum(po@, sq as int),
            -45 * sq <= total <= 45 * sq,
        decreases 64 - sq,
    {
        let p = po[sq];
        if p.kind() == Some(PieceKind::Rook) {
            let c = if p.color() == Some(Color::White) {
                Color::White
            } else {
                Color::Black
            };
            let ours = Piece::from_kind(PieceKind::Pawn, c);
            let theirs = Piece::from_kind(PieceKind::Pawn, c.other());
            let f = (sq % 8) as i32;
            let mut v: i32 = 0;
            if !pawn_in_box_exec(po, ours, f, f, 0, 7) {
                v = if !pawn_in_box_exec(po, theirs, f, f, 0, 7) {
                    20
                } else {
                    10
                };
            }
            if (c == Color::White && sq / 8 == 6) || (c == Color::Black && sq / 8 == 1) {
                v = v + 25;
            }
            if c == Color::White {
                total = total + v;
            } else {
                total = total - v;
            }
        }
        sq += 1;
    }
    total
}

fn is_outpost(po: &[Piece; 64], sq: usize, c: Color) -> (r: bool)
    requires
        sq < 64,
    ensures
        r == outpost(po@, sq as int, c),
{
    let us = Piece::from_kind(PieceKind::Pawn, c);
    let them = Piece::from_kind(PieceKind::Pawn, c.other());
    let f = (sq % 8) as i32;
    let r = (sq / 8) as i32;
    let white = c == Color::White;
    let rel = if white {
        r
    } else {
        7 - r
    };
    let behind = if white {
        r - 1
    } else {
        r + 1
    };
    let (alo, ahi) = if white {
        (r + 1, 7)
    } else {
        (0, r - 1)
    };
    3 <= rel && rel <= 5 && (pawn_in_box_exec(po, us, f - 1, f - 1, behind, behind)
        || pawn_in_box_exec(po, us, f + 1, f + 1, behind, behind)) && !pawn_in_box_exec(
        po,
        them,
        f - 1,
        f - 1,
        alo,
        ahi,
    ) && !pawn_in_box_exec(po, them, f + 1, f + 1, alo, ahi)
}

/// Knight outpost bonuses from White's view: (middlegame, endgame).
fn evaluate_outposts(po: &[Piece; 64]) -> (r: (i32, i32))
    ensures
        r.0 == outpost_sum(po@, 64, true),
        r.1 == outpost_sum(po@, 64, false),
        -1600 <= r.0 <= 1600,
        -1600 <= r.1 <= 1600,
{
    let mut mg: i32 = 0;
    let mut eg: i32 = 0;
    let mut sq: usize = 0;
    while sq < 64
        invariant
            sq <= 64,
            mg == outpost_sum(po@, sq as int, true),
            eg == outpost_sum(po@, sq as int, false),
            -25 * sq <= mg <= 25 * sq,
            -25 * sq <= eg <= 25 * sq,
        decreases 64 - sq,
    {
        let p = po[sq];
        if p == Piece::WN && is_outpost(po, sq, Color::White) {
            mg = mg + OUTPOST_MG;
            eg = eg + OUTPOST_EG;
        } else if p == Piece::BN && is_outpost(po, sq, Color::Black) {
            mg = mg - OUTPOST_MG;
            eg = eg - OUTPOST_EG;
        }
        sq += 1;
    }
    (mg, eg)
}

/// The tapered middlegame/endgame blend from White's point of view.
pub fn evaluate_white_pov(b: &Board) -> (r: i32)
    ensures
        r == white_score(b.piece_on@, b.all_pieces, b.castle),
        -400000 <= r <= 400000,
{
    let (pmg, peg) = evaluate_pawns(&b.piece_on);
    blend(b, pmg, peg)
}

/// The tapered blend, given the pawn-structure scores.
fn blend(b: &Board, pmg: i32, peg: i32) -> (r: i32)
    requires
        pmg == pawn_sum(b.piece_on@, 64, true),
        peg == pawn_sum(b.piece_on@, 64, false),
        -14080 <= pmg <= 14080,
        -14080 <= peg <= 14080,
    ensures
        r == white_score(b.piece_on@, b.all_pieces, b.castle),
        -400000 <= r <= 400000,
{
    let (mut mg, mut eg, ph, wb, bb) = material(&b.piece_on);
    let mob = evaluate_mobility(b);
    mg = mg + pmg + mob + evaluate_rooks(&b.piece_on) + evaluate_king_safety(b, Color::Black)
        - evaluate_king_safety(b, Color::White);
    eg = eg + peg + mob;
    let (omg, oeg) = evaluate_outposts(&b.piece_on);
    mg = mg + omg;
    eg = eg + oeg;
    if b.castle & (WK_CASTLE | WQ_CASTLE) != 0 {
        mg = mg + CASTLING_RIGHTS_BONUS;
    }
    if b.castle & (BK_CASTLE | BQ_CASTLE) != 0 {
        mg = mg - CASTLING_RIGHTS_BONUS;
    }
    if wb >= 2 {
        mg = mg + BISHOP_PAIR_MG;
        eg = eg + BISHOP_PAIR_EG;
    }
    if bb >= 2 {
        mg = mg - BISHOP_PAIR_MG;
        eg = eg - BISHOP_PAIR_EG;
    }
    let phase = if ph < MAX_PHASE {
        ph
    } else {
        MAX_PHASE
    };
    proof {
        assert(-200000 * 24 <= mg * phase <= 200000 * 24) by (nonlinear_arith)
            requires
                -200000 <= mg <= 200000,
                0 <= phase <= 24,
        ;
        assert(-200000 * 24 <= eg * (MAX_PHASE - phase) <= 200000 * 24) by (nonlinear_arith)
            requires
                -200000 <= eg <= 200000,
                0 <= MAX_PHASE - phase <= 24,
        ;
    }
    let total = mg * phase + eg * (MAX_PHASE - phase);
    if total >= 0 {
        total / MAX_PHASE
    } else {
        -((-total) / MAX_PHASE)
    }
}

/// Static evaluation in centipawns from the side to move's point of view.
pub fn evaluate(b: &Board) -> (r: i32)
    ensures
        r == eval_spec(b.piece_on@, b.all_pieces, b.castle, b.turn),
        -400000 <= r <= 400000,
{
    let s = evaluate_white_pov(b);
    if b.turn == Color::White {
        s
    } else {
        -s
    }
}

proof fn lemma_pawn_sum_bounds(po: Seq<Piece>, n: int, mg: bool)
    requires
        0 <= n <= 64,
        po.len() == 64,
    ensures
        -220 * n <= pawn_sum(po, n, mg) <= 220 * n,
    decreases n,
{
    if n > 0 {
        lemma_pawn_sum_bounds(po, n - 1, mg);
        let w = pawn_terms(po, n - 1, Color::White, mg);
        let k = pawn_terms(po, n - 1, Color::Black, mg);
        assert(-60 <= w <= 220 && -60 <= k <= 220);
    }
}

/// Static evaluation as `evaluate` computes it, with the pawn-structure
/// score taken from (and kept in) `pawns`.
pub fn evaluate_cached(b: &Board, pawns: &mut crate::pawn_hash::PawnTable) -> (r: i32)
    requires
        b.pieces_ok(),
        old(pawns).wf(),
    ensures
        final(pawns).wf(),
        r == eval_spec(b.piece_on@, b.all_pieces, b.castle, b.turn),
        -400000 <= r <= 400000,
{
    let w = b.piece_bb[1];
    let bl = b.piece_bb[7];
    proof {
        crate::pawn_hash::lemma_board_pawns(*b);
    }
    let (pmg, peg) = match pawns.probe(w, bl) {
        Some((m, e)) => {
            proof {
                assert(crate::pawn_hash::pawns_match(b.piece_on@, w, bl));
            }
            (m, e)
        },
        None => {
            let (m, e) = evaluate_pawns(&b.piece_on);
            pawns.store(w, bl, m, e);
            (m, e)
        },
    };
    proof {
        lemma_pawn_sum_bounds(b.piece_on@, 64, true);
        lemma_pawn_sum_bounds(b.piece_on@, 64, false);
    }
    let s = blend(b, pmg, peg);
    if b.turn == Color::White {
        s
    } else {
        -s
    }
}

} // verus!
