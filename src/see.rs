use vstd::prelude::*;
use crate::bits::{bit, has_bit};
use crate::board::{piece_attacks, piece_attacks_exec, Board};
use crate::types::{make_piece, opposite, piece_kind, Color, Move, Piece, PieceKind};

verus! {

/// Exchange values: pawn 100, knight 320, bishop 330, rook 500, queen 900,
/// king 20000.
pub open spec fn see_value(p: Piece) -> int {
    match piece_kind(p) {
        Some(PieceKind::Pawn) => 100,
        Some(PieceKind::Knight) => 320,
        Some(PieceKind::Bishop) => 330,
        Some(PieceKind::Rook) => 500,
        Some(PieceKind::Queen) => 900,
        Some(PieceKind::King) => 20000,
        None => 0,
    }
}

fn val(p: Piece) -> (r: i32)
    ensures
        r == see_value(p),
{
    match p.kind() {
        Some(PieceKind::Pawn) => 100,
        Some(PieceKind::Knight) => 320,
        Some(PieceKind::Bishop) => 330,
        Some(PieceKind::Rook) => 500,
        Some(PieceKind::Queen) => 900,
        Some(PieceKind::King) => 20000,
        None => 0,
    }
}

/// Kinds from least to most valuable.
pub open spec fn kind_at(i: int) -> PieceKind {
    if i == 0 {
        PieceKind::Pawn
    } else if i == 1 {
        PieceKind::Knight
    } else if i == 2 {
        PieceKind::Bishop
    } else if i == 3 {
        PieceKind::Rook
    } else if i == 4 {
        PieceKind::Queen
    } else {
        PieceKind::King
    }
}

/// A piece of kind `k` and color `side` on `u`, present in `occ`, attacks `sq`.
pub open spec fn attacker_at(
    po: Seq<Piece>,
    occ: u64,
    sq: int,
    side: Color,
    k: PieceKind,
    u: int,
) -> bool {
    0 <= u < 64 && bit(occ, u) && po[u] == make_piece(k, side) && piece_attacks(
        po[u],
        occ,
        u,
        sq,
    )
}

/// Lowest square at or after `u` holding such an attacker (64 when none).
pub open spec fn first_of_kind(
    po: Seq<Piece>,
    occ: u64,
    sq: int,
    side: Color,
    k: PieceKind,
    u: int,
) -> int
    decreases 64 - u,
{
    if u >= 64 {
        64
    } else if attacker_at(po, occ, sq, side, k, u) {
        u
    } else {
        first_of_kind(po, occ, sq, side, k, u + 1)
    }
}

/// The least valuable attacker among kinds `i..6` (lowest square first).
pub open spec fn lva_from(po: Seq<Piece>, occ: u64, sq: int, side: Color, i: int) -> Option<
    (Piece, int),
>
    decreases 6 - i,
{
    if i >= 6 {
        None
    } else {
        let u = first_of_kind(po, occ, sq, side, kind_at(i), 0);
        if u < 64 {
            Some((make_piece(kind_at(i), side), u))
        } else {
            lva_from(po, occ, sq, side, i + 1)
        }
    }
}

pub open spec fn lva(po: Seq<Piece>, occ: u64, sq: int, side: Color) -> Option<(Piece, int)> {
    lva_from(po, occ, sq, side, 0)
}

/// Gains of the swap-off: each entry is the value of the piece just taken
/// less the previous entry; `turn` is the side that made the last capture,
/// `last` the piece that made it.
pub open spec fn swap_gains(
    po: Seq<Piece>,
    sq: int,
    occ: u64,
    turn: Color,
    last: Piece,
    g: Seq<int>,
) -> Seq<int>
    decreases 32 - g.len(),
{
    if g.len() >= 32 || g.len() == 0 {
        g
    } else {
        match lva(po, occ, sq, opposite(turn)) {
            Some((p, u)) => swap_gains(
                po,
                sq,
                occ ^ (1u64 << (u as u64)),
                opposite(turn),
                p,
                g.push(see_value(last) - g.last()),
            ),
            None => g,
        }
    }
}

/// Minimax fold of the gains from the tail: each side may stop capturing.
pub open spec fn fold_at(g: Seq<int>, i: int) -> int
    decreases g.len() - i,
{
    if i >= g.len() - 1 {
        g[i]
    } else {
        let rest = fold_at(g, i + 1);
        if g[i] < -rest {
            g[i]
        } else {
            -rest
        }
    }
}

/// The exchange value of a capture on its destination.
pub open spec fn see_spec(b: Board, m: Move) -> int {
    if !m.capture {
        0
    } else {
        let victim = if m.en_passant {
            make_piece(PieceKind::Pawn, opposite(b.turn))
        } else {
            b.piece_on@[m.to as int]
        };
        let g = swap_gains(
            b.piece_on@,
            m.to as int,
            b.all_pieces ^ (1u64 << (m.from as u64)),
            b.turn,
            b.piece_on@[m.from as int],
            seq![see_value(victim)],
        );
        fold_at(g, 0)
    }
}

fn kind_of_index(i: usize) -> (r: PieceKind)
    ensures
        r == kind_at(i as int),
{
    if i == 0 {
        PieceKind::Pawn
    } else if i == 1 {
        PieceKind::Knight
    } else if i == 2 {
        PieceKind::Bishop
    } else if i == 3 {
        PieceKind::Rook
    } else if i == 4 {
        PieceKind::Queen
    } else {
        PieceKind::King
    }
}

/// The least valuable piece of `side` attacking `sq` under `occupied`.
fn get_attackers(b: &Board, sq: usize, occupied: u64, side: Color) -> (r: Option<(Piece, usize)>)
    requires
        sq < 64,
    ensures
        match r {
            Some((p, u)) => lva(b.piece_on@, occupied, sq as int, side) == Some((p, u as int))
                && u < 64,
            None => lva(b.piece_on@, occupied, sq as int, side).is_none(),
        },
{
    let mut i: usize = 0;
    while i < 6
        invariant
            i <= 6,
            sq < 64,
            lva(b.piece_on@, occupied, sq as int, side) == lva_from(
                b.piece_on@,
                occupied,
                sq as int,
                side,
                i as int,
            ),
        decreases 6 - i,
    {
        let k = kind_of_index(i);
        let p = Piece::from_kind(k, side);
        let mut u: usize = 0;
        while u < 64
            invariant
                u <= 64,
                sq < 64,
                i < 6,
                k == kind_at(i as int),
                p == make_piece(k, side),
                lva(b.piece_on@, occupied, sq as int, side) == lva_from(
                    b.piece_on@,
                    occupied,
                    sq as int,
                    side,
                    i as int,
                ),
                first_of_kind(b.piece_on@, occupied, sq as int, side, k, 0) == first_of_kind(
                    b.piece_on@,
                    occupied,
                    sq as int,
                    side,
                    k,
                    u as int,
                ),
            decreases 64 - u,
        {
            if has_bit(occupied, u) && b.piece_on[u] == p && piece_attacks_exec(
                p,
                occupied,
                u,
                sq,
            ) {
                proof {
                    assert(attacker_at(b.piece_on@, occupied, sq as int, side, k, u as int));
                    assert(first_of_kind(b.piece_on@, occupied, sq as int, side, k, u as int)
                        == u);
                }
                return Some((p, u));
            }
            u += 1;
        }
        i += 1;
    }
    None
}

/// Static exchange evaluation of a capture: least-valuable-attacker
/// recaptures in turn on the destination, folded so that either side may
/// stop.  Non-captures score 0.
pub fn see(b: &Board, mov: Move) -> (r: i32)
    requires
        mov.from < 64,
        mov.to < 64,
    ensures
        r == see_spec(*b, mov),
{
    if !mov.capture {
        return 0;
    }
    let to_sq = mov.to as usize;
    let mut from_piece = b.piece_on[mov.from as usize];
    let mut occupied = b.all_pieces ^ (1u64 << (mov.from as u64));
    let mut turn = b.turn;
    let victim = if mov.en_passant {
        Piece::from_kind(PieceKind::Pawn, b.turn.other())
    } else {
        b.piece_on[to_sq]
    };
    let mut gain: Vec<i32> = Vec::new();
    gain.push(val(victim));
    let ghost g0 = seq![see_value(victim)];
    let ghost mut gs = g0;
    proof {
        assert(gain@.len() == 1);
    }
    let mut done = false;
    while !done && gain.len() < 32
        invariant
            to_sq < 64,
            1 <= gs.len() <= 32,
            done ==> swap_gains(b.piece_on@, to_sq as int, occupied, turn, from_piece, gs) == gs,
            gain@.len() == gs.len(),
            forall|k: int| 0 <= k < gs.len() ==> #[trigger] gain@[k] == gs[k],
            forall|k: int| 0 <= k < gs.len() ==> -20000 * (k + 1) <= #[trigger] gs[k] <= 20000 * (k
                + 1),
            see_spec(*b, mov) == fold_at(
                swap_gains(b.piece_on@, to_sq as int, occupied, turn, from_piece, gs),
                0,
            ),
        decreases 32 - gs.len(), if done {
            0int
        } else {
            1int
        },
    {
        let them = turn.other();
        match get_attackers(b, to_sq, occupied, them) {
            Some((attacker, u)) => {
                let last = gain[gain.len() - 1];
                let v = val(from_piece) - last;
                proof {
                    assert(gs.last() == gs[gs.len() - 1]);
                }
                gain.push(v);
                proof {
                    gs = gs.push(see_value(from_piece) - gs.last());
                }
                occupied = occupied ^ (1u64 << (u as u64));
                from_piece = attacker;
                turn = them;
            },
            None => {
                done = true;
            },
        }
    }
    let ghost gf = swap_gains(b.piece_on@, to_sq as int, occupied, turn, from_piece, gs);
    proof {
        assert(gf == gs);
    }
    let n = gain.len();
    let mut v = gain[n - 1];
    let mut k = n - 1;
    while k > 0
        invariant
            k < n,
            n == gs.len(),
            n <= 32,
            gain@.len() == gs.len(),
            forall|j: int| 0 <= j < gs.len() ==> #[trigger] gain@[j] == gs[j],
            forall|j: int| 0 <= j < gs.len() ==> -20000 * (j + 1) <= #[trigger] gs[j] <= 20000 * (j
                + 1),
            v == fold_at(gs, k as int),
            -640000 <= v <= 640000,
        decreases k,
    {
        k -= 1;
        let g = gain[k];
        v = if g < -v {
            g
        } else {
            -v
        };
    }
    v
}

/// The minimax value for `side` of capturing a piece worth `x` on `sq`
/// under occupancy `occ`, with at most `k` more captures: take with the
/// least valuable attacker when that gains, else stop.
pub open spec fn swap_value(po: Seq<Piece>, sq: int, occ: u64, side: Color, x: int, k: nat) -> int
    decreases k,
{
    if k == 0 {
        0
    } else {
        match lva(po, occ, sq, side) {
            Some((p, u)) => {
                let rest = x - swap_value(
                    po,
                    sq,
                    occ ^ (1u64 << (u as u64)),
                    opposite(side),
                    see_value(p),
                    (k - 1) as nat,
                );
                if rest > 0 {
                    rest
                } else {
                    0
                }
            },
            None => 0,
        }
    }
}

proof fn lemma_gains_prefix(
    po: Seq<Piece>,
    sq: int,
    occ: u64,
    turn: Color,
    last: Piece,
    g: Seq<int>,
)
    requires
        1 <= g.len() <= 32,
    ensures
        swap_gains(po, sq, occ, turn, last, g).len() >= g.len(),
        swap_gains(po, sq, occ, turn, last, g).len() <= 32,
        forall|i: int| 0 <= i < g.len() ==> #[trigger] swap_gains(po, sq, occ, turn, last, g)[i] == g[i],
    decreases 32 - g.len(),
{
    if g.len() < 32 {
        match lva(po, occ, sq, opposite(turn)) {
            Some((p, u)) => {
                let g2 = g.push(see_value(last) - g.last());
                lemma_gains_prefix(po, sq, occ ^ (1u64 << (u as u64)), opposite(turn), p, g2);
                assert forall|i: int| 0 <= i < g.len() implies #[trigger] swap_gains(po, sq, occ, turn, last, g)[i] == g[i] by {
                    assert(g2[i] == g[i]);
                }
            },
            None => {},
        }
    }
}

proof fn lemma_fold_swap(
    po: Seq<Piece>,
    sq: int,
    occ: u64,
    turn: Color,
    last: Piece,
    g: Seq<int>,
)
    requires
        1 <= g.len() <= 32,
    ensures
        fold_at(swap_gains(po, sq, occ, turn, last, g), g.len() - 1) == g.last() - swap_value(
            po,
            sq,
            occ,
            opposite(turn),
            see_value(last),
            (32 - g.len()) as nat,
        ),
    decreases 32 - g.len(),
{
    let n = g.len();
    let gs = swap_gains(po, sq, occ, turn, last, g);
    lemma_gains_prefix(po, sq, occ, turn, last, g);
    if n < 32 {
        match lva(po, occ, sq, opposite(turn)) {
            Some((p, u)) => {
                let occ2 = occ ^ (1u64 << (u as u64));
                let g2 = g.push(see_value(last) - g.last());
                lemma_fold_swap(po, sq, occ2, opposite(turn), p, g2);
                lemma_gains_prefix(po, sq, occ2, opposite(turn), p, g2);
                assert(gs == swap_gains(po, sq, occ2, opposite(turn), p, g2));
                assert(gs[n - 1] == g[n - 1]);
                assert(gs.len() > n);
                assert(opposite(opposite(turn)) == turn);
            },
            None => {
                assert(gs == g);
            },
        }
    } else {
        assert(gs == g);
    }
}

/// The exchange value is the value of the victim less what the opponent
/// gains by the minimax swap-off after the first capture (least valuable
/// attacker first, X-rays revealed as pieces leave, at most 31 recaptures).
pub proof fn lemma_see_is_swap_off(b: Board, m: Move)
    requires
        m.capture,
    ensures
        see_spec(b, m) == see_value(
            if m.en_passant {
                make_piece(PieceKind::Pawn, opposite(b.turn))
            } else {
                b.piece_on@[m.to as int]
            },
        ) - swap_value(
            b.piece_on@,
            m.to as int,
            b.all_pieces ^ (1u64 << (m.from as u64)),
            opposite(b.turn),
            see_value(b.piece_on@[m.from as int]),
            31,
        ),
{
    let victim = if m.en_passant {
        make_piece(PieceKind::Pawn, opposite(b.turn))
    } else {
        b.piece_on@[m.to as int]
    };
    lemma_fold_swap(
        b.piece_on@,
        m.to as int,
        b.all_pieces ^ (1u64 << (m.from as u64)),
        b.turn,
        b.piece_on@[m.from as int],
        seq![see_value(victim)],
    );
}

} // verus!
