use vstd::prelude::*;
use crate::attacks::{fdist, pawn_reach};
use crate::board::{piece_attacks, Board};
use crate::movegen::{castle_conditions, king_safe_after, pseudo_ok};
use crate::types::{make_piece, opposite, piece_color, piece_kind, Color, Move, Piece, PieceKind};

verus! {

/// Rank step of a pawn of color `c`.
pub open spec fn pawn_dir(c: Color) -> int {
    if c == Color::White {
        8
    } else {
        -8
    }
}

/// `s` is on the rank where a pawn of color `c` promotes.
pub open spec fn last_rank(c: Color, s: int) -> bool {
    if c == Color::White {
        s / 8 == 7
    } else {
        s / 8 == 0
    }
}

/// `s` is on the rank a pawn of color `c` starts from.
pub open spec fn start_rank(c: Color, s: int) -> bool {
    if c == Color::White {
        s / 8 == 1
    } else {
        s / 8 == 6
    }
}

pub open spec fn mv(
    from: int,
    to: int,
    capture: bool,
    ep: bool,
    dp: bool,
    castle: bool,
    promotion: Option<PieceKind>,
) -> Move {
    Move {
        from: from as u8,
        to: to as u8,
        capture,
        en_passant: ep,
        double_push: dp,
        castle,
        promotion,
    }
}

/// The four promotions of one pawn move: queen, rook, bishop, knight.
pub open spec fn promos(from: int, to: int, capture: bool) -> Seq<Move> {
    seq![
        mv(from, to, capture, false, false, false, Some(PieceKind::Queen)),
        mv(from, to, capture, false, false, false, Some(PieceKind::Rook)),
        mv(from, to, capture, false, false, false, Some(PieceKind::Bishop)),
        mv(from, to, capture, false, false, false, Some(PieceKind::Knight)),
    ]
}

/// A pawn move landing on `to`: four promotions on the last rank, else one.
pub open spec fn pawn_landing(b: Board, from: int, to: int, capture: bool) -> Seq<Move> {
    if last_rank(b.turn, to) {
        promos(from, to, capture)
    } else {
        seq![mv(from, to, capture, false, false, false, None)]
    }
}

/// Captures of the pawn on `from` onto the diagonal square `to`.
pub open spec fn pawn_capture_moves(b: Board, from: int, to: int) -> Seq<Move> {
    let po = b.piece_on@;
    if piece_color(po[to]) == Some(opposite(b.turn)) {
        pawn_landing(b, from, to, true)
    } else if b.en_passant_sq == to && po[to] == Piece::Empty && !last_rank(b.turn, to) {
        seq![mv(from, to, true, true, false, false, None)]
    } else {
        seq![]
    }
}

/// `to` is a forward diagonal neighbour of `from` on the board (no file wrap).
pub open spec fn diag_ok(from: int, to: int) -> bool {
    0 <= to < 64 && fdist(from, to) == 1
}

/// First and second diagonal targets, ordered so that the generator walks
/// each pawn's destinations in one direction.
pub open spec fn diag1(c: Color, fwd: int) -> int {
    if c == Color::White {
        fwd - 1
    } else {
        fwd + 1
    }
}

pub open spec fn diag2(c: Color, fwd: int) -> int {
    if c == Color::White {
        fwd + 1
    } else {
        fwd - 1
    }
}

/// Captures onto `c` when it is a diagonal neighbour, else none.
pub open spec fn cap_part(b: Board, from: int, c: int) -> Seq<Move> {
    if diag_ok(from, c) {
        pawn_capture_moves(b, from, c)
    } else {
        seq![]
    }
}

/// The single push onto `fwd` when it is empty.
pub open spec fn push_part(b: Board, from: int, fwd: int) -> Seq<Move> {
    if b.piece_on@[fwd] == Piece::Empty {
        pawn_landing(b, from, fwd, false)
    } else {
        seq![]
    }
}

/// The double push from the start rank through the empty `fwd`.
pub open spec fn dbl_part(b: Board, from: int, fwd: int) -> Seq<Move> {
    let po = b.piece_on@;
    let d = pawn_dir(b.turn);
    if start_rank(b.turn, from) && po[fwd] == Piece::Empty && 0 <= fwd + d < 64 && po[fwd + d]
        == Piece::Empty {
        seq![mv(from, fwd + d, false, false, true, false, None)]
    } else {
        seq![]
    }
}

/// All moves of a pawn of the side to move standing on `from`.
pub open spec fn pawn_moves(b: Board, from: int) -> Seq<Move> {
    let fwd = from + pawn_dir(b.turn);
    if !(0 <= fwd < 64) {
        seq![]
    } else {
        cap_part(b, from, diag1(b.turn, fwd)) + push_part(b, from, fwd) + cap_part(
            b,
            from,
            diag2(b.turn, fwd),
        ) + dbl_part(b, from, fwd)
    }
}

/// The piece on `from` may go to `t`: it attacks `t`, which holds no piece
/// of its own side.
pub open spec fn target_ok(b: Board, from: int, t: int) -> bool {
    let po = b.piece_on@;
    piece_color(po[t]) != Some(b.turn) && piece_attacks(po[from], b.all_pieces, from, t)
}

pub open spec fn target_move(b: Board, from: int, t: int) -> Move {
    mv(from, t, b.piece_on@[t] != Piece::Empty, false, false, false, None)
}

/// Moves of the (non-pawn) piece on `from` to the targets below `n`.
pub open spec fn targets_upto(b: Board, from: int, n: int) -> Seq<Move>
    decreases n,
{
    if n <= 0 {
        seq![]
    } else {
        targets_upto(b, from, n - 1) + if target_ok(b, from, n - 1) {
            seq![target_move(b, from, n - 1)]
        } else {
            seq![]
        }
    }
}

pub open spec fn king_home(c: Color) -> int {
    if c == Color::White {
        4
    } else {
        60
    }
}

pub open spec fn castle_move(from: int, to: int) -> Move {
    mv(from, to, false, false, false, true, None)
}

/// Castling moves whose conditions hold: queen side first, then king side.
pub open spec fn castle_moves(b: Board) -> Seq<Move> {
    let k = king_home(b.turn);
    (if castle_conditions(b, castle_move(k, k - 2)) {
        seq![castle_move(k, k - 2)]
    } else {
        seq![]
    }) + (if castle_conditions(b, castle_move(k, k + 2)) {
        seq![castle_move(k, k + 2)]
    } else {
        seq![]
    })
}

/// The kinds each generator covers: 0 pawns, 1 knights and king, 2 sliders.
pub open spec fn in_group(k: PieceKind, g: int) -> bool {
    if g == 0 {
        k == PieceKind::Pawn
    } else if g == 1 {
        k == PieceKind::Knight || k == PieceKind::King
    } else {
        k == PieceKind::Bishop || k == PieceKind::Rook || k == PieceKind::Queen
    }
}

/// Moves of group `g` from the square `from`.
pub open spec fn from_moves(b: Board, g: int, from: int) -> Seq<Move> {
    let p = b.piece_on@[from];
    if piece_color(p) != Some(b.turn) || !in_group(piece_kind(p).unwrap(), g) {
        seq![]
    } else if piece_kind(p) == Some(PieceKind::Pawn) {
        pawn_moves(b, from)
    } else if piece_kind(p) == Some(PieceKind::King) && from == king_home(b.turn) {
        targets_upto(b, from, 64) + castle_moves(b)
    } else {
        targets_upto(b, from, 64)
    }
}

/// Moves of group `g` from the squares below `n`, square by square.
pub open spec fn group_moves(b: Board, g: int, n: int) -> Seq<Move>
    decreases n,
{
    if n <= 0 {
        seq![]
    } else {
        group_moves(b, g, n - 1) + from_moves(b, g, n - 1)
    }
}

/// The pseudo-legal move list in generation order: pawns, knights and king,
/// then sliders.
pub open spec fn pseudo_list(b: Board) -> Seq<Move> {
    group_moves(b, 0, 64) + group_moves(b, 1, 64) + group_moves(b, 2, 64)
}

/// The moves of `s` after which the mover's king is safe, in order.
pub open spec fn safe_filter(b: Board, s: Seq<Move>) -> Seq<Move>
    decreases s.len(),
{
    if s.len() == 0 {
        seq![]
    } else {
        safe_filter(b, s.drop_last()) + if king_safe_after(b, s.last()) {
            seq![s.last()]
        } else {
            seq![]
        }
    }
}

/// The legal move list in generation order.
pub open spec fn legal_list(b: Board) -> Seq<Move> {
    safe_filter(b, pseudo_list(b))
}

// ---- sequence facts ----

pub proof fn lemma_contains_concat(a: Seq<Move>, c: Seq<Move>, x: Move)
    ensures
        (a + c).contains(x) <==> (a.contains(x) || c.contains(x)),
{
    if a.contains(x) {
        let i = choose|i: int| 0 <= i < a.len() && a[i] == x;
        assert((a + c)[i] == x);
    }
    if c.contains(x) {
        let i = choose|i: int| 0 <= i < c.len() && c[i] == x;
        assert((a + c)[a.len() + i] == x);
    }
    if (a + c).contains(x) {
        let i = choose|i: int| 0 <= i < (a + c).len() && (a + c)[i] == x;
        if i < a.len() {
            assert(a[i] == x);
        } else {
            assert(c[i - a.len()] == x);
        }
    }
}

pub proof fn lemma_nodup_concat(a: Seq<Move>, c: Seq<Move>)
    requires
        a.no_duplicates(),
        c.no_duplicates(),
        forall|x: Move| a.contains(x) ==> !c.contains(x),
    ensures
        (a + c).no_duplicates(),
{
    let s = a + c;
    assert forall|i: int, j: int| 0 <= i < s.len() && 0 <= j < s.len() && i != j implies s[i]
        != s[j] by {
        if i < a.len() && j >= a.len() {
            assert(a.contains(s[i]));
            assert(c[j - a.len()] == s[j]);
        } else if j < a.len() && i >= a.len() {
            assert(a.contains(s[j]));
            assert(c[i - a.len()] == s[i]);
        } else if i >= a.len() {
            assert(s[i] == c[i - a.len()] && s[j] == c[j - a.len()]);
        }
    }
}

// ---- per-square facts: every element of from_moves starts on that square ----

pub proof fn lemma_targets_shape(b: Board, from: int, n: int)
    requires
        0 <= from < 64,
        n <= 64,
    ensures
        forall|i: int|
            0 <= i < targets_upto(b, from, n).len() ==> {
                let m = #[trigger] targets_upto(b, from, n)[i];
                &&& m.from == from
                &&& (m.to as int) < n
                &&& 0 <= m.to
                &&& !m.castle
                &&& m == target_move(b, from, m.to as int)
                &&& target_ok(b, from, m.to as int)
            },
        targets_upto(b, from, n).no_duplicates(),
    decreases n,
{
    if n > 0 {
        lemma_targets_shape(b, from, n - 1);
        let a = targets_upto(b, from, n - 1);
        let c = if target_ok(b, from, n - 1) {
            seq![target_move(b, from, n - 1)]
        } else {
            seq![]
        };
        assert(targets_upto(b, from, n) == a + c);
        assert forall|x: Move| a.contains(x) implies !c.contains(x) by {
            let i = choose|i: int| 0 <= i < a.len() && a[i] == x;
            assert((a[i].to as int) < n - 1);
        }
        lemma_nodup_concat(a, c);
    }
}

pub proof fn lemma_target_in(b: Board, from: int, t: int, n: int)
    requires
        0 <= t < n <= 64,
        target_ok(b, from, t),
    ensures
        targets_upto(b, from, n).contains(target_move(b, from, t)),
    decreases n,
{
    let a = targets_upto(b, from, n - 1);
    let c = if target_ok(b, from, n - 1) {
        seq![target_move(b, from, n - 1)]
    } else {
        seq![]
    };
    assert(targets_upto(b, from, n) == a + c);
    if t < n - 1 {
        lemma_target_in(b, from, t, n - 1);
    } else {
        assert(c[0] == target_move(b, from, t));
    }
    lemma_contains_concat(a, c, target_move(b, from, t));
}

/// Every move of `s` starts on `f` and is pseudo-legal.
pub open spec fn part_ok(b: Board, s: Seq<Move>, f: int) -> bool {
    forall|i: int| 0 <= i < s.len() ==> (#[trigger] s[i]).from == f && pseudo_ok(b, s[i])
}

pub proof fn lemma_part_concat(b: Board, a: Seq<Move>, c: Seq<Move>, f: int)
    requires
        part_ok(b, a, f),
        part_ok(b, c, f),
    ensures
        part_ok(b, a + c, f),
{
    assert forall|i: int| 0 <= i < (a + c).len() implies ((a + c)[i]).from == f && pseudo_ok(
        b,
        (a + c)[i],
    ) by {
        if i < a.len() {
            assert((a + c)[i] == a[i]);
        } else {
            assert((a + c)[i] == c[i - a.len()]);
        }
    }
}

pub proof fn lemma_pawn_landing(b: Board, f: int, to: int, capture: bool)
    requires
        b.wf(),
        0 <= f < 64,
        0 <= to < 64,
        f != to,
        b.piece_on@[f] == make_piece(PieceKind::Pawn, b.turn),
        !capture ==> b.piece_on@[to] == Piece::Empty,
        capture ==> piece_color(b.piece_on@[to]) == Some(opposite(b.turn)),
        capture ==> pawn_reach(b.turn, f, to),
        !capture ==> to == f + pawn_dir(b.turn),
    ensures
        part_ok(b, pawn_landing(b, f, to, capture), f),
        pawn_landing(b, f, to, capture).no_duplicates(),
        forall|i: int|
            0 <= i < pawn_landing(b, f, to, capture).len() ==> (#[trigger] pawn_landing(
                b,
                f,
                to,
                capture,
            )[i]).to == to,
{
    let s = pawn_landing(b, f, to, capture);
    assert forall|i: int| 0 <= i < s.len() implies (#[trigger] s[i]).from == f && pseudo_ok(
        b,
        s[i],
    ) by {
        assert(s[i].to as int == to);
    }
}

proof fn lemma_diag_reach(c: Color, f: int, t: int)
    requires
        0 <= f < 64,
        t == f + pawn_dir(c) - 1 || t == f + pawn_dir(c) + 1,
        diag_ok(f, t),
    ensures
        pawn_reach(c, f, t),
        t != f,
        0 <= t - pawn_dir(c) < 64,
        t - pawn_dir(c) != f,
{
}

proof fn lemma_ep_move(b: Board, f: int, t: int)
    requires
        b.wf(),
        0 <= f < 64,
        b.piece_on@[f] == make_piece(PieceKind::Pawn, b.turn),
        pawn_reach(b.turn, f, t),
        0 <= t - pawn_dir(b.turn) < 64,
        t - pawn_dir(b.turn) != f,
        b.en_passant_sq == t,
        b.piece_on@[t] == Piece::Empty,
        !last_rank(b.turn, t),
    ensures
        pseudo_ok(b, mv(f, t, true, true, false, false, None)),
{
}

#[verifier::rlimit(40)]
pub proof fn lemma_cap_part(b: Board, f: int, c: int)
    requires
        b.wf(),
        0 <= f < 64,
        b.piece_on@[f] == make_piece(PieceKind::Pawn, b.turn),
        c == f + pawn_dir(b.turn) - 1 || c == f + pawn_dir(b.turn) + 1,
    ensures
        part_ok(b, cap_part(b, f, c), f),
        cap_part(b, f, c).no_duplicates(),
        forall|i: int| 0 <= i < cap_part(b, f, c).len() ==> (#[trigger] cap_part(b, f, c)[i]).to == c,
{
    if diag_ok(f, c) {
        lemma_diag_reach(b.turn, f, c);
        let po = b.piece_on@;
        if piece_color(po[c]) == Some(opposite(b.turn)) {
            lemma_pawn_landing(b, f, c, true);
        } else if b.en_passant_sq == c && po[c] == Piece::Empty && !last_rank(b.turn, c) {
            lemma_ep_move(b, f, c);
            let s = cap_part(b, f, c);
            assert(s =~= seq![mv(f, c, true, true, false, false, None)]);
        }
    }
}

pub proof fn lemma_pawn_moves(b: Board, f: int)
    requires
        b.wf(),
        0 <= f < 64,
        b.piece_on@[f] == make_piece(PieceKind::Pawn, b.turn),
    ensures
        part_ok(b, pawn_moves(b, f), f),
        pawn_moves(b, f).no_duplicates(),
{
    let d = pawn_dir(b.turn);
    let fwd = f + d;
    if 0 <= fwd < 64 {
        let c1 = diag1(b.turn, fwd);
        let c2 = diag2(b.turn, fwd);
        lemma_cap_part(b, f, c1);
        lemma_cap_part(b, f, c2);
        let p1 = cap_part(b, f, c1);
        let p2 = push_part(b, f, fwd);
        let p3 = cap_part(b, f, c2);
        let p4 = dbl_part(b, f, fwd);
        if b.piece_on@[fwd] == Piece::Empty {
            lemma_pawn_landing(b, f, fwd, false);
        }
        assert(part_ok(b, p4, f) && p4.no_duplicates()) by {
            if p4.len() > 0 {
                assert(pseudo_ok(b, p4[0]));
            }
        }
        assert forall|i: int| 0 <= i < p2.len() implies (#[trigger] p2[i]).to == fwd by {}
        assert forall|i: int| 0 <= i < p4.len() implies (#[trigger] p4[i]).to == fwd + d by {}
        assert forall|x: Move| p1.contains(x) implies !p2.contains(x) by {
            let i = choose|i: int| 0 <= i < p1.len() && p1[i] == x;
            assert(p1[i].to as int == c1);
        }
        lemma_nodup_concat(p1, p2);
        lemma_part_concat(b, p1, p2, f);
        assert forall|x: Move| (p1 + p2).contains(x) implies !p3.contains(x) by {
            lemma_contains_concat(p1, p2, x);
            if p1.contains(x) {
                let i = choose|i: int| 0 <= i < p1.len() && p1[i] == x;
                assert(p1[i].to as int == c1);
            } else {
                let i = choose|i: int| 0 <= i < p2.len() && p2[i] == x;
                assert(p2[i].to as int == fwd);
            }
            if p3.contains(x) {
                let j = choose|j: int| 0 <= j < p3.len() && p3[j] == x;
                assert(p3[j].to as int == c2);
            }
        }
        lemma_nodup_concat(p1 + p2, p3);
        lemma_part_concat(b, p1 + p2, p3, f);
        assert forall|x: Move| (p1 + p2 + p3).contains(x) implies !p4.contains(x) by {
            if p4.contains(x) {
                assert(x.double_push);
                lemma_contains_concat(p1 + p2, p3, x);
                lemma_contains_concat(p1, p2, x);
                if p1.contains(x) {
                    let i = choose|i: int| 0 <= i < p1.len() && p1[i] == x;
                } else if p2.contains(x) {
                    let i = choose|i: int| 0 <= i < p2.len() && p2[i] == x;
                } else if p3.contains(x) {
                    let i = choose|i: int| 0 <= i < p3.len() && p3[i] == x;
                }
            }
        }
        lemma_nodup_concat(p1 + p2 + p3, p4);
        lemma_part_concat(b, p1 + p2 + p3, p4, f);
    }
}

proof fn lemma_target_sound(b: Board, f: int, t: int)
    requires
        b.wf(),
        0 <= f < 64,
        0 <= t < 64,
        piece_color(b.piece_on@[f]) == Some(b.turn),
        piece_kind(b.piece_on@[f]) != Some(PieceKind::Pawn),
        target_ok(b, f, t),
    ensures
        pseudo_ok(b, target_move(b, f, t)),
{
}

proof fn lemma_targets_sound(b: Board, f: int)
    requires
        b.wf(),
        0 <= f < 64,
        piece_color(b.piece_on@[f]) == Some(b.turn),
        piece_kind(b.piece_on@[f]) != Some(PieceKind::Pawn),
    ensures
        part_ok(b, targets_upto(b, f, 64), f),
        targets_upto(b, f, 64).no_duplicates(),
        forall|i: int| 0 <= i < targets_upto(b, f, 64).len() ==> !(#[trigger] targets_upto(b, f, 64)[i]).castle,
{
    lemma_targets_shape(b, f, 64);
    let s = targets_upto(b, f, 64);
    assert forall|i: int| 0 <= i < s.len() implies (#[trigger] s[i]).from == f && pseudo_ok(b, s[i]) by {
        lemma_target_sound(b, f, s[i].to as int);
    }
}

proof fn lemma_castles_sound(b: Board)
    requires
        b.wf(),
    ensures
        part_ok(b, castle_moves(b), king_home(b.turn)),
        castle_moves(b).no_duplicates(),
        forall|i: int| 0 <= i < castle_moves(b).len() ==> (#[trigger] castle_moves(b)[i]).castle,
{
    let k = king_home(b.turn);
    let s = castle_moves(b);
    if castle_conditions(b, castle_move(k, k - 2)) {
        assert(pseudo_ok(b, castle_move(k, k - 2)));
    }
    if castle_conditions(b, castle_move(k, k + 2)) {
        assert(pseudo_ok(b, castle_move(k, k + 2)));
    }
    assert forall|i: int| 0 <= i < s.len() implies (#[trigger] s[i]).from == k && pseudo_ok(b, s[i])
        && s[i].castle by {}
}

/// Every move of `s` is pseudo-legal, starts below `n` on a piece of the side
/// to move, and that piece's kind is in group `g`.
pub open spec fn group_ok(b: Board, s: Seq<Move>, g: int, n: int) -> bool {
    forall|i: int|
        0 <= i < s.len() ==> {
            let m = #[trigger] s[i];
            &&& (m.from as int) < n
            &&& pseudo_ok(b, m)
            &&& in_group(piece_kind(b.piece_on@[m.from as int]).unwrap(), g)
        }
}

proof fn lemma_from_moves(b: Board, g: int, f: int)
    requires
        b.wf(),
        0 <= f < 64,
    ensures
        part_ok(b, from_moves(b, g, f), f),
        from_moves(b, g, f).no_duplicates(),
        from_moves(b, g, f).len() > 0 ==> in_group(piece_kind(b.piece_on@[f]).unwrap(), g),
{
    let p = b.piece_on@[f];
    if piece_color(p) != Some(b.turn) || !in_group(piece_kind(p).unwrap(), g) {
    } else if piece_kind(p) == Some(PieceKind::Pawn) {
        crate::types::lemma_own_piece(p, b.turn);
        lemma_pawn_moves(b, f);
    } else if piece_kind(p) == Some(PieceKind::King) && f == king_home(b.turn) {
        lemma_targets_sound(b, f);
        lemma_castles_sound(b);
        let a = targets_upto(b, f, 64);
        let c = castle_moves(b);
        assert forall|x: Move| a.contains(x) implies !c.contains(x) by {
            let i = choose|i: int| 0 <= i < a.len() && a[i] == x;
            assert(!a[i].castle);
            if c.contains(x) {
                let j = choose|j: int| 0 <= j < c.len() && c[j] == x;
                assert(c[j].castle);
            }
        }
        lemma_nodup_concat(a, c);
        lemma_part_concat(b, a, c, f);
    } else {
        lemma_targets_sound(b, f);
    }
}

proof fn lemma_group_moves(b: Board, g: int, n: int)
    requires
        b.wf(),
        0 <= n <= 64,
    ensures
        group_ok(b, group_moves(b, g, n), g, n),
        group_moves(b, g, n).no_duplicates(),
    decreases n,
{
    if n > 0 {
        lemma_group_moves(b, g, n - 1);
        lemma_from_moves(b, g, n - 1);
        let a = group_moves(b, g, n - 1);
        let c = from_moves(b, g, n - 1);
        assert forall|x: Move| a.contains(x) implies !c.contains(x) by {
            let i = choose|i: int| 0 <= i < a.len() && a[i] == x;
            if c.contains(x) {
                let j = choose|j: int| 0 <= j < c.len() && c[j] == x;
                assert(c[j].from == n - 1);
            }
        }
        lemma_nodup_concat(a, c);
        let s = a + c;
        assert forall|i: int| 0 <= i < s.len() implies {
            let m = #[trigger] s[i];
            &&& (m.from as int) < n
            &&& pseudo_ok(b, m)
            &&& in_group(piece_kind(b.piece_on@[m.from as int]).unwrap(), g)
        } by {
            if i < a.len() {
                assert(s[i] == a[i]);
            } else {
                assert(s[i] == c[i - a.len()]);
                assert(c.len() > 0);
            }
        }
    }
}

proof fn lemma_groups_disjoint(b: Board, a: Seq<Move>, ga: int, c: Seq<Move>, gc: int)
    requires
        group_ok(b, a, ga, 64),
        group_ok(b, c, gc, 64),
        0 <= ga < gc <= 2,
    ensures
        forall|x: Move| a.contains(x) ==> !c.contains(x),
{
    assert forall|x: Move| a.contains(x) implies !c.contains(x) by {
        let i = choose|i: int| 0 <= i < a.len() && a[i] == x;
        if c.contains(x) {
            let j = choose|j: int| 0 <= j < c.len() && c[j] == x;
            assert(in_group(piece_kind(b.piece_on@[x.from as int]).unwrap(), ga));
            assert(in_group(piece_kind(b.piece_on@[x.from as int]).unwrap(), gc));
        }
    }
}

/// The pseudo-legal list holds only pseudo-legal moves, each once.
pub proof fn lemma_pseudo_list_sound(b: Board)
    requires
        b.wf(),
    ensures
        forall|i: int| 0 <= i < pseudo_list(b).len() ==> pseudo_ok(b, #[trigger] pseudo_list(b)[i]),
        pseudo_list(b).no_duplicates(),
{
    lemma_group_moves(b, 0, 64);
    lemma_group_moves(b, 1, 64);
    lemma_group_moves(b, 2, 64);
    let p0 = group_moves(b, 0, 64);
    let p1 = group_moves(b, 1, 64);
    let p2 = group_moves(b, 2, 64);
    lemma_groups_disjoint(b, p0, 0, p1, 1);
    lemma_nodup_concat(p0, p1);
    assert forall|x: Move| (p0 + p1).contains(x) implies !p2.contains(x) by {
        lemma_contains_concat(p0, p1, x);
        lemma_groups_disjoint(b, p0, 0, p2, 2);
        lemma_groups_disjoint(b, p1, 1, p2, 2);
    }
    lemma_nodup_concat(p0 + p1, p2);
    let s = pseudo_list(b);
    assert forall|i: int| 0 <= i < s.len() implies pseudo_ok(b, #[trigger] s[i]) by {
        if i < p0.len() {
            assert(s[i] == p0[i]);
        } else if i < p0.len() + p1.len() {
            assert(s[i] == p1[i - p0.len()]);
        } else {
            assert(s[i] == p2[i - p0.len() - p1.len()]);
        }
    }
}

proof fn lemma_landing_contains(b: Board, f: int, to: int, capture: bool, m: Move)
    requires
        m.from as int == f,
        m.to as int == to,
        m.capture == capture,
        !m.en_passant,
        !m.double_push,
        !m.castle,
        crate::types::move_wf(m),
        last_rank(b.turn, to) ==> m.promotion.is_some(),
        !last_rank(b.turn, to) ==> m.promotion.is_none(),
    ensures
        pawn_landing(b, f, to, capture).contains(m),
{
    let s = pawn_landing(b, f, to, capture);
    if last_rank(b.turn, to) {
        let k = m.promotion.unwrap();
        if k == PieceKind::Queen {
            assert(s[0] == m);
        } else if k == PieceKind::Rook {
            assert(s[1] == m);
        } else if k == PieceKind::Bishop {
            assert(s[2] == m);
        } else {
            assert(s[3] == m);
        }
    } else {
        assert(s[0] == m);
    }
}

proof fn lemma_pawn_complete(b: Board, m: Move)
    requires
        b.wf(),
        pseudo_ok(b, m),
        piece_kind(b.piece_on@[m.from as int]) == Some(PieceKind::Pawn),
    ensures
        pawn_moves(b, m.from as int).contains(m),
{
    let f = m.from as int;
    let t = m.to as int;
    let d = pawn_dir(b.turn);
    let fwd = f + d;
    let c1 = diag1(b.turn, fwd);
    let c2 = diag2(b.turn, fwd);
    let p1 = cap_part(b, f, c1);
    let p2 = push_part(b, f, fwd);
    let p3 = cap_part(b, f, c2);
    let p4 = dbl_part(b, f, fwd);
    assert(0 <= fwd < 64);
    assert(pawn_moves(b, f) == p1 + p2 + p3 + p4);
    if m.capture {
        assert(t == c1 || t == c2);
        let part = if t == c1 {
            p1
        } else {
            p3
        };
        assert(diag_ok(f, t));
        assert(part == pawn_capture_moves(b, f, t));
        if m.en_passant {
            assert(!last_rank(b.turn, t));
            assert(part[0] == m);
        } else {
            lemma_landing_contains(b, f, t, true, m);
        }
        assert(part.contains(m));
        lemma_contains_concat(p1, p2, m);
        lemma_contains_concat(p1 + p2, p3, m);
        lemma_contains_concat(p1 + p2 + p3, p4, m);
    } else if m.double_push {
        assert(p4[0] == m);
        lemma_contains_concat(p1 + p2 + p3, p4, m);
    } else {
        lemma_landing_contains(b, f, t, false, m);
        assert(p2.contains(m));
        lemma_contains_concat(p1, p2, m);
        lemma_contains_concat(p1 + p2, p3, m);
        lemma_contains_concat(p1 + p2 + p3, p4, m);
    }
}

proof fn lemma_in_group_moves(b: Board, g: int, f: int, n: int, x: Move)
    requires
        0 <= f < n <= 64,
        from_moves(b, g, f).contains(x),
    ensures
        group_moves(b, g, n).contains(x),
    decreases n,
{
    if f < n - 1 {
        lemma_in_group_moves(b, g, f, n - 1, x);
    }
    lemma_contains_concat(group_moves(b, g, n - 1), from_moves(b, g, n - 1), x);
}

/// Every pseudo-legal move is in the pseudo-legal list.
pub proof fn lemma_pseudo_list_complete(b: Board, m: Move)
    requires
        b.wf(),
        pseudo_ok(b, m),
    ensures
        pseudo_list(b).contains(m),
{
    let f = m.from as int;
    let p = b.piece_on@[f];
    let k = piece_kind(p).unwrap();
    let g = if k == PieceKind::Pawn {
        0int
    } else if k == PieceKind::Knight || k == PieceKind::King {
        1int
    } else {
        2int
    };
    let fm = from_moves(b, g, f);
    if k == PieceKind::Pawn {
        lemma_pawn_complete(b, m);
    } else if m.castle {
        let kh = king_home(b.turn);
        let c = castle_moves(b);
        let a = targets_upto(b, f, 64);
        assert(fm == a + c);
        if m.to as int == kh - 2 {
            assert(m == castle_move(kh, kh - 2));
            assert(c[0] == m);
        } else {
            assert(m == castle_move(kh, kh + 2));
            assert(c[c.len() - 1] == m);
        }
        lemma_contains_concat(a, c, m);
    } else {
        let t = m.to as int;
        assert(target_ok(b, f, t));
        assert(m == target_move(b, f, t));
        lemma_target_in(b, f, t, 64);
        if k == PieceKind::King && f == king_home(b.turn) {
            lemma_contains_concat(targets_upto(b, f, 64), castle_moves(b), m);
        }
    }
    assert(fm.contains(m));
    lemma_in_group_moves(b, g, f, 64, m);
    let p0 = group_moves(b, 0, 64);
    let p1 = group_moves(b, 1, 64);
    let p2 = group_moves(b, 2, 64);
    lemma_contains_concat(p0, p1, m);
    lemma_contains_concat(p0 + p1, p2, m);
}

/// The filter keeps exactly the safe moves of `s`, each once if `s` has no
/// duplicates.
pub proof fn lemma_safe_filter(b: Board, s: Seq<Move>)
    ensures
        forall|x: Move| #[trigger] safe_filter(b, s).contains(x) <==> (s.contains(x) && king_safe_after(b, x)),
        s.no_duplicates() ==> safe_filter(b, s).no_duplicates(),
    decreases s.len(),
{
    if s.len() > 0 {
        let a = s.drop_last();
        lemma_safe_filter(b, a);
        let c = if king_safe_after(b, s.last()) {
            seq![s.last()]
        } else {
            seq![]
        };
        assert(s == a.push(s.last()));
        assert(safe_filter(b, s) == safe_filter(b, a) + c);
        assert forall|x: Move| #[trigger] safe_filter(b, s).contains(x) <==> (s.contains(x)
            && king_safe_after(b, x)) by {
            lemma_contains_concat(safe_filter(b, a), c, x);
            if c.contains(x) {
                assert(c[0] == x);
                assert(s[s.len() - 1] == x);
            }
            if s.contains(x) {
                let i = choose|i: int| 0 <= i < s.len() && s[i] == x;
                if i < a.len() {
                    assert(a[i] == x);
                } else {
                    assert(x == s.last());
                    if king_safe_after(b, x) {
                        assert(c[0] == x);
                    }
                }
            }
            if a.contains(x) {
                let i = choose|i: int| 0 <= i < a.len() && a[i] == x;
                assert(s[i] == x);
            }
        }
        if s.no_duplicates() {
            assert(a.no_duplicates()) by {
                assert forall|i: int, j: int| 0 <= i < a.len() && 0 <= j < a.len() && i != j implies a[i] != a[j] by {
                    assert(a[i] == s[i] && a[j] == s[j]);
                }
            }
            assert forall|x: Move| safe_filter(b, a).contains(x) implies !c.contains(x) by {
                if c.contains(x) {
                    assert(x == s.last());
                    let i = choose|i: int| 0 <= i < a.len() && a[i] == x;
                    assert(s[i] == s[s.len() - 1]);
                }
            }
            lemma_nodup_concat(safe_filter(b, a), c);
        }
    }
}

/// Two positions agree in everything move generation reads.
pub open spec fn same_play(a: Board, c: Board) -> bool {
    &&& a.piece_on@ == c.piece_on@
    &&& a.turn == c.turn
    &&& a.castle == c.castle
    &&& a.en_passant_sq == c.en_passant_sq
    &&& a.all_pieces == c.all_pieces
}

proof fn lemma_targets_cong(a: Board, c: Board, f: int, n: int)
    requires
        same_play(a, c),
    ensures
        targets_upto(a, f, n) == targets_upto(c, f, n),
    decreases n,
{
    if n > 0 {
        lemma_targets_cong(a, c, f, n - 1);
    }
}

proof fn lemma_group_cong(a: Board, c: Board, g: int, n: int)
    requires
        same_play(a, c),
    ensures
        group_moves(a, g, n) == group_moves(c, g, n),
    decreases n,
{
    if n > 0 {
        lemma_group_cong(a, c, g, n - 1);
        lemma_targets_cong(a, c, n - 1, 64);
        assert(castle_moves(a) == castle_moves(c));
        assert(pawn_moves(a, n - 1) == pawn_moves(c, n - 1));
        assert(from_moves(a, g, n - 1) == from_moves(c, g, n - 1));
    }
}

proof fn lemma_filter_cong(a: Board, c: Board, s: Seq<Move>)
    requires
        same_play(a, c),
    ensures
        safe_filter(a, s) == safe_filter(c, s),
    decreases s.len(),
{
    if s.len() > 0 {
        lemma_filter_cong(a, c, s.drop_last());
        assert(king_safe_after(a, s.last()) == king_safe_after(c, s.last()));
    }
}

/// Positions that agree in what move generation reads have the same legal
/// move list.
pub proof fn lemma_legal_cong(a: Board, c: Board)
    requires
        same_play(a, c),
    ensures
        legal_list(a) == legal_list(c),
{
    lemma_group_cong(a, c, 0, 64);
    lemma_group_cong(a, c, 1, 64);
    lemma_group_cong(a, c, 2, 64);
    lemma_filter_cong(a, c, pseudo_list(a));
}

/// `c` stands as the position after move `m` of `b`, in everything move
/// generation reads.
pub open spec fn child_rel(b: Board, m: Move, c: Board) -> bool {
    &&& c.piece_on@ == crate::makemove::pieces_after(b.piece_on@, b.turn, m)
    &&& c.turn == opposite(b.turn)
    &&& c.castle == crate::makemove::rights_after(b.castle, b.piece_on@[m.from as int], m)
    &&& c.en_passant_sq == crate::makemove::ep_after(b.turn, m)
    &&& crate::movegen::occ_matches(c.all_pieces, c.piece_on@)
}

/// Leaves of the legal-move tree of depth `d`.
pub open spec fn leaves(b: Board, d: nat) -> nat
    decreases d, 0nat, 0nat,
{
    if d == 0 {
        1
    } else if d == 1 {
        legal_list(b).len()
    } else {
        sum_leaves(b, legal_list(b), (d - 1) as nat)
    }
}

/// Leaves of depth `d` below each move of `s` played from `b`.
pub open spec fn sum_leaves(b: Board, s: Seq<Move>, d: nat) -> nat
    decreases d, 1nat, s.len(),
{
    if s.len() == 0 {
        0
    } else {
        sum_leaves(b, s.drop_last(), d) + if exists|c: Board| child_rel(b, s.last(), c) {
            leaves(choose|c: Board| child_rel(b, s.last(), c), d)
        } else {
            0
        }
    }
}

pub proof fn lemma_occ_unique_pub(x: u64, y: u64, po: Seq<Piece>)
    requires
        crate::movegen::occ_matches(x, po),
        crate::movegen::occ_matches(y, po),
    ensures
        x == y,
{
    lemma_occ_unique(x, y, po);
}

proof fn lemma_occ_unique(x: u64, y: u64, po: Seq<Piece>)
    requires
        crate::movegen::occ_matches(x, po),
        crate::movegen::occ_matches(y, po),
    ensures
        x == y,
{
    assert forall|s: int| 0 <= s < 64 implies #[trigger] crate::bits::bit(x, s) == crate::bits::bit(
        y,
        s,
    ) by {
        assert(crate::bits::bit(x, s) == (po[s] != Piece::Empty));
        assert(crate::bits::bit(y, s) == (po[s] != Piece::Empty));
    }
    crate::bits::lemma_bits_ext(x, y);
}

/// Positions that agree in what move generation reads have as many leaves.
pub proof fn lemma_leaves_cong(a: Board, c: Board, d: nat)
    requires
        same_play(a, c),
    ensures
        leaves(a, d) == leaves(c, d),
    decreases d, 0nat, 0nat,
{
    lemma_legal_cong(a, c);
    if d >= 2 {
        lemma_sum_cong(a, c, legal_list(a), (d - 1) as nat);
    }
}

proof fn lemma_sum_cong(a: Board, c: Board, s: Seq<Move>, d: nat)
    requires
        same_play(a, c),
    ensures
        sum_leaves(a, s, d) == sum_leaves(c, s, d),
    decreases d, 1nat, s.len(),
{
    if s.len() > 0 {
        lemma_sum_cong(a, c, s.drop_last(), d);
        let m = s.last();
        if exists|x: Board| child_rel(a, m, x) {
            let x = choose|x: Board| child_rel(a, m, x);
            assert(child_rel(c, m, x));
            let y = choose|y: Board| child_rel(c, m, y);
            lemma_occ_unique(x.all_pieces, y.all_pieces, x.piece_on@);
            lemma_leaves_cong(x, y, d);
        } else {
            assert forall|y: Board| !child_rel(c, m, y) by {
                if child_rel(c, m, y) {
                    assert(child_rel(a, m, y));
                }
            }
        }
    }
}

/// The count a machine word holds: saturated at `u64::MAX`.
pub open spec fn sat(x: nat) -> nat {
    if x > u64::MAX {
        u64::MAX as nat
    } else {
        x
    }
}

/// Move `m` of `b` mates at once: it is legal, and after it the side to
/// move has no legal move and is in check.
pub open spec fn mates(b: Board, m: Move) -> bool {
    &&& crate::movegen::legal_ok(b, m)
    &&& exists|c: Board|
        #![trigger child_rel(b, m, c)]
        child_rel(b, m, c) && legal_list(c).len() == 0 && crate::movegen::in_check_spec(c)
}

} // verus!
