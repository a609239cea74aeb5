use vstd::prelude::*;
use crate::attacks::{
    aligned_exec, diff, king_reach, knight_reach, path_clear, pawn_reach, slider_attack,
};
use crate::bits::{bit, has_bit, lemma_bit_zero, with_bit, without_bit};
use crate::types::{piece_color, piece_index, piece_kind, Color, Piece, PieceKind, NO_SQ};
use crate::zobrist::{castle_key, ep_key, psq_key, side_key, Zobrist};

verus! {

/// XOR of the piece-square keys of the first `n` squares.
pub open spec fn pieces_hash(po: Seq<Piece>, n: int) -> u64
    decreases n,
{
    if n <= 0 {
        0
    } else {
        pieces_hash(po, n - 1) ^ psq_key(po[n - 1], n - 1)
    }
}

/// The Zobrist hash of a position, recomputed from its parts.
pub open spec fn position_hash(po: Seq<Piece>, castle: u8, ep: i32, turn: Color) -> u64 {
    pieces_hash(po, 64) ^ castle_key(castle as int) ^ ep_key(ep as int) ^ side_key(turn)
}

pub proof fn lemma_xor_facts(h: u64, c: u64, e: u64, s: u64, k: u64)
    ensures
        (h ^ c ^ e ^ s) ^ k == (h ^ k) ^ c ^ e ^ s,
        (h ^ c ^ e ^ s) ^ k == h ^ (c ^ k) ^ e ^ s,
        (h ^ c ^ e ^ s) ^ k == h ^ c ^ (e ^ k) ^ s,
        (h ^ c ^ e ^ s) ^ k == h ^ c ^ e ^ (s ^ k),
        (h ^ c) ^ (c ^ k) == h ^ k,
        h ^ 0 == h,
        (h ^ e) ^ k == (h ^ k) ^ e,
        (h ^ c) ^ c == h,
{
    assert((h ^ c ^ e ^ s) ^ k == (h ^ k) ^ c ^ e ^ s) by (bit_vector);
    assert((h ^ c ^ e ^ s) ^ k == h ^ (c ^ k) ^ e ^ s) by (bit_vector);
    assert((h ^ c ^ e ^ s) ^ k == h ^ c ^ (e ^ k) ^ s) by (bit_vector);
    assert((h ^ c ^ e ^ s) ^ k == h ^ c ^ e ^ (s ^ k)) by (bit_vector);
    assert((h ^ c) ^ (c ^ k) == h ^ k) by (bit_vector);
    assert(h ^ 0 == h) by (bit_vector);
    assert((h ^ e) ^ k == (h ^ k) ^ e) by (bit_vector);
    assert((h ^ c) ^ c == h) by (bit_vector);
}

proof fn lemma_pieces_hash_prefix(a: Seq<Piece>, b: Seq<Piece>, n: int)
    requires
        forall|i: int| 0 <= i < n ==> a[i] == b[i],
    ensures
        pieces_hash(a, n) == pieces_hash(b, n),
    decreases n,
{
    if n > 0 {
        lemma_pieces_hash_prefix(a, b, n - 1);
    }
}

/// Changing one square changes the hash by the old and the new key.
pub proof fn lemma_pieces_hash_update(po: Seq<Piece>, s: int, p: Piece, n: int)
    requires
        0 <= s < n <= po.len(),
    ensures
        pieces_hash(po.update(s, p), n) == pieces_hash(po, n) ^ (psq_key(po[s], s) ^ psq_key(
            p,
            s,
        )),
    decreases n,
{
    let up = po.update(s, p);
    if n - 1 == s {
        lemma_pieces_hash_prefix(po, up, n - 1);
        lemma_xor_facts(pieces_hash(po, n - 1), psq_key(po[s], s), 0, 0, psq_key(p, s));
    } else {
        lemma_pieces_hash_update(po, s, p, n - 1);
        lemma_xor_facts(
            pieces_hash(po, n - 1),
            0,
            psq_key(po[s], s) ^ psq_key(p, s),
            0,
            psq_key(po[n - 1], n - 1),
        );
    }
}

/// A chess position: bitboards, the square array, and the state of the game.
#[derive(Clone)]
pub struct Board {
    pub piece_bb: [u64; 13],
    pub piece_on: [Piece; 64],
    pub w_pieces: u64,
    pub b_pieces: u64,
    pub all_pieces: u64,
    pub turn: Color,
    pub castle: u8,
    pub en_passant_sq: i32,
    pub halfmove_clock: i32,
    pub fullmove_number: i32,
    pub history: Vec<u64>,
    pub zobrist: u64,
    pub zob: Zobrist,
}

impl Board {
    /// The bitboards agree with the square array.
    pub open spec fn pieces_ok(&self) -> bool {
        &&& forall|i: int, s: int|
            0 <= i < 13 && 0 <= s < 64 ==> #[trigger] bit(self.piece_bb[i], s) == (i != 0
                && piece_index(self.piece_on[s]) == i)
        &&& forall|s: int|
            0 <= s < 64 ==> #[trigger] bit(self.w_pieces, s) == (piece_color(self.piece_on[s])
                == Some(Color::White))
        &&& forall|s: int|
            0 <= s < 64 ==> #[trigger] bit(self.b_pieces, s) == (piece_color(self.piece_on[s])
                == Some(Color::Black))
        &&& self.all_pieces == self.w_pieces | self.b_pieces
    }

    /// The incremental hash equals the hash recomputed from the position.
    pub open spec fn hash_ok(&self) -> bool {
        &&& self.zob.wf()
        &&& self.castle < 16
        &&& self.en_passant_sq == NO_SQ || 0 <= self.en_passant_sq < 64
        &&& self.zobrist == position_hash(
            self.piece_on@,
            self.castle,
            self.en_passant_sq,
            self.turn,
        )
    }

    pub open spec fn wf(&self) -> bool {
        &&& self.pieces_ok()
        &&& self.hash_ok()
        &&& 0 <= self.halfmove_clock
        &&& 0 <= self.fullmove_number
    }

    /// Removes whatever stands on `s`, keeping bitboards and hash in step.
    pub(crate) fn remove_at(&mut self, s: usize) -> (p: Piece)
        requires
            old(self).pieces_ok(),
            old(self).hash_ok(),
            s < 64,
        ensures
            p == old(self).piece_on[s as int],
            final(self).piece_on@ == old(self).piece_on@.update(s as int, Piece::Empty),
            final(self).pieces_ok(),
            final(self).hash_ok(),
            final(self).turn == old(self).turn,
            final(self).castle == old(self).castle,
            final(self).en_passant_sq == old(self).en_passant_sq,
            final(self).halfmove_clock == old(self).halfmove_clock,
            final(self).fullmove_number == old(self).fullmove_number,
            final(self).history == old(self).history,
            final(self).zob == old(self).zob,
    {
        let p = self.piece_on[s];
        if !p.is_empty() {
            let k = self.zob.piece_key(p, s);
            proof {
                lemma_pieces_hash_update(self.piece_on@, s as int, Piece::Empty, 64);
                lemma_xor_facts(
                    pieces_hash(self.piece_on@, 64),
                    castle_key(self.castle as int),
                    ep_key(self.en_passant_sq as int),
                    side_key(self.turn),
                    k,
                );
                lemma_xor_facts(k, 0, 0, 0, 0);
            }
            self.zobrist = self.zobrist ^ k;
            self.piece_on[s] = Piece::Empty;
            let i = p.index();
            self.piece_bb[i] = without_bit(self.piece_bb[i], s);
            if i <= 6 {
                self.w_pieces = without_bit(self.w_pieces, s);
            } else {
                self.b_pieces = without_bit(self.b_pieces, s);
            }
            self.all_pieces = self.w_pieces | self.b_pieces;
        } else {
            proof {
                assert(self.piece_on@ =~= self.piece_on@.update(s as int, Piece::Empty));
            }
        }
        p
    }

    /// Places `p` on the empty square `s`, keeping bitboards and hash in step.
    pub(crate) fn put_at(&mut self, s: usize, p: Piece)
        requires
            old(self).pieces_ok(),
            old(self).hash_ok(),
            s < 64,
            old(self).piece_on[s as int] == Piece::Empty,
        ensures
            final(self).piece_on@ == old(self).piece_on@.update(s as int, p),
            final(self).pieces_ok(),
            final(self).hash_ok(),
            final(self).turn == old(self).turn,
            final(self).castle == old(self).castle,
            final(self).en_passant_sq == old(self).en_passant_sq,
            final(self).halfmove_clock == old(self).halfmove_clock,
            final(self).fullmove_number == old(self).fullmove_number,
            final(self).history == old(self).history,
            final(self).zob == old(self).zob,
    {
        if !p.is_empty() {
            let k = self.zob.piece_key(p, s);
            proof {
                lemma_pieces_hash_update(self.piece_on@, s as int, p, 64);
                lemma_xor_facts(
                    pieces_hash(self.piece_on@, 64),
                    castle_key(self.castle as int),
                    ep_key(self.en_passant_sq as int),
                    side_key(self.turn),
                    k,
                );
                lemma_xor_facts(0, 0, 0, 0, k);
                assert(0u64 ^ k == k) by (bit_vector);
            }
            self.zobrist = self.zobrist ^ k;
            self.piece_on[s] = p;
            let i = p.index();
            self.piece_bb[i] = with_bit(self.piece_bb[i], s);
            if i <= 6 {
                self.w_pieces = with_bit(self.w_pieces, s);
            } else {
                self.b_pieces = with_bit(self.b_pieces, s);
            }
            self.all_pieces = self.w_pieces | self.b_pieces;
        } else {
            proof {
                assert(self.piece_on@ =~= self.piece_on@.update(s as int, p));
            }
        }
    }
}

pub open spec fn all_empty(po: Seq<Piece>) -> bool {
    po.len() == 64 && forall|s: int| 0 <= s < 64 ==> po[s] == Piece::Empty
}

proof fn lemma_empty_hash(po: Seq<Piece>, n: int)
    requires
        0 <= n <= po.len(),
        forall|s: int| 0 <= s < n ==> po[s] == Piece::Empty,
    ensures
        pieces_hash(po, n) == 0,
    decreases n,
{
    if n > 0 {
        lemma_empty_hash(po, n - 1);
        assert(0u64 ^ 0u64 == 0u64) by (bit_vector);
    }
}

/// Occurrences of `key` among the entries 2..=n counted from the end of `h`
/// (the entry at the end is the current position itself).
pub open spec fn count_back(h: Seq<u64>, key: u64, n: int) -> nat
    decreases n,
{
    if n <= 1 {
        0
    } else {
        count_back(h, key, n - 1) + if h[h.len() - n] == key {
            1nat
        } else {
            0nat
        }
    }
}

/// How often the current key (the last history entry) appears among the
/// `halfmove_clock` history entries before it.
pub open spec fn repetitions(h: Seq<u64>, key: u64, halfmove: int) -> nat {
    count_back(
        h,
        key,
        if halfmove + 1 < h.len() {
            halfmove + 1
        } else {
            h.len() as int
        },
    )
}

/// The piece on `u` attacks square `t` under occupancy `occ`.
pub open spec fn piece_attacks(p: Piece, occ: u64, u: int, t: int) -> bool {
    match piece_kind(p) {
        Some(PieceKind::Pawn) => pawn_reach(piece_color(p).unwrap(), u, t),
        Some(PieceKind::Knight) => knight_reach(u, t),
        Some(PieceKind::Bishop) => slider_attack(true, occ, u, t),
        Some(PieceKind::Rook) => slider_attack(false, occ, u, t),
        Some(PieceKind::Queen) => slider_attack(true, occ, u, t) || slider_attack(false, occ, u, t),
        Some(PieceKind::King) => king_reach(u, t),
        None => false,
    }
}

/// Some piece of color `by` attacks square `t`.
pub open spec fn attacked_by(po: Seq<Piece>, occ: u64, t: int, by: Color) -> bool {
    exists|u: int|
        0 <= u < 64 && piece_color(#[trigger] po[u]) == Some(by) && piece_attacks(po[u], occ, u, t)
}

/// Tests whether the piece `p` on `u` attacks `t`.
pub fn piece_attacks_exec(p: Piece, occ: u64, u: usize, t: usize) -> (r: bool)
    requires
        u < 64,
        t < 64,
    ensures
        r == piece_attacks(p, occ, u as int, t as int),
{
    match p.kind() {
        Some(PieceKind::Pawn) => {
            let forward = match p.color() {
                Some(Color::White) => t / 8 == u / 8 + 1,
                _ => t / 8 + 1 == u / 8,
            };
            diff(u % 8, t % 8) == 1 && forward
        },
        Some(PieceKind::Knight) => {
            let fd = diff(u % 8, t % 8);
            let rd = diff(u / 8, t / 8);
            (fd == 1 && rd == 2) || (fd == 2 && rd == 1)
        },
        Some(PieceKind::Bishop) => aligned_exec(true, u, t) && path_clear(true, occ, u, t),
        Some(PieceKind::Rook) => aligned_exec(false, u, t) && path_clear(false, occ, u, t),
        Some(PieceKind::Queen) => (aligned_exec(true, u, t) && path_clear(true, occ, u, t)) || (
        aligned_exec(false, u, t) && path_clear(false, occ, u, t)),
        Some(PieceKind::King) => u != t && diff(u % 8, t % 8) <= 1 && diff(u / 8, t / 8) <= 1,
        None => false,
    }
}

impl Board {
    /// An empty board: White to move, no castling rights, no en-passant square.
    pub fn empty() -> (r: Board)
        ensures
            r.wf(),
            all_empty(r.piece_on@),
            r.turn == Color::White,
            r.castle == 0,
            r.en_passant_sq == NO_SQ,
            r.halfmove_clock == 0,
            r.fullmove_number == 1,
            r.history@.len() == 1,
    {
        let zob = Zobrist::new();
        let z = zob.castle_key(0);
        let mut history: Vec<u64> = Vec::new();
        history.push(z);
        let b = Board {
            piece_bb: [0u64; 13],
            piece_on: [Piece::Empty; 64],
            w_pieces: 0,
            b_pieces: 0,
            all_pieces: 0,
            turn: Color::White,
            castle: 0,
            en_passant_sq: NO_SQ,
            halfmove_clock: 0,
            fullmove_number: 1,
            history,
            zobrist: z,
            zob,
        };
        proof {
            broadcast use vstd::array::group_array_axioms;

            lemma_bit_zero();
            assert(forall|i: int| 0 <= i < 13 ==> b.piece_bb[i] == 0u64);
            assert(forall|i: int| 0 <= i < 64 ==> b.piece_on[i] == Piece::Empty);
            lemma_empty_hash(b.piece_on@, 64);
            assert(0u64 ^ z ^ 0u64 ^ 0u64 == z) by (bit_vector);
            assert(0u64 | 0u64 == 0u64) by (bit_vector);
            assert(b.pieces_ok());
            assert(b.zobrist == position_hash(b.piece_on@, b.castle, b.en_passant_sq, b.turn));
            assert(b.hash_ok());
            assert(b.history@.last() == b.zobrist);
        }
        b
    }

    /// Sets the square array only; `rebuild_derived` and `recompute_zobrist`
    /// bring the rest in line.
    pub fn place_piece(&mut self, p: Piece, sq: usize)
        requires
            sq < 64,
        ensures
            final(self).piece_on@ == old(self).piece_on@.update(sq as int, p),
            final(self).turn == old(self).turn,
            final(self).castle == old(self).castle,
            final(self).en_passant_sq == old(self).en_passant_sq,
            final(self).halfmove_clock == old(self).halfmove_clock,
            final(self).fullmove_number == old(self).fullmove_number,
            final(self).history == old(self).history,
            final(self).zobrist == old(self).zobrist,
            final(self).zob == old(self).zob,
    {
        self.piece_on[sq] = p;
    }

    /// Recomputes every bitboard from the square array.
    pub fn rebuild_derived(&mut self)
        ensures
            final(self).pieces_ok(),
            final(self).piece_on == old(self).piece_on,
            final(self).turn == old(self).turn,
            final(self).castle == old(self).castle,
            final(self).en_passant_sq == old(self).en_passant_sq,
            final(self).halfmove_clock == old(self).halfmove_clock,
            final(self).fullmove_number == old(self).fullmove_number,
            final(self).history == old(self).history,
            final(self).zobrist == old(self).zobrist,
            final(self).zob == old(self).zob,
    {
        self.piece_bb = [0u64; 13];
        self.w_pieces = 0;
        self.b_pieces = 0;
        proof {
            broadcast use vstd::array::group_array_axioms;

            lemma_bit_zero();
            assert(forall|i: int| 0 <= i < 13 ==> self.piece_bb[i] == 0u64);
        }
        let mut sq: usize = 0;
        while sq < 64
            invariant
                sq <= 64,
                self.piece_on == old(self).piece_on,
                self.turn == old(self).turn,
                self.castle == old(self).castle,
                self.en_passant_sq == old(self).en_passant_sq,
                self.halfmove_clock == old(self).halfmove_clock,
                self.fullmove_number == old(self).fullmove_number,
                self.history == old(self).history,
                self.zobrist == old(self).zobrist,
                self.zob == old(self).zob,
                forall|i: int, s: int|
                    0 <= i < 13 && 0 <= s < 64 ==> #[trigger] bit(self.piece_bb[i], s) == (s
                        < sq && i != 0 && piece_index(self.piece_on[s]) == i),
                forall|s: int|
                    0 <= s < 64 ==> #[trigger] bit(self.w_pieces, s) == (s < sq && piece_color(
                        self.piece_on[s],
                    ) == Some(Color::White)),
                forall|s: int|
                    0 <= s < 64 ==> #[trigger] bit(self.b_pieces, s) == (s < sq && piece_color(
                        self.piece_on[s],
                    ) == Some(Color::Black)),
            decreases 64 - sq,
        {
            let p = self.piece_on[sq];
            if !p.is_empty() {
                let i = p.index();
                self.piece_bb[i] = with_bit(self.piece_bb[i], sq);
                if i <= 6 {
                    self.w_pieces = with_bit(self.w_pieces, sq);
                } else {
                    self.b_pieces = with_bit(self.b_pieces, sq);
                }
            }
            sq += 1;
        }
        self.all_pieces = self.w_pieces | self.b_pieces;
    }

    /// Recomputes the hash from pieces, castle rights, en-passant and side.
    pub fn recompute_zobrist(&mut self)
        requires
            old(self).zob.wf(),
            old(self).castle < 16,
            old(self).en_passant_sq == NO_SQ || 0 <= old(self).en_passant_sq < 64,
        ensures
            final(self).hash_ok(),
            final(self).piece_on == old(self).piece_on,
            final(self).piece_bb == old(self).piece_bb,
            final(self).w_pieces == old(self).w_pieces,
            final(self).b_pieces == old(self).b_pieces,
            final(self).all_pieces == old(self).all_pieces,
            final(self).turn == old(self).turn,
            final(self).castle == old(self).castle,
            final(self).en_passant_sq == old(self).en_passant_sq,
            final(self).halfmove_clock == old(self).halfmove_clock,
            final(self).fullmove_number == old(self).fullmove_number,
            final(self).history == old(self).history,
            final(self).zob == old(self).zob,
    {
        let mut h: u64 = 0;
        let mut sq: usize = 0;
        while sq < 64
            invariant
                sq <= 64,
                self.zob.wf(),
                h == pieces_hash(self.piece_on@, sq as int),
            decreases 64 - sq,
        {
            h = h ^ self.zob.piece_key(self.piece_on[sq], sq);
            sq += 1;
        }
        h = h ^ self.zob.castle_key(self.castle);
        h = h ^ self.zob.ep_key(self.en_passant_sq);
        if self.turn == Color::Black {
            h = h ^ self.zob.side;
        } else {
            proof {
                lemma_xor_facts(h, 0, 0, 0, 0);
            }
        }
        self.zobrist = h;
    }

    /// Starts the history afresh with the current key.
    pub fn reset_history(&mut self)
        ensures
            final(self).history@ == seq![old(self).zobrist],
            final(self).piece_on == old(self).piece_on,
            final(self).piece_bb == old(self).piece_bb,
            final(self).w_pieces == old(self).w_pieces,
            final(self).b_pieces == old(self).b_pieces,
            final(self).all_pieces == old(self).all_pieces,
            final(self).turn == old(self).turn,
            final(self).castle == old(self).castle,
            final(self).en_passant_sq == old(self).en_passant_sq,
            final(self).halfmove_clock == old(self).halfmove_clock,
            final(self).fullmove_number == old(self).fullmove_number,
            final(self).zobrist == old(self).zobrist,
            final(self).zob == old(self).zob,
    {
        let mut h: Vec<u64> = Vec::new();
        h.push(self.zobrist);
        self.history = h;
        proof {
            assert(self.history@ =~= seq![old(self).zobrist]);
        }
    }

    pub fn count_repetitions(&self) -> (r: usize)
        requires
            0 <= self.halfmove_clock,
        ensures
            r == repetitions(self.history@, self.zobrist, self.halfmove_clock as int),
    {
        let len = self.history.len();
        let hm = self.halfmove_clock as usize;
        let n = if hm < len && hm + 1 < len {
            hm + 1
        } else {
            len
        };
        let mut count: usize = 0;
        let mut j: usize = 2;
        while j <= n
            invariant
                n <= len == self.history@.len(),
                n <= 0x8000_0000,
                2 <= j <= n + 1 || (j == 2 && n < 2),
                count < j,
                count == count_back(self.history@, self.zobrist, (j - 1) as int),
            decreases n + 1 - j,
        {
            if self.history[len - j] == self.zobrist {
                count += 1;
            }
            j += 1;
        }
        proof {
            if n >= 2 {
                assert(j == n + 1);
            } else {
                assert(count_back(self.history@, self.zobrist, n as int) == 0);
            }
        }
        count
    }

    /// Draw by repetition: the current key occurs at least twice more within
    /// the last `halfmove_clock` history entries.
    pub fn is_draw_by_repetition(&self) -> (r: bool)
        requires
            0 <= self.halfmove_clock,
        ensures
            r == (repetitions(self.history@, self.zobrist, self.halfmove_clock as int) >= 2),
    {
        self.count_repetitions() >= 2
    }

    /// Whether a piece of color `by` attacks `square`.
    pub fn is_square_attacked(&self, square: i32, by: Color) -> (r: bool)
        requires
            0 <= square < 64,
        ensures
            r == attacked_by(self.piece_on@, self.all_pieces, square as int, by),
    {
        let t = square as usize;
        let mut u: usize = 0;
        while u < 64
            invariant
                u <= 64,
                t < 64,
                t == square,
                forall|v: int|
                    0 <= v < u ==> !(piece_color(#[trigger] self.piece_on@[v]) == Some(by)
                        && piece_attacks(self.piece_on@[v], self.all_pieces, v, t as int)),
            decreases 64 - u,
        {
            let p = self.piece_on[u];
            let mine = match p.color() {
                Some(c) => c == by,
                None => false,
            };
            if mine && piece_attacks_exec(p, self.all_pieces, u, t) {
                proof {
                    assert(self.piece_on@[u as int] == p);
                }
                return true;
            }
            u += 1;
        }
        false
    }

    /// The lowest square of `bb`, if any.
    pub fn first_sq(bb: u64) -> (r: Option<i32>)
        ensures
            match r {
                Some(s) => 0 <= s < 64 && bit(bb, s as int) && forall|t: int|
                    0 <= t < s ==> !#[trigger] bit(bb, t),
                None => forall|t: int| !#[trigger] bit(bb, t),
            },
    {
        let mut s: usize = 0;
        while s < 64
            invariant
                s <= 64,
                forall|t: int| 0 <= t < s ==> !#[trigger] bit(bb, t),
            decreases 64 - s,
        {
            if has_bit(bb, s) {
                return Some(s as i32);
            }
            s += 1;
        }
        None
    }
}

} // verus!
