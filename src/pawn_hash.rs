use vstd::prelude::*;
use crate::bits::bit;
use crate::board::Board;
use crate::eval::{pawn_in_box, pawn_sum, pawn_terms};
use crate::types::{Color, Piece};

verus! {

/// The pawns of `po` are exactly the squares of `w` (white) and `bl` (black).
pub open spec fn pawns_match(po: Seq<Piece>, w: u64, bl: u64) -> bool {
    &&& po.len() == 64
    &&& forall|s: int| 0 <= s < 64 ==> (#[trigger] po[s] == Piece::WP) == bit(w, s)
    &&& forall|s: int| 0 <= s < 64 ==> (#[trigger] po[s] == Piece::BP) == bit(bl, s)
}

pub open spec fn same_pawns(a: Seq<Piece>, b: Seq<Piece>) -> bool {
    &&& a.len() == 64
    &&& b.len() == 64
    &&& forall|s: int| 0 <= s < 64 ==> ((#[trigger] a[s] == Piece::WP) == (b[s] == Piece::WP))
    &&& forall|s: int| 0 <= s < 64 ==> ((#[trigger] a[s] == Piece::BP) == (b[s] == Piece::BP))
}

proof fn lemma_box_congruent(
    a: Seq<Piece>,
    b: Seq<Piece>,
    pawn: Piece,
    flo: int,
    fhi: int,
    rlo: int,
    rhi: int,
)
    requires
        same_pawns(a, b),
        pawn == Piece::WP || pawn == Piece::BP,
    ensures
        pawn_in_box(a, pawn, flo, fhi, rlo, rhi) == pawn_in_box(b, pawn, flo, fhi, rlo, rhi),
{
    if pawn_in_box(a, pawn, flo, fhi, rlo, rhi) {
        let s = choose|s: int|
            0 <= s < 64 && #[trigger] a[s] == pawn && flo <= s % 8 <= fhi && rlo <= s / 8 <= rhi;
        assert(b[s] == pawn);
    }
    if pawn_in_box(b, pawn, flo, fhi, rlo, rhi) {
        let s = choose|s: int|
            0 <= s < 64 && #[trigger] b[s] == pawn && flo <= s % 8 <= fhi && rlo <= s / 8 <= rhi;
        assert(a[s] == pawn);
    }
}

proof fn lemma_terms_congruent(a: Seq<Piece>, b: Seq<Piece>, sq: int, c: Color, mg: bool)
    requires
        same_pawns(a, b),
    ensures
        pawn_terms(a, sq, c, mg) == pawn_terms(b, sq, c, mg),
{
    let us = crate::types::make_piece(crate::types::PieceKind::Pawn, c);
    let them = crate::types::make_piece(crate::types::PieceKind::Pawn, crate::types::opposite(c));
    let f = sq % 8;
    let r = sq / 8;
    lemma_box_congruent(a, b, us, f - 1, f - 1, 0, 7);
    lemma_box_congruent(a, b, us, f + 1, f + 1, 0, 7);
    lemma_box_congruent(a, b, us, f, f, 0, r - 1);
    lemma_box_congruent(a, b, us, f, f, r + 1, 7);
    lemma_box_congruent(a, b, them, f - 1, f + 1, r + 1, 7);
    lemma_box_congruent(a, b, them, f - 1, f + 1, 0, r - 1);
    lemma_box_congruent(a, b, us, f - 1, f - 1, 0, r - 1);
    lemma_box_congruent(a, b, us, f + 1, f + 1, 0, r - 1);
    lemma_box_congruent(a, b, us, f - 1, f - 1, r + 1, 7);
    lemma_box_congruent(a, b, us, f + 1, f + 1, r + 1, 7);
    lemma_box_congruent(a, b, them, f - 1, f - 1, r + 2, r + 2);
    lemma_box_congruent(a, b, them, f + 1, f + 1, r + 2, r + 2);
    lemma_box_congruent(a, b, them, f - 1, f - 1, r - 2, r - 2);
    lemma_box_congruent(a, b, them, f + 1, f + 1, r - 2, r - 2);
}

/// The pawn-structure score depends on the pawns alone.
pub proof fn lemma_pawn_sum_congruent(a: Seq<Piece>, b: Seq<Piece>, n: int, mg: bool)
    requires
        same_pawns(a, b),
        n <= 64,
    ensures
        pawn_sum(a, n, mg) == pawn_sum(b, n, mg),
    decreases n,
{
    if n > 0 {
        lemma_pawn_sum_congruent(a, b, n - 1, mg);
        lemma_terms_congruent(a, b, n - 1, Color::White, mg);
        lemma_terms_congruent(a, b, n - 1, Color::Black, mg);
        assert((a[n - 1] == Piece::WP) == (b[n - 1] == Piece::WP));
        assert((a[n - 1] == Piece::BP) == (b[n - 1] == Piece::BP));
    }
}

/// A cached pawn-structure score for one placement of the pawns.
#[derive(Copy, Clone, Debug)]
pub struct PawnEntry {
    pub white: u64,
    pub black: u64,
    pub mg: i32,
    pub eg: i32,
    pub used: bool,
}

pub open spec fn entry_ok(e: PawnEntry) -> bool {
    e.used ==> forall|po: Seq<Piece>|
        #![trigger pawns_match(po, e.white, e.black)]
        pawns_match(po, e.white, e.black) ==> pawn_sum(po, 64, true) == e.mg && pawn_sum(
            po,
            64,
            false,
        ) == e.eg
}

/// Direct-mapped cache of pawn-structure scores keyed by both pawn sets.
pub struct PawnTable {
    pub entries: Vec<PawnEntry>,
    pub mask: usize,
}

impl PawnTable {
    pub open spec fn wf(&self) -> bool {
        &&& self.entries@.len() == self.mask + 1
        &&& self.mask < usize::MAX
        &&& forall|i: int| 0 <= i < self.entries@.len() ==> entry_ok(#[trigger] self.entries@[i])
    }

    /// A table of `2^bits` empty entries.
    pub fn with_bits(bits: u32) -> (r: PawnTable)
        requires
            bits <= 20,
        ensures
            r.wf(),
    {
        let mut n: usize = 1;
        let mut i: u32 = 0;
        while i < bits && n <= 0x8_0000
            invariant
                i <= bits <= 20,
                1 <= n <= 0x10_0000,
            decreases bits - i,
        {
            n = n * 2;
            i += 1;
        }
        let mut entries: Vec<PawnEntry> = Vec::new();
        let mut j: usize = 0;
        while j < n
            invariant
                j <= n,
                entries@.len() == j,
                forall|k: int| 0 <= k < entries@.len() ==> entry_ok(#[trigger] entries@[k]),
            decreases n - j,
        {
            entries.push(PawnEntry { white: 0, black: 0, mg: 0, eg: 0, used: false });
            j += 1;
        }
        PawnTable { entries, mask: n - 1 }
    }

    pub open spec fn slot_of(&self, white: u64, black: u64) -> int {
        (((white ^ (black >> 8u64)) as usize) & self.mask) as int
    }

    /// Slot of a pawn-set pair: the white set mixed with the black set
    /// shifted down a rank, masked to the table size.
    pub fn idx(&self, white: u64, black: u64) -> (r: usize)
        requires
            self.wf(),
        ensures
            r == self.slot_of(white, black),
            r < self.entries@.len(),
    {
        let k = (white ^ (black >> 8u64)) as usize;
        let m = self.mask;
        proof {
            assert(k & m <= m) by (bit_vector);
        }
        k & m
    }

    /// The cached (middlegame, endgame) score for these pawn sets, if held.
    pub fn probe(&self, white: u64, black: u64) -> (r: Option<(i32, i32)>)
        requires
            self.wf(),
        ensures
            match r {
                Some((mg, eg)) => forall|po: Seq<Piece>|
                    #![trigger pawns_match(po, white, black)]
                    pawns_match(po, white, black) ==> pawn_sum(po, 64, true) == mg && pawn_sum(
                        po,
                        64,
                        false,
                    ) == eg,
                None => true,
            },
            ({
                let e = self.entries@[self.slot_of(white, black)];
                r == if e.used && e.white == white && e.black == black {
                    Some((e.mg, e.eg))
                } else {
                    None
                }
            }),
    {
        let e = self.entries[self.idx(white, black)];
        if e.used && e.white == white && e.black == black {
            Some((e.mg, e.eg))
        } else {
            None
        }
    }

    pub fn store(&mut self, white: u64, black: u64, mg: i32, eg: i32)
        requires
            old(self).wf(),
            forall|po: Seq<Piece>|
                #![trigger pawns_match(po, white, black)]
                pawns_match(po, white, black) ==> pawn_sum(po, 64, true) == mg && pawn_sum(
                    po,
                    64,
                    false,
                ) == eg,
        ensures
            final(self).wf(),
            final(self).mask == old(self).mask,
            final(self).entries@ == old(self).entries@.update(
                old(self).slot_of(white, black),
                PawnEntry { white, black, mg, eg, used: true },
            ),
    {
        let i = self.idx(white, black);
        self.entries.set(i, PawnEntry { white, black, mg, eg, used: true });
        proof {
            assert forall|k: int| 0 <= k < self.entries@.len() implies entry_ok(
                #[trigger] self.entries@[k],
            ) by {
                if k != i {
                    assert(self.entries@[k] == old(self).entries@[k]);
                }
            }
        }
    }
}

/// The pawn sets of a well-formed board match its square array, and any
/// square array with those pawn sets has the board's pawn score.
pub proof fn lemma_board_pawns(b: Board)
    requires
        b.pieces_ok(),
    ensures
        pawns_match(b.piece_on@, b.piece_bb[1], b.piece_bb[7]),
        forall|po: Seq<Piece>|
            #![trigger pawns_match(po, b.piece_bb[1], b.piece_bb[7])]
            pawns_match(po, b.piece_bb[1], b.piece_bb[7]) ==> pawn_sum(po, 64, true) == pawn_sum(
                b.piece_on@,
                64,
                true,
            ) && pawn_sum(po, 64, false) == pawn_sum(b.piece_on@, 64, false),
{
    assert forall|s: int| 0 <= s < 64 implies (#[trigger] b.piece_on@[s] == Piece::WP) == bit(
        b.piece_bb[1],
        s,
    ) by {
        assert(bit(b.piece_bb[1], s) == (crate::types::piece_index(b.piece_on[s]) == 1));
    }
    assert forall|s: int| 0 <= s < 64 implies (#[trigger] b.piece_on@[s] == Piece::BP) == bit(
        b.piece_bb[7],
        s,
    ) by {
        assert(bit(b.piece_bb[7], s) == (crate::types::piece_index(b.piece_on[s]) == 7));
    }
    assert forall|po: Seq<Piece>|
        #![trigger pawns_match(po, b.piece_bb[1], b.piece_bb[7])]
        pawns_match(po, b.piece_bb[1], b.piece_bb[7]) implies pawn_sum(po, 64, true) == pawn_sum(
        b.piece_on@,
        64,
        true,
    ) && pawn_sum(po, 64, false) == pawn_sum(b.piece_on@, 64, false) by {
        assert(same_pawns(po, b.piece_on@));
        lemma_pawn_sum_congruent(po, b.piece_on@, 64, true);
        lemma_pawn_sum_congruent(po, b.piece_on@, 64, false);
    }
}

} // verus!
