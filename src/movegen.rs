use vstd::prelude::*;
use crate::bits::{bit, lemma_bit_or, lemma_bits_ext};
use crate::board::{attacked_by, piece_attacks, piece_attacks_exec, Board};
use crate::makemove::{applicable, ep_after, pieces_after};
use crate::movelist::{
    legal_list, lemma_pseudo_list_complete, lemma_pseudo_list_sound, lemma_safe_filter, safe_filter,
    cap_part, dbl_part, push_part, castle_move, castle_moves, from_moves, group_moves, king_home, last_rank,
    mv, pawn_capture_moves, pawn_dir, pawn_landing, pawn_moves, pseudo_list, start_rank,
    targets_upto,
};
use crate::types::{
    move_wf, opposite, piece_color, piece_kind, Color, Move, Piece, PieceKind, BK_CASTLE,
    BQ_CASTLE, WK_CASTLE, WQ_CASTLE,
};

verus! {

/// The conditions under which a castling move may be played: the right is
/// held, the king and rook stand on their homes, the squares between them are
/// empty, and neither the king's square nor the squares it crosses are
/// attacked.
pub open spec fn castle_conditions(b: Board, m: Move) -> bool {
    let po = b.piece_on@;
    let occ = b.all_pieces;
    if b.turn == Color::White {
        &&& m.from == 4
        &&& po[4] == Piece::WK
        &&& !attacked_by(po, occ, 4, Color::Black)
        &&& if m.to == 6 {
            &&& b.castle & WK_CASTLE != 0
            &&& po[5] == Piece::Empty && po[6] == Piece::Empty
            &&& po[7] == Piece::WR
            &&& !attacked_by(po, occ, 5, Color::Black)
            &&& !attacked_by(po, occ, 6, Color::Black)
        } else {
            &&& m.to == 2
            &&& b.castle & WQ_CASTLE != 0
            &&& po[1] == Piece::Empty && po[2] == Piece::Empty && po[3] == Piece::Empty
            &&& po[0] == Piece::WR
            &&& !attacked_by(po, occ, 3, Color::Black)
            &&& !attacked_by(po, occ, 2, Color::Black)
        }
    } else {
        &&& m.from == 60
        &&& po[60] == Piece::BK
        &&& !attacked_by(po, occ, 60, Color::White)
        &&& if m.to == 62 {
            &&& b.castle & BK_CASTLE != 0
            &&& po[61] == Piece::Empty && po[62] == Piece::Empty
            &&& po[63] == Piece::BR
            &&& !attacked_by(po, occ, 61, Color::White)
            &&& !attacked_by(po, occ, 62, Color::White)
        } else {
            &&& m.to == 58
            &&& b.castle & BQ_CASTLE != 0
            &&& po[57] == Piece::Empty && po[58] == Piece::Empty && po[59] == Piece::Empty
            &&& po[56] == Piece::BR
            &&& !attacked_by(po, occ, 59, Color::White)
            &&& !attacked_by(po, occ, 58, Color::White)
        }
    }
}

/// A pseudo-legal move of the side to move, as the generator emits it.
pub open spec fn pseudo_ok(b: Board, m: Move) -> bool {
    let po = b.piece_on@;
    let p = po[m.from as int];
    &&& move_wf(m)
    &&& applicable(po, b.turn, m)
    &&& m.en_passant ==> m.to == b.en_passant_sq && piece_kind(p) == Some(PieceKind::Pawn)
    &&& m.castle ==> castle_conditions(b, m)
    &&& m.promotion.is_some() ==> piece_kind(p) == Some(PieceKind::Pawn) && if b.turn
        == Color::White {
        m.to / 8 == 7
    } else {
        m.to / 8 == 0
    }
    &&& m.double_push ==> piece_kind(p) == Some(PieceKind::Pawn)
    &&& piece_kind(p) == Some(PieceKind::Pawn) ==> {
        &&& last_rank(b.turn, m.to as int) ==> m.promotion.is_some()
        &&& !m.capture ==> if m.double_push {
            &&& start_rank(b.turn, m.from as int)
            &&& m.to == m.from + 2 * pawn_dir(b.turn)
            &&& po[m.from + pawn_dir(b.turn)] == Piece::Empty
        } else {
            m.to == m.from + pawn_dir(b.turn)
        }
    }
    &&& (m.capture && piece_kind(p) == Some(PieceKind::Pawn)) ==> crate::attacks::pawn_reach(
        b.turn,
        m.from as int,
        m.to as int,
    )
    &&& (!m.castle && piece_kind(p) != Some(PieceKind::Pawn)) ==> piece_attacks(
        p,
        b.all_pieces,
        m.from as int,
        m.to as int,
    )
}

fn push_move(out: &mut Vec<Move>, from: usize, to: usize, capture: bool, ep: bool, dp: bool, castle: bool, promotion: Option<PieceKind>)
    requires
        from < 64,
        to < 64,
    ensures
        final(out)@ == old(out)@.push(mv(from as int, to as int, capture, ep, dp, castle, promotion)),
{
    out.push(
        Move {
            from: from as u8,
            to: to as u8,
            capture,
            en_passant: ep,
            double_push: dp,
            castle,
            promotion,
        },
    );
}

impl Board {
    /// A pawn move onto `to`: the four promotions on the last rank, else one move.
    fn push_landing(&self, out: &mut Vec<Move>, from: usize, to: usize, capture: bool)
        requires
            from < 64,
            to < 64,
        ensures
            final(out)@ == old(out)@ + pawn_landing(*self, from as int, to as int, capture),
    {
        let last = if self.turn == Color::White {
            to / 8 == 7
        } else {
            to / 8 == 0
        };
        if last {
            push_move(out, from, to, capture, false, false, false, Some(PieceKind::Queen));
            push_move(out, from, to, capture, false, false, false, Some(PieceKind::Rook));
            push_move(out, from, to, capture, false, false, false, Some(PieceKind::Bishop));
            push_move(out, from, to, capture, false, false, false, Some(PieceKind::Knight));
        } else {
            push_move(out, from, to, capture, false, false, false, None);
        }
        proof {
            assert(out@ =~= old(out)@ + pawn_landing(*self, from as int, to as int, capture));
        }
    }

    /// Captures (promoting or en passant) of the pawn on `from` onto `to`.
    fn pawn_capture_at(&self, out: &mut Vec<Move>, from: usize, to: usize)
        requires
            from < 64,
            to < 64,
        ensures
            final(out)@ == old(out)@ + pawn_capture_moves(*self, from as int, to as int),
    {
        let them = self.turn.other();
        if self.piece_on[to].color() == Some(them) {
            self.push_landing(out, from, to, true);
        } else if self.en_passant_sq == to as i32 && self.piece_on[to].is_empty() && !(if self.turn
            == Color::White {
            to / 8 == 7
        } else {
            to / 8 == 0
        }) {
            push_move(out, from, to, true, true, false, false, None);
            proof {
                assert(out@ =~= old(out)@ + pawn_capture_moves(*self, from as int, to as int));
            }
        } else {
            proof {
                assert(out@ =~= old(out)@ + pawn_capture_moves(*self, from as int, to as int));
            }
        }
    }

    fn gen_cap_part(&self, out: &mut Vec<Move>, from: usize, c: i64)
        requires
            from < 64,
        ensures
            final(out)@ == old(out)@ + cap_part(*self, from as int, c as int),
    {
        if 0 <= c && c < 64 && crate::attacks::diff(from % 8, (c as usize) % 8) == 1 {
            self.pawn_capture_at(out, from, c as usize);
        } else {
            proof {
                assert(out@ =~= old(out)@ + cap_part(*self, from as int, c as int));
            }
        }
    }

    fn gen_push_part(&self, out: &mut Vec<Move>, from: usize, fwd: usize)
        requires
            from < 64,
            fwd < 64,
        ensures
            final(out)@ == old(out)@ + push_part(*self, from as int, fwd as int),
    {
        if self.piece_on[fwd].is_empty() {
            self.push_landing(out, from, fwd, false);
        } else {
            proof {
                assert(out@ =~= old(out)@ + push_part(*self, from as int, fwd as int));
            }
        }
    }

    fn gen_dbl_part(&self, out: &mut Vec<Move>, from: usize, fwd: usize)
        requires
            from < 64,
            fwd < 64,
        ensures
            final(out)@ == old(out)@ + dbl_part(*self, from as int, fwd as int),
    {
        let white = self.turn == Color::White;
        let start = if white {
            from / 8 == 1
        } else {
            from / 8 == 6
        };
        let to2: i64 = if white {
            fwd as i64 + 8
        } else {
            fwd as i64 - 8
        };
        if start && self.piece_on[fwd].is_empty() && 0 <= to2 && to2 < 64
            && self.piece_on[to2 as usize].is_empty() {
            push_move(out, from, to2 as usize, false, false, true, false, None);
        }
        proof {
            assert(out@ =~= old(out)@ + dbl_part(*self, from as int, fwd as int));
        }
    }

    /// Every move of the pawn on `from`: first diagonal, push, second
    /// diagonal, double push.
    fn gen_pawn_from(&self, out: &mut Vec<Move>, from: usize)
        requires
            from < 64,
        ensures
            final(out)@ == old(out)@ + pawn_moves(*self, from as int),
    {
        let white = self.turn == Color::White;
        let fwd: i64 = if white {
            from as i64 + 8
        } else {
            from as i64 - 8
        };
        if fwd < 0 || fwd >= 64 {
            proof {
                assert(out@ =~= old(out)@ + pawn_moves(*self, from as int));
            }
            return ;
        }
        let c1: i64 = if white {
            fwd - 1
        } else {
            fwd + 1
        };
        let c2: i64 = if white {
            fwd + 1
        } else {
            fwd - 1
        };
        self.gen_cap_part(out, from, c1);
        self.gen_push_part(out, from, fwd as usize);
        self.gen_cap_part(out, from, c2);
        self.gen_dbl_part(out, from, fwd as usize);
        proof {
            assert(out@ =~= old(out)@ + pawn_moves(*self, from as int));
        }
    }

    /// Pawn pushes, double pushes, captures, en-passant captures and the
    /// four promotions of each promoting move, square by square.
    fn gen_pawns(&self, out: &mut Vec<Move>)
        ensures
            final(out)@ == old(out)@ + group_moves(*self, 0, 64),
    {
        let mut from: usize = 0;
        while from < 64
            invariant
                from <= 64,
                out@ == old(out)@ + group_moves(*self, 0, from as int),
            decreases 64 - from,
        {
            let ghost before = out@;
            let p = self.piece_on[from];
            if p.color() == Some(self.turn) && p.kind() == Some(PieceKind::Pawn) {
                self.gen_pawn_from(out, from);
            }
            proof {
                assert(group_moves(*self, 0, from as int + 1) == group_moves(*self, 0, from as int)
                    + from_moves(*self, 0, from as int));
                assert(out@ =~= old(out)@ + group_moves(*self, 0, from as int + 1));
            }
            from += 1;
        }
    }

    /// Moves of the piece on `from` to every square it attacks that does not
    /// hold a piece of its own side.
    fn gen_targets(&self, out: &mut Vec<Move>, from: usize)
        requires
            from < 64,
        ensures
            final(out)@ == old(out)@ + targets_upto(*self, from as int, 64),
    {
        let p = self.piece_on[from];
        let mut t: usize = 0;
        while t < 64
            invariant
                t <= 64,
                from < 64,
                p == self.piece_on@[from as int],
                out@ == old(out)@ + targets_upto(*self, from as int, t as int),
            decreases 64 - t,
        {
            let q = self.piece_on[t];
            let own = q.color() == Some(self.turn);
            if !own && piece_attacks_exec(p, self.all_pieces, from, t) {
                push_move(out, from, t, !q.is_empty(), false, false, false, None);
            }
            proof {
                assert(out@ =~= old(out)@ + targets_upto(*self, from as int, t as int + 1));
            }
            t += 1;
        }
    }

    /// Castling moves whose conditions all hold: queen side, then king side.
    fn gen_castles(&self, out: &mut Vec<Move>)
        ensures
            final(out)@ == old(out)@ + castle_moves(*self),
    {
        let white = self.turn == Color::White;
        let them = self.turn.other();
        let (k, king, rook): (usize, Piece, Piece) = if white {
            (4, Piece::WK, Piece::WR)
        } else {
            (60, Piece::BK, Piece::BR)
        };
        let (kbit, qbit): (u8, u8) = if white {
            (WK_CASTLE, WQ_CASTLE)
        } else {
            (BK_CASTLE, BQ_CASTLE)
        };
        let base = self.piece_on[k] == king && !self.is_square_attacked(k as i32, them);
        let q = base && self.castle & qbit != 0 && self.piece_on[k - 1].is_empty()
            && self.piece_on[k - 2].is_empty() && self.piece_on[k - 3].is_empty()
            && self.piece_on[k - 4] == rook && !self.is_square_attacked((k - 1) as i32, them)
            && !self.is_square_attacked((k - 2) as i32, them);
        let ks = base && self.castle & kbit != 0 && self.piece_on[k + 1].is_empty()
            && self.piece_on[k + 2].is_empty() && self.piece_on[k + 3] == rook
            && !self.is_square_attacked((k + 1) as i32, them) && !self.is_square_attacked(
            (k + 2) as i32,
            them,
        );
        proof {
            assert(q == castle_conditions(*self, castle_move(k as int, k - 2)));
            assert(ks == castle_conditions(*self, castle_move(k as int, k + 2)));
        }
        if q {
            push_move(out, k, k - 2, false, false, false, true, None);
        }
        if ks {
            push_move(out, k, k + 2, false, false, false, true, None);
        }
        proof {
            assert(out@ =~= old(out)@ + castle_moves(*self));
        }
    }

    /// Knight and king moves, with castling after the king's other moves.
    fn gen_leapers(&self, out: &mut Vec<Move>)
        ensures
            final(out)@ == old(out)@ + group_moves(*self, 1, 64),
    {
        let home: usize = if self.turn == Color::White {
            4
        } else {
            60
        };
        let mut from: usize = 0;
        while from < 64
            invariant
                from <= 64,
                home == king_home(self.turn),
                out@ == old(out)@ + group_moves(*self, 1, from as int),
            decreases 64 - from,
        {
            let ghost before = out@;
            let p = self.piece_on[from];
            if p.color() == Some(self.turn) {
                if p.kind() == Some(PieceKind::Knight) {
                    self.gen_targets(out, from);
                } else if p.kind() == Some(PieceKind::King) {
                    self.gen_targets(out, from);
                    if from == home {
                        self.gen_castles(out);
                    }
                }
            }
            proof {
                assert(group_moves(*self, 1, from as int + 1) == group_moves(*self, 1, from as int)
                    + from_moves(*self, 1, from as int));
                assert(out@ =~= old(out)@ + group_moves(*self, 1, from as int + 1));
            }
            from += 1;
        }
    }

    /// Bishop, rook and queen moves.
    fn gen_sliders(&self, out: &mut Vec<Move>)
        ensures
            final(out)@ == old(out)@ + group_moves(*self, 2, 64),
    {
        let mut from: usize = 0;
        while from < 64
            invariant
                from <= 64,
                out@ == old(out)@ + group_moves(*self, 2, from as int),
            decreases 64 - from,
        {
            let p = self.piece_on[from];
            if p.color() == Some(self.turn) && (p.kind() == Some(PieceKind::Bishop) || p.kind()
                == Some(PieceKind::Rook) || p.kind() == Some(PieceKind::Queen)) {
                self.gen_targets(out, from);
            }
            proof {
                assert(group_moves(*self, 2, from as int + 1) == group_moves(*self, 2, from as int)
                    + from_moves(*self, 2, from as int));
                assert(out@ =~= old(out)@ + group_moves(*self, 2, from as int + 1));
            }
            from += 1;
        }
    }

    /// All pseudo-legal moves of the side to move, replacing `out`'s contents.
    pub fn generate_pseudo_legal_moves(&self, out: &mut Vec<Move>)
        requires
            self.wf(),
        ensures
            final(out)@ == pseudo_list(*self),
            forall|m: Move| #[trigger] final(out)@.contains(m) <==> pseudo_ok(*self, m),
            final(out)@.no_duplicates(),
    {
        out.clear();
        self.gen_pawns(out);
        self.gen_leapers(out);
        self.gen_sliders(out);
        proof {
            assert(out@ =~= pseudo_list(*self));
            lemma_pseudo_list_sound(*self);
            assert forall|m: Move| #[trigger] out@.contains(m) <==> pseudo_ok(*self, m) by {
                if pseudo_ok(*self, m) {
                    lemma_pseudo_list_complete(*self, m);
                }
                if out@.contains(m) {
                    let j = choose|j: int| 0 <= j < out@.len() && out@[j] == m;
                    assert(pseudo_ok(*self, out@[j]));
                }
            }
        }
    }
}

/// `occ` is the occupancy of the square array `po`.
pub open spec fn occ_matches(occ: u64, po: Seq<Piece>) -> bool {
    forall|s: int| 0 <= s < 64 ==> #[trigger] bit(occ, s) == (po[s] != Piece::Empty)
}

/// The first square holding the king of color `c` (64 when there is none).
pub open spec fn king_at(po: Seq<Piece>, c: Color) -> int {
    crate::eval::first_square_of(po, crate::types::make_piece(PieceKind::King, c), 0)
}

/// The king of color `c` stands (first found) on a square that color `by`
/// does not attack, under the occupancy of `po`.
pub open spec fn king_safe_in(po: Seq<Piece>, c: Color) -> bool {
    let k = king_at(po, c);
    k < 64 && forall|occ: u64|
        #![trigger attacked_by(po, occ, k, opposite(c))]
        occ_matches(occ, po) ==> !attacked_by(po, occ, k, opposite(c))
}

/// After the move, the mover's king stands on a square the opponent does not
/// attack.
pub open spec fn king_safe_after(b: Board, m: Move) -> bool {
    king_safe_in(pieces_after(b.piece_on@, b.turn, m), b.turn)
}

/// The side to move's king (first found) is attacked.
pub open spec fn in_check_spec(b: Board) -> bool {
    king_at(b.piece_on@, b.turn) < 64 && attacked_by(
        b.piece_on@,
        b.all_pieces,
        king_at(b.piece_on@, b.turn),
        opposite(b.turn),
    )
}

pub open spec fn legal_ok(b: Board, m: Move) -> bool {
    pseudo_ok(b, m) && king_safe_after(b, m)
}

pub open spec fn all_legal_ok(b: Board, v: Seq<Move>) -> bool {
    forall|i: int| 0 <= i < v.len() ==> legal_ok(b, #[trigger] v[i])
}

proof fn lemma_occ(b: Board)
    requires
        b.pieces_ok(),
    ensures
        occ_matches(b.all_pieces, b.piece_on@),
        forall|occ: u64| occ_matches(occ, b.piece_on@) ==> occ == b.all_pieces,
{
    lemma_bit_or(b.w_pieces, b.b_pieces);
    assert forall|s: int| 0 <= s < 64 implies #[trigger] bit(b.all_pieces, s) == (b.piece_on@[s]
        != Piece::Empty) by {
        assert(bit(b.w_pieces, s) == (piece_color(b.piece_on[s]) == Some(Color::White)));
        assert(bit(b.b_pieces, s) == (piece_color(b.piece_on[s]) == Some(Color::Black)));
    }
    assert forall|occ: u64| occ_matches(occ, b.piece_on@) implies occ == b.all_pieces by {
        assert forall|s: int| 0 <= s < 64 implies #[trigger] bit(occ, s) == bit(
            b.all_pieces,
            s,
        ) by {
            assert(bit(occ, s) == (b.piece_on@[s] != Piece::Empty));
        }
        lemma_bits_ext(occ, b.all_pieces);
    }
}

impl Board {
    /// The square of the king of color `c`, if there is one.
    pub fn king_square(&self, c: Color) -> (r: Option<usize>)
        ensures
            match r {
                Some(k) => k < 64 && k == king_at(self.piece_on@, c),
                None => king_at(self.piece_on@, c) == 64,
            },
    {
        let king = Piece::from_kind(PieceKind::King, c);
        let mut k: usize = 0;
        while k < 64
            invariant
                k <= 64,
                king == crate::types::make_piece(PieceKind::King, c),
                king_at(self.piece_on@, c) == crate::eval::first_square_of(self.piece_on@, king, k as int),
            decreases 64 - k,
        {
            if self.piece_on[k] == king {
                return Some(k);
            }
            k += 1;
        }
        None
    }

    /// The king of color `us` stands on a square the other side does not attack.
    fn king_safe_now(&self, us: Color) -> (r: bool)
        requires
            self.wf(),
            self.turn == opposite(us),
        ensures
            r == king_safe_in(self.piece_on@, us),
    {
        proof {
            lemma_occ(*self);
        }
        match self.king_square(us) {
            Some(k) => {
                let safe = !self.is_square_attacked(k as i32, self.turn);
                proof {
                    if safe {
                        assert forall|occ: u64| occ_matches(occ, self.piece_on@) implies !attacked_by(
                            self.piece_on@,
                            occ,
                            k as int,
                            opposite(us),
                        ) by {
                            assert(occ == self.all_pieces);
                        }
                    } else {
                        assert(occ_matches(self.all_pieces, self.piece_on@));
                    }
                }
                safe
            },
            None => false,
        }
    }

    /// Plays `m`, tests whether the mover's king is left attacked, and takes
    /// the move back.
    #[verifier::rlimit(80)]
    fn leaves_king_safe(&mut self, m: Move) -> (r: bool)
        requires
            old(self).wf(),
            old(self).halfmove_clock < 0x7fff_ffff,
            old(self).fullmove_number < 0x7fff_ffff,
            applicable(old(self).piece_on@, old(self).turn, m),
        ensures
            final(self).wf(),
            final(self).zob == old(self).zob,
            final(self).piece_on == old(self).piece_on,
            final(self).piece_bb == old(self).piece_bb,
            final(self).w_pieces == old(self).w_pieces,
            final(self).b_pieces == old(self).b_pieces,
            final(self).all_pieces == old(self).all_pieces,
            final(self).turn == old(self).turn,
            final(self).castle == old(self).castle,
            final(self).en_passant_sq == old(self).en_passant_sq,
            final(self).halfmove_clock == old(self).halfmove_clock,
            final(self).fullmove_number == old(self).fullmove_number,
            final(self).zobrist == old(self).zobrist,
            final(self).history@ == old(self).history@,
            r == king_safe_after(*old(self), m),
    {
        let ghost b0 = *self;
        let mover = self.turn;
        let u = self.make_move(m);
        let ghost after = *self;
        let safe = self.king_safe_now(mover);
        self.unmake_move(m, u);
        proof {
            crate::makemove::lemma_apply_undo(b0, m, u, after, *self);
        }
        safe
    }

    /// The pseudo-legal moves that do not leave the mover's king attacked,
    /// in generation order, replacing `out`'s contents.
    pub fn generate_legal_moves(&mut self, out: &mut Vec<Move>)
        requires
            old(self).wf(),
            old(self).halfmove_clock < 0x7fff_ffff,
            old(self).fullmove_number < 0x7fff_ffff,
        ensures
            final(self).wf(),
            final(self).piece_on == old(self).piece_on,
            final(self).piece_bb == old(self).piece_bb,
            final(self).w_pieces == old(self).w_pieces,
            final(self).b_pieces == old(self).b_pieces,
            final(self).all_pieces == old(self).all_pieces,
            final(self).turn == old(self).turn,
            final(self).castle == old(self).castle,
            final(self).en_passant_sq == old(self).en_passant_sq,
            final(self).halfmove_clock == old(self).halfmove_clock,
            final(self).fullmove_number == old(self).fullmove_number,
            final(self).zobrist == old(self).zobrist,
            final(self).history@ == old(self).history@,
            final(self).zob == old(self).zob,
            final(out)@ == legal_list(*old(self)),
            forall|m: Move| #[trigger] final(out)@.contains(m) <==> legal_ok(*old(self), m),
            final(out)@.no_duplicates(),
            all_legal_ok(*old(self), final(out)@),
    {
        let ghost before = *self;
        let mut pseudo: Vec<Move> = Vec::new();
        self.generate_pseudo_legal_moves(&mut pseudo);
        proof {
            lemma_pseudo_list_sound(before);
        }
        out.clear();
        let mut i: usize = 0;
        while i < pseudo.len()
            invariant
                i <= pseudo@.len(),
                pseudo@ == pseudo_list(before),
                self.wf(),
                self.zob == before.zob,
                self.piece_on == before.piece_on,
                self.piece_bb == before.piece_bb,
                self.w_pieces == before.w_pieces,
                self.b_pieces == before.b_pieces,
                self.all_pieces == before.all_pieces,
                self.turn == before.turn,
                self.castle == before.castle,
                self.en_passant_sq == before.en_passant_sq,
                self.halfmove_clock == before.halfmove_clock,
                self.fullmove_number == before.fullmove_number,
                self.zobrist == before.zobrist,
                self.history@ == before.history@,
                before.halfmove_clock < 0x7fff_ffff,
                before.fullmove_number < 0x7fff_ffff,
                forall|j: int| 0 <= j < pseudo@.len() ==> pseudo_ok(before, #[trigger] pseudo@[j]),
                out@ == safe_filter(before, pseudo@.take(i as int)),
            decreases pseudo@.len() - i,
        {
            let m = pseudo[i];
            proof {
                assert(pseudo_ok(before, pseudo@[i as int]));
                assert(applicable(self.piece_on@, self.turn, m));
            }
            let safe = self.leaves_king_safe(m);
            if safe {
                out.push(m);
            }
            proof {
                let t = pseudo@.take(i as int + 1);
                assert(t.drop_last() =~= pseudo@.take(i as int));
                assert(t.last() == m);
                assert(out@ =~= safe_filter(before, t));
            }
            i += 1;
        }
        proof {
            assert(pseudo@.take(pseudo@.len() as int) =~= pseudo@);
            lemma_safe_filter(before, pseudo@);
            assert forall|m: Move| #[trigger] out@.contains(m) <==> legal_ok(before, m) by {
                if pseudo_ok(before, m) {
                    lemma_pseudo_list_complete(before, m);
                }
                if pseudo@.contains(m) {
                    let j = choose|j: int| 0 <= j < pseudo@.len() && pseudo@[j] == m;
                    assert(pseudo_ok(before, pseudo@[j]));
                }
            }
            assert forall|j: int| 0 <= j < out@.len() implies legal_ok(before, #[trigger] out@[j]) by {
                assert(out@.contains(out@[j]));
            }
        }
    }
}

impl Board {
    /// The side to move's king is attacked.
    pub fn in_check(&self) -> (r: bool)
        requires
            self.wf(),
        ensures
            r == (king_at(self.piece_on@, self.turn) < 64 && attacked_by(
                self.piece_on@,
                self.all_pieces,
                king_at(self.piece_on@, self.turn),
                opposite(self.turn),
            )),
    {
        match self.king_square(self.turn) {
            Some(k) => self.is_square_attacked(k as i32, self.turn.other()),
            None => false,
        }
    }
}

/// Every square holds a piece iff the aggregate occupancy has it, and the
/// aggregate is the union of the two color sets and of the twelve piece
/// bitboards.
pub proof fn lemma_occupancy_union(b: Board)
    requires
        b.pieces_ok(),
    ensures
        b.all_pieces == b.w_pieces | b.b_pieces,
        forall|s: int|
            0 <= s < 64 ==> (#[trigger] bit(b.all_pieces, s) <==> exists|i: int|
                1 <= i < 13 && bit(b.piece_bb[i], s)),
        occ_matches(b.all_pieces, b.piece_on@),
{
    lemma_occ(b);
    assert forall|s: int| 0 <= s < 64 implies (#[trigger] bit(b.all_pieces, s) <==> exists|i: int|
        1 <= i < 13 && bit(b.piece_bb[i], s)) by {
        if bit(b.all_pieces, s) {
            let i = crate::types::piece_index(b.piece_on@[s]);
            assert(bit(b.piece_bb[i], s));
        }
        if exists|i: int| 1 <= i < 13 && bit(b.piece_bb[i], s) {
            let i = choose|i: int| 1 <= i < 13 && bit(b.piece_bb[i], s);
            assert(b.piece_on@[s] != Piece::Empty);
        }
    }
}

/// The capture of the piece on `t` by the piece on `u`, promoting to a
/// queen where a pawn reaches the last rank.
pub open spec fn capture_move(b: Board, u: int, t: int) -> Move {
    let last = if b.turn == Color::White {
        t / 8 == 7
    } else {
        t / 8 == 0
    };
    Move {
        from: u as u8,
        to: t as u8,
        capture: true,
        en_passant: false,
        double_push: false,
        castle: false,
        promotion: if piece_kind(b.piece_on@[u]) == Some(PieceKind::Pawn) && last {
            Some(PieceKind::Queen)
        } else {
            None
        },
    }
}

/// A square holding an enemy piece is attacked by the side to move exactly
/// when the side to move has a pseudo-legal capture (not en passant,
/// not castling) landing on it.
pub proof fn lemma_attack_capture_symmetry(b: Board, t: int)
    requires
        b.wf(),
        0 <= t < 64,
        piece_color(b.piece_on@[t]) == Some(opposite(b.turn)),
    ensures
        attacked_by(b.piece_on@, b.all_pieces, t, b.turn) <==> exists|m: Move|
            #![trigger pseudo_ok(b, m)]
            pseudo_ok(b, m) && m.capture && !m.en_passant && m.to == t,
{
    if attacked_by(b.piece_on@, b.all_pieces, t, b.turn) {
        let u = choose|u: int|
            0 <= u < 64 && piece_color(#[trigger] b.piece_on@[u]) == Some(b.turn)
                && piece_attacks(b.piece_on@[u], b.all_pieces, u, t);
        let m = capture_move(b, u, t);
        assert(m.from as int == u && m.to as int == t);
        assert(pseudo_ok(b, m));
    }
    if exists|m: Move|
        #![trigger pseudo_ok(b, m)]
        pseudo_ok(b, m) && m.capture && !m.en_passant && m.to == t {
        let m = choose|m: Move|
            #![trigger pseudo_ok(b, m)]
            pseudo_ok(b, m) && m.capture && !m.en_passant && m.to == t;
        let u = m.from as int;
        assert(piece_color(b.piece_on@[u]) == Some(b.turn));
        assert(piece_attacks(b.piece_on@[u], b.all_pieces, u, t));
    }
}

/// The hash a well-formed position carries is the hash recomputed from its
/// pieces, castle rights, en-passant square and side to move; `make_move`,
/// `unmake_move` and the null-move pair all return well-formed positions.
pub proof fn lemma_hash_is_recomputed(b: Board)
    requires
        b.wf(),
    ensures
        b.zobrist == crate::board::position_hash(b.piece_on@, b.castle, b.en_passant_sq, b.turn),
{
}

/// En passant lives for one ply: only a double push sets a target square,
/// and a generated en-passant capture lands on the current target.
pub proof fn lemma_en_passant_window(b: Board, m: Move, n: Move)
    ensures
        !n.double_push ==> ep_after(b.turn, n) == crate::types::NO_SQ,
        pseudo_ok(b, m) && m.en_passant ==> m.to == b.en_passant_sq && b.en_passant_sq
            != crate::types::NO_SQ,
{
}

} // verus!
