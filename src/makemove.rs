use vstd::prelude::*;
use crate::bits::lemma_bits_ext;
use crate::board::{lemma_xor_facts, Board};
use crate::types::{
    make_piece, opposite, piece_color, piece_kind, Color, Move, Piece, PieceKind, Undo,
    BK_CASTLE, BQ_CASTLE, NO_SQ, WK_CASTLE, WQ_CASTLE,
};
use crate::zobrist::{castle_key, ep_key, side_key};

verus! {

/// The square of the piece a capture removes.
pub open spec fn capture_square(m: Move, turn: Color) -> int {
    if m.en_passant {
        if turn == Color::White {
            m.to - 8
        } else {
            m.to + 8
        }
    } else {
        m.to as int
    }
}

/// Rook origin and destination of a castling king move.
pub open spec fn rook_from(m: Move) -> int {
    if m.to > m.from {
        m.to + 1
    } else {
        m.to - 2
    }
}

pub open spec fn rook_to(m: Move) -> int {
    if m.to > m.from {
        m.to - 1
    } else {
        m.to + 1
    }
}

pub open spec fn in_range(s: int) -> bool {
    0 <= s < 64
}

/// Square array after the moving piece left and the captured piece went.
pub open spec fn pieces_lifted(po: Seq<Piece>, turn: Color, m: Move) -> Seq<Piece> {
    let p1 = po.update(m.from as int, Piece::Empty);
    let cs = capture_square(m, turn);
    if m.capture && in_range(cs) {
        p1.update(cs, Piece::Empty)
    } else {
        p1
    }
}

/// The piece that a capture takes (Empty when none).
pub open spec fn captured_of(po: Seq<Piece>, turn: Color, m: Move) -> Piece {
    let cs = capture_square(m, turn);
    if m.capture && in_range(cs) {
        po.update(m.from as int, Piece::Empty)[cs]
    } else {
        Piece::Empty
    }
}

/// The piece that arrives on the destination.
pub open spec fn arriving(po: Seq<Piece>, turn: Color, m: Move) -> Piece {
    match m.promotion {
        Some(k) => make_piece(k, turn),
        None => po[m.from as int],
    }
}

/// Square array after a move.
#[verifier::opaque]
pub open spec fn pieces_after(po: Seq<Piece>, turn: Color, m: Move) -> Seq<Piece> {
    let p3 = pieces_lifted(po, turn, m).update(m.to as int, arriving(po, turn, m));
    let rf = rook_from(m);
    let rt = rook_to(m);
    if m.castle && in_range(rf) && in_range(rt) && p3[rf] != Piece::Empty && p3[rt]
        == Piece::Empty {
        p3.update(rf, Piece::Empty).update(rt, p3[rf])
    } else {
        p3
    }
}

pub open spec fn clear_corner(c: u8, sq: int) -> u8 {
    if sq == 0 {
        c & !WQ_CASTLE
    } else if sq == 7 {
        c & !WK_CASTLE
    } else if sq == 56 {
        c & !BQ_CASTLE
    } else if sq == 63 {
        c & !BK_CASTLE
    } else {
        c
    }
}

/// Castle rights after a move: a king move drops both of its side's rights,
/// and a move from or a capture on a rook's home corner drops that right.
pub open spec fn rights_after(c: u8, moving: Piece, m: Move) -> u8 {
    let c1 = if moving == Piece::WK {
        c & !(WK_CASTLE | WQ_CASTLE)
    } else if moving == Piece::BK {
        c & !(BK_CASTLE | BQ_CASTLE)
    } else {
        c
    };
    let c2 = clear_corner(c1, m.from as int);
    if m.capture {
        clear_corner(c2, m.to as int)
    } else {
        c2
    }
}

/// The en-passant target after a move: the square a double push passed.
pub open spec fn ep_after(turn: Color, m: Move) -> i32 {
    let e = if turn == Color::White {
        m.from + 8
    } else {
        m.from - 8
    };
    if m.double_push && in_range(e) {
        e as i32
    } else {
        NO_SQ
    }
}

/// Halfmove clock after a move: reset by a pawn move or a capture.
pub open spec fn halfmove_after(h: i32, moving: Piece, m: Move) -> i32 {
    if piece_kind(moving) == Some(PieceKind::Pawn) || m.capture {
        0
    } else {
        (h + 1) as i32
    }
}

/// Square array after taking a move back, with `turn` the side that made it.
#[verifier::opaque]
pub open spec fn pieces_undone(po: Seq<Piece>, m: Move, u: Undo, turn: Color) -> Seq<Piece> {
    let arrived = po[m.to as int];
    let mover = if m.promotion.is_some() {
        make_piece(PieceKind::Pawn, turn)
    } else {
        arrived
    };
    let q1 = po.update(m.to as int, Piece::Empty).update(m.from as int, mover);
    let cs = capture_square(m, turn);
    let q2 = if m.capture && in_range(cs) {
        q1.update(cs, u.captured_piece)
    } else {
        q1
    };
    let rf = rook_from(m);
    let rt = rook_to(m);
    if m.castle && in_range(rf) && in_range(rt) && q2[rt] != Piece::Empty && q2[rf]
        == Piece::Empty {
        q2.update(rt, Piece::Empty).update(rf, q2[rt])
    } else {
        q2
    }
}

/// The move is shaped as the generator makes it for this position.
pub open spec fn applicable(po: Seq<Piece>, turn: Color, m: Move) -> bool {
    let cs = capture_square(m, turn);
    let rf = rook_from(m);
    let rt = rook_to(m);
    &&& po.len() == 64
    &&& m.from < 64
    &&& m.to < 64
    &&& m.from != m.to
    &&& piece_color(po[m.from as int]) == Some(turn)
    &&& !m.capture ==> po[m.to as int] == Piece::Empty
    &&& m.capture && !m.en_passant ==> piece_color(po[m.to as int]) == Some(opposite(turn))
    &&& m.en_passant ==> m.capture && in_range(cs) && cs != m.from && po[m.to as int]
        == Piece::Empty
    &&& m.promotion.is_some() ==> po[m.from as int] == make_piece(PieceKind::Pawn, turn)
    &&& m.castle ==> {
        &&& !m.capture
        &&& m.promotion.is_none()
        &&& in_range(rf)
        &&& in_range(rt)
        &&& rf != m.from && rf != m.to as int
        &&& rt != m.from && rt != m.to as int
        &&& po[rf] != Piece::Empty
        &&& po[rt] == Piece::Empty
    }
}

/// Taking back a move restores the square array that the move was made on.
pub proof fn lemma_apply_undo_pieces(po: Seq<Piece>, turn: Color, m: Move)
    requires
        applicable(po, turn, m),
    ensures
        pieces_undone(
            pieces_after(po, turn, m),
            m,
            Undo {
                captured_piece: captured_of(po, turn, m),
                old_castle: 0,
                old_en_passant_sq: 0,
                old_halfmove_clock: 0,
            },
            turn,
        ) =~= po,
{
    reveal(pieces_after);
    reveal(pieces_undone);
    let after = pieces_after(po, turn, m);
    if m.promotion.is_some() {
        assert(arriving(po, turn, m) == make_piece(m.promotion.unwrap(), turn));
    }
}

proof fn lemma_mask_small(c: u8, k: u8)
    requires
        c < 16,
    ensures
        c & k < 16,
{
    assert(c & k < 16) by (bit_vector)
        requires
            c < 16,
    ;
}

impl Board {
    fn set_castle(&mut self, c: u8)
        requires
            old(self).hash_ok(),
            c < 16,
        ensures
            final(self).hash_ok(),
            final(self).castle == c,
            final(self).piece_on == old(self).piece_on,
            final(self).piece_bb == old(self).piece_bb,
            final(self).w_pieces == old(self).w_pieces,
            final(self).b_pieces == old(self).b_pieces,
            final(self).all_pieces == old(self).all_pieces,
            final(self).turn == old(self).turn,
            final(self).en_passant_sq == old(self).en_passant_sq,
            final(self).halfmove_clock == old(self).halfmove_clock,
            final(self).fullmove_number == old(self).fullmove_number,
            final(self).history == old(self).history,
            final(self).zob == old(self).zob,
    {
        let k = self.zob.castle_key(self.castle) ^ self.zob.castle_key(c);
        proof {
            lemma_xor_facts(
                crate::board::pieces_hash(self.piece_on@, 64),
                castle_key(self.castle as int),
                ep_key(self.en_passant_sq as int),
                side_key(self.turn),
                k,
            );
            lemma_xor_facts(
                crate::board::pieces_hash(self.piece_on@, 64),
                castle_key(self.castle as int),
                0,
                0,
                castle_key(c as int),
            );
            let a = castle_key(self.castle as int);
            let b = castle_key(c as int);
            assert(a ^ (a ^ b) == b) by (bit_vector);
        }
        self.zobrist = self.zobrist ^ k;
        self.castle = c;
    }

    fn set_ep(&mut self, e: i32)
        requires
            old(self).hash_ok(),
            e == NO_SQ || 0 <= e < 64,
        ensures
            final(self).hash_ok(),
            final(self).en_passant_sq == e,
            final(self).piece_on == old(self).piece_on,
            final(self).piece_bb == old(self).piece_bb,
            final(self).w_pieces == old(self).w_pieces,
            final(self).b_pieces == old(self).b_pieces,
            final(self).all_pieces == old(self).all_pieces,
            final(self).turn == old(self).turn,
            final(self).castle == old(self).castle,
            final(self).halfmove_clock == old(self).halfmove_clock,
            final(self).fullmove_number == old(self).fullmove_number,
            final(self).history == old(self).history,
            final(self).zob == old(self).zob,
    {
        let k = self.zob.ep_key(self.en_passant_sq) ^ self.zob.ep_key(e);
        proof {
            lemma_xor_facts(
                crate::board::pieces_hash(self.piece_on@, 64),
                castle_key(self.castle as int),
                ep_key(self.en_passant_sq as int),
                side_key(self.turn),
                k,
            );
            let a = ep_key(self.en_passant_sq as int);
            let b = ep_key(e as int);
            assert(a ^ (a ^ b) == b) by (bit_vector);
        }
        self.zobrist = self.zobrist ^ k;
        self.en_passant_sq = e;
    }

    fn flip_turn(&mut self)
        requires
            old(self).hash_ok(),
        ensures
            final(self).hash_ok(),
            final(self).turn == opposite(old(self).turn),
            final(self).en_passant_sq == old(self).en_passant_sq,
            final(self).piece_on == old(self).piece_on,
            final(self).piece_bb == old(self).piece_bb,
            final(self).w_pieces == old(self).w_pieces,
            final(self).b_pieces == old(self).b_pieces,
            final(self).all_pieces == old(self).all_pieces,
            final(self).castle == old(self).castle,
            final(self).halfmove_clock == old(self).halfmove_clock,
            final(self).fullmove_number == old(self).fullmove_number,
            final(self).history == old(self).history,
            final(self).zob == old(self).zob,
    {
        let k = self.zob.side;
        proof {
            lemma_xor_facts(
                crate::board::pieces_hash(self.piece_on@, 64),
                castle_key(self.castle as int),
                ep_key(self.en_passant_sq as int),
                side_key(self.turn),
                k,
            );
            let a = side_key(self.turn);
            assert(a ^ k == if a == 0 { k } else { 0 }) by (bit_vector)
                requires
                    a == 0 || a == k,
            ;
        }
        self.zobrist = self.zobrist ^ k;
        self.turn = self.turn.other();
    }
}

fn clear_corner_exec(c: u8, sq: usize) -> (r: u8)
    ensures
        r == clear_corner(c, sq as int),
{
    if sq == 0 {
        c & !WQ_CASTLE
    } else if sq == 7 {
        c & !WK_CASTLE
    } else if sq == 56 {
        c & !BQ_CASTLE
    } else if sq == 63 {
        c & !BK_CASTLE
    } else {
        c
    }
}

fn rights_exec(c: u8, moving: Piece, m: Move) -> (r: u8)
    requires
        c < 16,
    ensures
        r == rights_after(c, moving, m),
        r < 16,
{
    let mut c1 = c;
    if moving == Piece::WK {
        c1 = c & !(WK_CASTLE | WQ_CASTLE);
    } else if moving == Piece::BK {
        c1 = c & !(BK_CASTLE | BQ_CASTLE);
    }
    proof {
        lemma_mask_small(c, !(WK_CASTLE | WQ_CASTLE));
        lemma_mask_small(c, !(BK_CASTLE | BQ_CASTLE));
        lemma_mask_small(c1, !WQ_CASTLE);
        lemma_mask_small(c1, !WK_CASTLE);
        lemma_mask_small(c1, !BQ_CASTLE);
        lemma_mask_small(c1, !BK_CASTLE);
    }
    let c2 = clear_corner_exec(c1, m.from as usize);
    proof {
        lemma_mask_small(c2, !WQ_CASTLE);
        lemma_mask_small(c2, !WK_CASTLE);
        lemma_mask_small(c2, !BQ_CASTLE);
        lemma_mask_small(c2, !BK_CASTLE);
    }
    if m.capture {
        clear_corner_exec(c2, m.to as usize)
    } else {
        c2
    }
}

impl Board {
    /// The square-array part of a move: lift, capture, place, and move the
    /// castling rook.
    #[verifier::rlimit(80)]
    fn move_pieces(&mut self, m: Move) -> (r: (Piece, Piece))
        requires
            old(self).pieces_ok(),
            old(self).hash_ok(),
            m.from < 64,
            m.to < 64,
        ensures
            final(self).pieces_ok(),
            final(self).hash_ok(),
            r.0 == old(self).piece_on[m.from as int],
            r.1 == captured_of(old(self).piece_on@, old(self).turn, m),
            final(self).piece_on@ == pieces_after(old(self).piece_on@, old(self).turn, m),
            final(self).turn == old(self).turn,
            final(self).castle == old(self).castle,
            final(self).en_passant_sq == old(self).en_passant_sq,
            final(self).halfmove_clock == old(self).halfmove_clock,
            final(self).fullmove_number == old(self).fullmove_number,
            final(self).history == old(self).history,
            final(self).zob == old(self).zob,
    {
        let ghost po = self.piece_on@;
        let turn = self.turn;
        let from = m.from as usize;
        let to = m.to as usize;
        let moving = self.remove_at(from);
        let mut captured = Piece::Empty;
        if m.capture {
            let cs: i64 = if m.en_passant {
                if turn == Color::White {
                    to as i64 - 8
                } else {
                    to as i64 + 8
                }
            } else {
                to as i64
            };
            if 0 <= cs && cs < 64 {
                captured = self.remove_at(cs as usize);
            }
        }
        proof {
            assert(self.piece_on@ =~= pieces_lifted(po, turn, m));
        }
        let placed = match m.promotion {
            Some(pk) => Piece::from_kind(pk, turn),
            None => moving,
        };
        self.remove_at(to);
        self.put_at(to, placed);
        let ghost p3 = pieces_lifted(po, turn, m).update(m.to as int, arriving(po, turn, m));
        proof {
            assert(self.piece_on@ =~= p3);
        }
        if m.castle {
            let (rf, rt): (i64, i64) = if to > from {
                (to as i64 + 1, to as i64 - 1)
            } else {
                (to as i64 - 2, to as i64 + 1)
            };
            if 0 <= rf && rf < 64 && 0 <= rt && rt < 64 {
                if !self.piece_on[rf as usize].is_empty() && self.piece_on[rt as usize].is_empty() {
                    let rook = self.remove_at(rf as usize);
                    self.put_at(rt as usize, rook);
                }
            }
        }
        proof {
            reveal(pieces_after);
            assert(self.piece_on@ =~= pieces_after(po, turn, m));
        }
        (moving, captured)
    }

    /// Applies a move and returns what is needed to take it back.
    pub fn make_move(&mut self, m: Move) -> (u: Undo)
        requires
            old(self).wf(),
            m.from < 64,
            m.to < 64,
            old(self).halfmove_clock < 0x7fff_ffff,
            old(self).fullmove_number < 0x7fff_ffff,
        ensures
            final(self).wf(),
            final(self).piece_on@ == pieces_after(old(self).piece_on@, old(self).turn, m),
            final(self).turn == opposite(old(self).turn),
            final(self).castle == rights_after(
                old(self).castle,
                old(self).piece_on[m.from as int],
                m,
            ),
            final(self).en_passant_sq == ep_after(old(self).turn, m),
            final(self).halfmove_clock == halfmove_after(
                old(self).halfmove_clock,
                old(self).piece_on[m.from as int],
                m,
            ),
            final(self).fullmove_number == if old(self).turn == Color::Black {
                old(self).fullmove_number + 1
            } else {
                old(self).fullmove_number as int
            },
            final(self).history@ == old(self).history@.push(final(self).zobrist),
            final(self).zob == old(self).zob,
            final(self).zobrist == crate::board::position_hash(
                final(self).piece_on@,
                final(self).castle,
                final(self).en_passant_sq,
                final(self).turn,
            ),
            final(self).all_pieces == final(self).w_pieces | final(self).b_pieces,
            u == (Undo {
                captured_piece: captured_of(old(self).piece_on@, old(self).turn, m),
                old_castle: old(self).castle,
                old_en_passant_sq: old(self).en_passant_sq,
                old_halfmove_clock: old(self).halfmove_clock,
            }),
    {
        let turn = self.turn;
        let old_castle = self.castle;
        let old_ep = self.en_passant_sq;
        let old_hm = self.halfmove_clock;
        self.set_ep(NO_SQ);
        let (moving, captured) = self.move_pieces(m);
        if m.double_push {
            let e: i64 = if turn == Color::White {
                m.from as i64 + 8
            } else {
                m.from as i64 - 8
            };
            if 0 <= e && e < 64 {
                self.set_ep(e as i32);
            }
        }
        if moving.kind() == Some(PieceKind::Pawn) || m.capture {
            self.halfmove_clock = 0;
        } else {
            self.halfmove_clock = self.halfmove_clock + 1;
        }
        let c = rights_exec(old_castle, moving, m);
        self.set_castle(c);
        self.flip_turn();
        if turn == Color::Black {
            self.fullmove_number = self.fullmove_number + 1;
        }
        self.history.push(self.zobrist);
        Undo {
            captured_piece: captured,
            old_castle,
            old_en_passant_sq: old_ep,
            old_halfmove_clock: old_hm,
        }
    }
}

impl Board {
    #[verifier::rlimit(80)]
    fn unmove_pieces(&mut self, m: Move, u: Undo)
        requires
            old(self).pieces_ok(),
            old(self).hash_ok(),
            m.from < 64,
            m.to < 64,
        ensures
            final(self).pieces_ok(),
            final(self).hash_ok(),
            final(self).piece_on@ == pieces_undone(old(self).piece_on@, m, u, old(self).turn),
            final(self).turn == old(self).turn,
            final(self).castle == old(self).castle,
            final(self).en_passant_sq == old(self).en_passant_sq,
            final(self).halfmove_clock == old(self).halfmove_clock,
            final(self).fullmove_number == old(self).fullmove_number,
            final(self).history == old(self).history,
            final(self).zob == old(self).zob,
    {
        let ghost po = self.piece_on@;
        let turn = self.turn;
        let from = m.from as usize;
        let to = m.to as usize;
        let arrived = self.remove_at(to);
        let mover = if m.promotion.is_some() {
            Piece::from_kind(PieceKind::Pawn, turn)
        } else {
            arrived
        };
        self.remove_at(from);
        self.put_at(from, mover);
        if m.capture {
            let cs: i64 = if m.en_passant {
                if turn == Color::White {
                    to as i64 - 8
                } else {
                    to as i64 + 8
                }
            } else {
                to as i64
            };
            if 0 <= cs && cs < 64 {
                self.remove_at(cs as usize);
                self.put_at(cs as usize, u.captured_piece);
            }
        }
        let ghost q2 = self.piece_on@;
        if m.castle {
            let (rf, rt): (i64, i64) = if to > from {
                (to as i64 + 1, to as i64 - 1)
            } else {
                (to as i64 - 2, to as i64 + 1)
            };
            if 0 <= rf && rf < 64 && 0 <= rt && rt < 64 {
                if !self.piece_on[rt as usize].is_empty() && self.piece_on[rf as usize].is_empty() {
                    let rook = self.remove_at(rt as usize);
                    self.put_at(rf as usize, rook);
                }
            }
        }
        proof {
            let mv = if m.promotion.is_some() {
                crate::types::make_piece(PieceKind::Pawn, turn)
            } else {
                po[m.to as int]
            };
            let q1 = po.update(m.to as int, Piece::Empty).update(m.from as int, mv);
            let cs = capture_square(m, turn);
            let q2s = if m.capture && in_range(cs) {
                q1.update(cs, u.captured_piece)
            } else {
                q1
            };
            assert(q2 =~= q2s);
            reveal(pieces_undone);
            assert(self.piece_on@ =~= pieces_undone(po, m, u, turn));
        }
    }

    /// Takes back move `m` made with record `u`.
    pub fn unmake_move(&mut self, m: Move, u: Undo)
        requires
            old(self).wf(),
            m.from < 64,
            m.to < 64,
            u.old_castle < 16,
            u.old_en_passant_sq == NO_SQ || 0 <= u.old_en_passant_sq < 64,
            0 <= u.old_halfmove_clock,
            old(self).turn == Color::White ==> old(self).fullmove_number >= 1,
        ensures
            final(self).wf(),
            final(self).turn == opposite(old(self).turn),
            final(self).piece_on@ == pieces_undone(old(self).piece_on@, m, u, final(self).turn),
            final(self).castle == u.old_castle,
            final(self).en_passant_sq == u.old_en_passant_sq,
            final(self).halfmove_clock == u.old_halfmove_clock,
            final(self).fullmove_number == if final(self).turn == Color::Black {
                old(self).fullmove_number - 1
            } else {
                old(self).fullmove_number as int
            },
            old(self).history@.len() > 0 ==> final(self).history@ == old(
                self,
            ).history@.drop_last(),
            final(self).zob == old(self).zob,
            final(self).zobrist == crate::board::position_hash(
                final(self).piece_on@,
                final(self).castle,
                final(self).en_passant_sq,
                final(self).turn,
            ),
            final(self).all_pieces == final(self).w_pieces | final(self).b_pieces,
    {
        self.history.pop();
        self.flip_turn();
        if self.turn == Color::Black {
            self.fullmove_number = self.fullmove_number - 1;
        }
        self.set_castle(u.old_castle);
        self.set_ep(u.old_en_passant_sq);
        self.halfmove_clock = u.old_halfmove_clock;
        self.unmove_pieces(m, u);
    }

    /// Passes the turn: clears en passant, flips the side, counts a halfmove.
    pub fn make_null_move(&mut self) -> (u: Undo)
        requires
            old(self).wf(),
            old(self).halfmove_clock < 0x7fff_ffff,
        ensures
            final(self).wf(),
            final(self).piece_on == old(self).piece_on,
            final(self).turn == opposite(old(self).turn),
            final(self).castle == old(self).castle,
            final(self).en_passant_sq == NO_SQ,
            final(self).halfmove_clock == old(self).halfmove_clock + 1,
            final(self).fullmove_number == old(self).fullmove_number,
            final(self).zob == old(self).zob,
            final(self).piece_bb == old(self).piece_bb,
            final(self).w_pieces == old(self).w_pieces,
            final(self).b_pieces == old(self).b_pieces,
            final(self).all_pieces == old(self).all_pieces,
            final(self).history@ == old(self).history@.push(final(self).zobrist),
            u == (Undo {
                captured_piece: Piece::Empty,
                old_castle: old(self).castle,
                old_en_passant_sq: old(self).en_passant_sq,
                old_halfmove_clock: old(self).halfmove_clock,
            }),
    {
        let u = Undo {
            captured_piece: Piece::Empty,
            old_castle: self.castle,
            old_en_passant_sq: self.en_passant_sq,
            old_halfmove_clock: self.halfmove_clock,
        };
        self.set_ep(NO_SQ);
        self.flip_turn();
        self.halfmove_clock = self.halfmove_clock + 1;
        self.history.push(self.zobrist);
        u
    }

    /// Takes back a null move made with record `u`.
    pub fn unmake_null_move(&mut self, u: Undo)
        requires
            old(self).wf(),
            u.old_en_passant_sq == NO_SQ || 0 <= u.old_en_passant_sq < 64,
            0 <= u.old_halfmove_clock,
        ensures
            final(self).wf(),
            final(self).piece_on == old(self).piece_on,
            final(self).turn == opposite(old(self).turn),
            final(self).castle == old(self).castle,
            final(self).en_passant_sq == u.old_en_passant_sq,
            final(self).halfmove_clock == u.old_halfmove_clock,
            final(self).fullmove_number == old(self).fullmove_number,
            old(self).history@.len() > 0 ==> final(self).history@ == old(
                self,
            ).history@.drop_last(),
            final(self).zob == old(self).zob,
            final(self).piece_bb == old(self).piece_bb,
            final(self).w_pieces == old(self).w_pieces,
            final(self).b_pieces == old(self).b_pieces,
            final(self).all_pieces == old(self).all_pieces,
    {
        self.history.pop();
        self.flip_turn();
        self.set_ep(u.old_en_passant_sq);
        self.halfmove_clock = u.old_halfmove_clock;
    }
}

/// Applying a move and taking it back restores the position: square array,
/// bitboards, castle rights, en-passant square, halfmove clock, fullmove
/// number, side to move, hash and history.  `before` is the position the
/// move was made on, `after` the result of `make_move`, `back` the result of
/// `unmake_move` on it with the returned record.
pub proof fn lemma_apply_undo(before: Board, m: Move, u: Undo, after: Board, back: Board)
    requires
        before.wf(),
        applicable(before.piece_on@, before.turn, m),
        after.piece_on@ == pieces_after(before.piece_on@, before.turn, m),
        after.turn == opposite(before.turn),
        after.fullmove_number == if before.turn == Color::Black {
            before.fullmove_number + 1
        } else {
            before.fullmove_number as int
        },
        after.history@ == before.history@.push(after.zobrist),
        u == (Undo {
            captured_piece: captured_of(before.piece_on@, before.turn, m),
            old_castle: before.castle,
            old_en_passant_sq: before.en_passant_sq,
            old_halfmove_clock: before.halfmove_clock,
        }),
        back.wf(),
        back.zob == before.zob,
        back.turn == opposite(after.turn),
        back.piece_on@ == pieces_undone(after.piece_on@, m, u, back.turn),
        back.castle == u.old_castle,
        back.en_passant_sq == u.old_en_passant_sq,
        back.halfmove_clock == u.old_halfmove_clock,
        back.fullmove_number == if back.turn == Color::Black {
            after.fullmove_number - 1
        } else {
            after.fullmove_number as int
        },
        back.history@ == after.history@.drop_last(),
    ensures
        back.piece_on@ == before.piece_on@,
        back.piece_bb == before.piece_bb,
        back.w_pieces == before.w_pieces,
        back.b_pieces == before.b_pieces,
        back.all_pieces == before.all_pieces,
        back.turn == before.turn,
        back.castle == before.castle,
        back.en_passant_sq == before.en_passant_sq,
        back.halfmove_clock == before.halfmove_clock,
        back.fullmove_number == before.fullmove_number,
        back.zobrist == before.zobrist,
        back.history@ == before.history@,
{
    lemma_apply_undo_pieces(before.piece_on@, before.turn, m);
    let u0 = Undo {
        captured_piece: captured_of(before.piece_on@, before.turn, m),
        old_castle: 0,
        old_en_passant_sq: 0,
        old_halfmove_clock: 0,
    };
    reveal(pieces_undone);
    assert(pieces_undone(after.piece_on@, m, u, before.turn) == pieces_undone(
        after.piece_on@,
        m,
        u0,
        before.turn,
    ));
    assert(back.piece_on@ =~= before.piece_on@);
    assert forall|i: int| 0 <= i < 13 implies back.piece_bb[i] == before.piece_bb[i] by {
        assert forall|s: int| 0 <= s < 64 implies #[trigger] crate::bits::bit(back.piece_bb[i], s)
            == crate::bits::bit(before.piece_bb[i], s) by {
            assert(back.piece_on@[s] == before.piece_on@[s]);
        }
        lemma_bits_ext(back.piece_bb[i], before.piece_bb[i]);
    }
    assert(back.piece_bb@ =~= before.piece_bb@);
    assert forall|s: int| 0 <= s < 64 implies #[trigger] crate::bits::bit(back.w_pieces, s)
        == crate::bits::bit(before.w_pieces, s) by {
        assert(back.piece_on@[s] == before.piece_on@[s]);
    }
    lemma_bits_ext(back.w_pieces, before.w_pieces);
    assert forall|s: int| 0 <= s < 64 implies #[trigger] crate::bits::bit(back.b_pieces, s)
        == crate::bits::bit(before.b_pieces, s) by {
        assert(back.piece_on@[s] == before.piece_on@[s]);
    }
    lemma_bits_ext(back.b_pieces, before.b_pieces);
    assert(back.history@ =~= before.history@);
}

} // verus!
