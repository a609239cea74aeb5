use vstd::prelude::*;
use vstd::string::*;
use crate::board::Board;
use crate::eval::count_piece;
use crate::score::{decimal, push_decimal};
use crate::types::{
    piece_letter, square_name, Color, Piece, BK_CASTLE, BQ_CASTLE, NO_SQ, WK_CASTLE, WQ_CASTLE,
};

verus! {

/// Largest halfmove clock or fullmove number a FEN may give.
pub const MAX_COUNTER: i32 = 1_000_000;

/// Relies on String::push: the string grows by exactly that character.
#[verifier::external_body]
pub(crate) fn push_char(s: &mut String, c: char)
    ensures
        final(s)@ == old(s)@.push(c),
{
    s.push(c)
}

fn error(msg: &str) -> (r: Result<Board, String>)
    ensures
        r.is_err(),
{
    Err(String::from_str(msg))
}

proof fn lemma_or_small(c: u8, k: u8)
    requires
        c < 16,
        k < 16,
    ensures
        c | k < 16,
{
    assert(c | k < 16) by (bit_vector)
        requires
            c < 16,
            k < 16,
    ;
}

pub open spec fn digit_of(c: char) -> Option<i32> {
    if c == '0' {
        Some(0)
    } else if c == '1' {
        Some(1)
    } else if c == '2' {
        Some(2)
    } else if c == '3' {
        Some(3)
    } else if c == '4' {
        Some(4)
    } else if c == '5' {
        Some(5)
    } else if c == '6' {
        Some(6)
    } else if c == '7' {
        Some(7)
    } else if c == '8' {
        Some(8)
    } else if c == '9' {
        Some(9)
    } else {
        None
    }
}

pub open spec fn file_of_char(c: char) -> Option<i32> {
    if c == 'a' {
        Some(0)
    } else if c == 'b' {
        Some(1)
    } else if c == 'c' {
        Some(2)
    } else if c == 'd' {
        Some(3)
    } else if c == 'e' {
        Some(4)
    } else if c == 'f' {
        Some(5)
    } else if c == 'g' {
        Some(6)
    } else if c == 'h' {
        Some(7)
    } else {
        None
    }
}

fn digit_value(c: char) -> (r: Option<i32>)
    ensures
        r == digit_of(c),
{
    if c == '0' {
        Some(0)
    } else if c == '1' {
        Some(1)
    } else if c == '2' {
        Some(2)
    } else if c == '3' {
        Some(3)
    } else if c == '4' {
        Some(4)
    } else if c == '5' {
        Some(5)
    } else if c == '6' {
        Some(6)
    } else if c == '7' {
        Some(7)
    } else if c == '8' {
        Some(8)
    } else if c == '9' {
        Some(9)
    } else {
        None
    }
}

fn file_value(c: char) -> (r: Option<i32>)
    ensures
        r == file_of_char(c),
{
    if c == 'a' {
        Some(0)
    } else if c == 'b' {
        Some(1)
    } else if c == 'c' {
        Some(2)
    } else if c == 'd' {
        Some(3)
    } else if c == 'e' {
        Some(4)
    } else if c == 'f' {
        Some(5)
    } else if c == 'g' {
        Some(6)
    } else if c == 'h' {
        Some(7)
    } else {
        None
    }
}

/// Reading state while scanning a FEN text character by character.
#[derive(Copy, Clone)]
pub struct Scan {
    pub field: usize,
    pub in_space: bool,
    pub rank: i32,
    pub file: i32,
    pub turn: Color,
    pub castle: u8,
    pub ep_file: i32,
    pub ep_rank: i32,
    pub ep_dash: bool,
    pub hm: i32,
    pub fm: i32,
    pub fm_seen: bool,
}

pub open spec fn scan_start() -> Scan {
    Scan {
        field: 0,
        in_space: true,
        rank: 7,
        file: 0,
        turn: Color::White,
        castle: 0,
        ep_file: -1i32,
        ep_rank: -1i32,
        ep_dash: false,
        hm: 0,
        fm: 1,
        fm_seen: false,
    }
}

pub open spec fn scan_ok(st: Scan) -> bool {
    &&& st.field <= 6
    &&& 0 <= st.rank <= 7
    &&& 0 <= st.file <= 8
    &&& st.castle < 16
    &&& 0 <= st.hm <= MAX_COUNTER
    &&& 0 <= st.fm <= MAX_COUNTER
    &&& -1 <= st.ep_file < 8
    &&& -1 <= st.ep_rank < 8
}

pub open spec fn castle_bit(c: char) -> Option<u8> {
    if c == 'K' {
        Some(WK_CASTLE)
    } else if c == 'Q' {
        Some(WQ_CASTLE)
    } else if c == 'k' {
        Some(BK_CASTLE)
    } else if c == 'q' {
        Some(BQ_CASTLE)
    } else if c == '-' {
        Some(0u8)
    } else {
        None
    }
}

/// One character of FEN text: the new state and the piece placed, or None
/// when the text is malformed there.
pub open spec fn scan_step(st: Scan, c: char) -> Option<(Scan, Option<(int, Piece)>)> {
    if c == ' ' {
        if !st.in_space && st.field >= 6 {
            None
        } else {
            Some(
                (
                    Scan {
                        field: if st.in_space {
                            st.field
                        } else {
                            (st.field + 1) as usize
                        },
                        in_space: true,
                        ..st
                    },
                    None,
                ),
            )
        }
    } else {
        let s = Scan { in_space: false, ..st };
        if st.field == 0 {
            if c == '/' {
                if st.rank == 0 {
                    None
                } else {
                    Some((Scan { rank: (st.rank - 1) as i32, file: 0, ..s }, None))
                }
            } else {
                match digit_of(c) {
                    Some(d) => if d < 1 || d > 8 || st.file + d > 8 {
                        None
                    } else {
                        Some((Scan { file: (st.file + d) as i32, ..s }, None))
                    },
                    None => {
                        let p = crate::types::piece_of_char(c);
                        if p == Piece::Empty || st.file > 7 {
                            None
                        } else {
                            Some(
                                (
                                    Scan { file: (st.file + 1) as i32, ..s },
                                    Some((st.rank * 8 + st.file, p)),
                                ),
                            )
                        }
                    },
                }
            }
        } else if st.field == 1 {
            if c == 'w' {
                Some((Scan { turn: Color::White, ..s }, None))
            } else if c == 'b' {
                Some((Scan { turn: Color::Black, ..s }, None))
            } else {
                None
            }
        } else if st.field == 2 {
            match castle_bit(c) {
                Some(k) => Some((Scan { castle: st.castle | k, ..s }, None)),
                None => None,
            }
        } else if st.field == 3 {
            if c == '-' {
                Some((Scan { ep_dash: true, ..s }, None))
            } else {
                match file_of_char(c) {
                    Some(f) => Some((Scan { ep_file: f, ..s }, None)),
                    None => match digit_of(c) {
                        Some(d) => if d < 1 || d > 8 {
                            None
                        } else {
                            Some((Scan { ep_rank: (d - 1) as i32, ..s }, None))
                        },
                        None => None,
                    },
                }
            }
        } else if st.field == 4 || st.field == 5 {
            match digit_of(c) {
                Some(d) => if st.field == 4 {
                    if st.hm > (MAX_COUNTER - d) / 10 {
                        None
                    } else {
                        Some((Scan { hm: (st.hm * 10 + d) as i32, ..s }, None))
                    }
                } else {
                    let fm0 = if st.fm_seen {
                        st.fm
                    } else {
                        0
                    };
                    if fm0 > (MAX_COUNTER - d) / 10 {
                        None
                    } else {
                        Some((Scan { fm: (fm0 * 10 + d) as i32, fm_seen: true, ..s }, None))
                    }
                },
                None => None,
            }
        } else {
            None
        }
    }
}

/// The scan of the first `n` characters: state and placed pieces, or None
/// once the text is malformed.
pub open spec fn scan_run(s: Seq<char>, n: int) -> Option<(Scan, Seq<Piece>)>
    decreases n,
{
    if n <= 0 {
        Some((scan_start(), Seq::new(64, |i: int| Piece::Empty)))
    } else {
        match scan_run(s, n - 1) {
            None => None,
            Some((st, po)) => match scan_step(st, s[n - 1]) {
                None => None,
                Some((st2, pl)) => Some(
                    (
                        st2,
                        match pl {
                            Some((sq, p)) => po.update(sq, p),
                            None => po,
                        },
                    ),
                ),
            },
        }
    }
}

/// The fields after the whole text: (turn, castle, en passant, halfmove,
/// fullmove), or None when a field is missing or the en-passant field is
/// malformed.
pub open spec fn scan_finish(st: Scan) -> Option<(Color, u8, i32, i32, i32)> {
    let fields = if st.in_space {
        st.field as int
    } else {
        st.field + 1
    };
    if st.field >= 6 || fields < 4 {
        None
    } else if st.ep_dash {
        if st.ep_file >= 0 || st.ep_rank >= 0 {
            None
        } else {
            Some((st.turn, st.castle, NO_SQ, st.hm, st.fm))
        }
    } else if st.ep_file < 0 || st.ep_rank < 0 {
        None
    } else {
        Some((st.turn, st.castle, (st.ep_rank * 8 + st.ep_file) as i32, st.hm, st.fm))
    }
}

/// What a FEN text denotes: the placement and the five other fields, or None
/// when the text is malformed or the placement does not hold exactly one
/// king of each color.
pub open spec fn fen_result(s: Seq<char>) -> Option<(Seq<Piece>, (Color, u8, i32, i32, i32))> {
    match scan_run(s, s.len() as int) {
        None => None,
        Some((st, po)) => match scan_finish(st) {
            None => None,
            Some(f) => if count_piece(po, Piece::WK, 64) == 1 && count_piece(po, Piece::BK, 64)
                == 1 {
                Some((po, f))
            } else {
                None
            },
        },
    }
}

fn count_kings(po: &[Piece; 64]) -> (r: (usize, usize))
    ensures
        r.0 == count_piece(po@, Piece::WK, 64),
        r.1 == count_piece(po@, Piece::BK, 64),
{
    let mut w: usize = 0;
    let mut k: usize = 0;
    let mut s: usize = 0;
    while s < 64
        invariant
            s <= 64,
            w == count_piece(po@, Piece::WK, s as int),
            k == count_piece(po@, Piece::BK, s as int),
            w <= s,
            k <= s,
        decreases 64 - s,
    {
        if po[s] == Piece::WK {
            w += 1;
        }
        if po[s] == Piece::BK {
            k += 1;
        }
        s += 1;
    }
    (w, k)
}

proof fn lemma_run_sticky(s: Seq<char>, i: int, n: int)
    requires
        0 <= i <= n,
        scan_run(s, i).is_none(),
    ensures
        scan_run(s, n).is_none(),
    decreases n - i,
{
    if i < n {
        lemma_run_sticky(s, i + 1, n);
    }
}

/// Exec form of `scan_step`.
fn step_exec(st: Scan, c: char) -> (r: Option<(Scan, Option<(usize, Piece)>)>)
    requires
        scan_ok(st),
    ensures
        match r {
            None => scan_step(st, c).is_none(),
            Some((st2, pl)) => {
                &&& scan_ok(st2)
                &&& scan_step(st, c) == Some(
                    (
                        st2,
                        match pl {
                            Some((sq, p)) => Some((sq as int, p)),
                            None => None,
                        },
                    ),
                )
                &&& match pl {
                    Some((sq, p)) => sq < 64,
                    None => true,
                }
            },
        },
{
    if c == ' ' {
        if !st.in_space && st.field >= 6 {
            return None;
        }
        let field = if st.in_space {
            st.field
        } else {
            st.field + 1
        };
        return Some((Scan { field, in_space: true, ..st }, None));
    }
    let s = Scan { in_space: false, ..st };
    if st.field == 0 {
        if c == '/' {
            if st.rank == 0 {
                return None;
            }
            Some((Scan { rank: st.rank - 1, file: 0, ..s }, None))
        } else {
            match digit_value(c) {
                Some(d) => {
                    if d < 1 || d > 8 || st.file + d > 8 {
                        return None;
                    }
                    Some((Scan { file: st.file + d, ..s }, None))
                },
                None => {
                    let p = Piece::from(c);
                    if p.is_empty() || st.file > 7 {
                        return None;
                    }
                    Some((Scan { file: st.file + 1, ..s }, Some(((st.rank * 8 + st.file) as usize, p))))
                },
            }
        }
    } else if st.field == 1 {
        if c == 'w' {
            Some((Scan { turn: Color::White, ..s }, None))
        } else if c == 'b' {
            Some((Scan { turn: Color::Black, ..s }, None))
        } else {
            None
        }
    } else if st.field == 2 {
        let bitv: u8 = if c == 'K' {
            WK_CASTLE
        } else if c == 'Q' {
            WQ_CASTLE
        } else if c == 'k' {
            BK_CASTLE
        } else if c == 'q' {
            BQ_CASTLE
        } else if c == '-' {
            0
        } else {
            return None;
        };
        proof {
            lemma_or_small(st.castle, bitv);
        }
        Some((Scan { castle: st.castle | bitv, ..s }, None))
    } else if st.field == 3 {
        if c == '-' {
            Some((Scan { ep_dash: true, ..s }, None))
        } else {
            match file_value(c) {
                Some(f) => Some((Scan { ep_file: f, ..s }, None)),
                None => match digit_value(c) {
                    Some(d) => {
                        if d < 1 || d > 8 {
                            return None;
                        }
                        Some((Scan { ep_rank: d - 1, ..s }, None))
                    },
                    None => None,
                },
            }
        }
    } else if st.field == 4 || st.field == 5 {
        match digit_value(c) {
            Some(d) => {
                if st.field == 4 {
                    if st.hm > (MAX_COUNTER - d) / 10 {
                        return None;
                    }
                    Some((Scan { hm: st.hm * 10 + d, ..s }, None))
                } else {
                    let fm0 = if st.fm_seen {
                        st.fm
                    } else {
                        0
                    };
                    if fm0 > (MAX_COUNTER - d) / 10 {
                        return None;
                    }
                    Some((Scan { fm: fm0 * 10 + d, fm_seen: true, ..s }, None))
                }
            },
            None => None,
        }
    } else {
        None
    }
}

/// Reads a six-field FEN (the two counters may be left out).  It succeeds
/// exactly when `fen_result` accepts the text, and the position it returns
/// holds that placement and those fields, with bitboards, hash and a
/// one-entry history in agreement.
pub fn parse_fen(fen: &str) -> (r: Result<Board, String>)
    ensures
        r.is_ok() <==> fen_result(fen@).is_some(),
        match r {
            Ok(b) => {
                let (po, f) = fen_result(fen@).unwrap();
                &&& b.wf()
                &&& b.history@ == seq![b.zobrist]
                &&& b.piece_on@ == po
                &&& b.turn == f.0
                &&& b.castle == f.1
                &&& b.en_passant_sq == f.2
                &&& b.halfmove_clock == f.3
                &&& b.fullmove_number == f.4
                &&& b.halfmove_clock <= MAX_COUNTER
                &&& b.fullmove_number <= MAX_COUNTER
            },
            Err(_) => true,
        },
{
    let n = fen.unicode_len();
    let mut b = Board::empty();
    let mut st = Scan {
        field: 0,
        in_space: true,
        rank: 7,
        file: 0,
        turn: Color::White,
        castle: 0,
        ep_file: -1,
        ep_rank: -1,
        ep_dash: false,
        hm: 0,
        fm: 1,
        fm_seen: false,
    };
    proof {
        assert(b.piece_on@ =~= Seq::new(64, |i: int| Piece::Empty));
    }
    let mut i: usize = 0;
    while i < n
        invariant
            n == fen@.len(),
            i <= n,
            b.zob.wf(),
            scan_ok(st),
            scan_run(fen@, i as int) == Some((st, b.piece_on@)),
        decreases n - i,
    {
        let c = fen.get_char(i);
        match step_exec(st, c) {
            None => {
                proof {
                    lemma_run_sticky(fen@, i as int + 1, n as int);
                }
                return error("malformed FEN");
            },
            Some((st2, pl)) => {
                match pl {
                    Some((sq, p)) => {
                        b.place_piece(p, sq);
                    },
                    None => {},
                }
                st = st2;
            },
        }
        i += 1;
    }
    if st.field >= 6 {
        return error("too many fields");
    }
    let fields = if st.in_space {
        st.field
    } else {
        st.field + 1
    };
    if fields < 4 {
        return error("missing fields");
    }
    let ep = if st.ep_dash {
        if st.ep_file >= 0 || st.ep_rank >= 0 {
            return error("bad ep");
        }
        NO_SQ
    } else {
        if st.ep_file < 0 || st.ep_rank < 0 {
            return error("bad ep");
        }
        st.ep_rank * 8 + st.ep_file
    };
    let (wk, bk) = count_kings(&b.piece_on);
    if wk != 1 || bk != 1 {
        return error("not one king of each color");
    }
    b.turn = st.turn;
    b.castle = st.castle;
    b.en_passant_sq = ep;
    b.halfmove_clock = st.hm;
    b.fullmove_number = st.fm;
    b.rebuild_derived();
    b.recompute_zobrist();
    b.reset_history();
    Ok(b)
}

/// Text of rank `r` from file `f` on, with `empty` empty squares pending:
/// runs of empty squares as a digit, pieces as their letters.
pub open spec fn row_from(po: Seq<Piece>, r: int, f: int, empty: nat) -> Seq<char>
    decreases 8 - f,
{
    if f >= 8 {
        if empty > 0 {
            decimal(empty)
        } else {
            seq![]
        }
    } else if po[r * 8 + f] == Piece::Empty {
        row_from(po, r, f + 1, empty + 1)
    } else {
        (if empty > 0 {
            decimal(empty)
        } else {
            seq![]
        }) + seq![piece_letter(po[r * 8 + f])] + row_from(po, r, f + 1, 0)
    }
}

/// Ranks `r` down to the first, separated by '/'.
pub open spec fn placement_from(po: Seq<Piece>, r: int) -> Seq<char>
    decreases r,
{
    if r <= 0 {
        row_from(po, 0, 0, 0)
    } else {
        row_from(po, r, 0, 0) + seq!['/'] + placement_from(po, r - 1)
    }
}

pub open spec fn castle_text_of(c: u8) -> Seq<char> {
    if c & 15 == 0 {
        seq!['-']
    } else {
        (if c & WK_CASTLE != 0 {
            seq!['K']
        } else {
            seq![]
        }) + (if c & WQ_CASTLE != 0 {
            seq!['Q']
        } else {
            seq![]
        }) + (if c & BK_CASTLE != 0 {
            seq!['k']
        } else {
            seq![]
        }) + (if c & BQ_CASTLE != 0 {
            seq!['q']
        } else {
            seq![]
        })
    }
}

/// The FEN text of a position.
pub open spec fn fen_text(b: Board) -> Seq<char> {
    placement_from(b.piece_on@, 7) + seq![
        ' ',
        if b.turn == Color::White {
            'w'
        } else {
            'b'
        },
        ' ',
    ] + castle_text_of(b.castle) + seq![' '] + (if b.en_passant_sq == NO_SQ {
        seq!['-']
    } else {
        square_name(b.en_passant_sq as int)
    }) + seq![' '] + decimal(b.halfmove_clock as nat) + seq![' '] + decimal(
        b.fullmove_number as nat,
    )
}

fn castle_text(s: &mut String, castle: u8)
    ensures
        final(s)@ == old(s)@ + castle_text_of(castle),
{
    if castle & 15 == 0 {
        push_char(s, '-');
    } else {
        if castle & WK_CASTLE != 0 {
            push_char(s, 'K');
        }
        if castle & WQ_CASTLE != 0 {
            push_char(s, 'Q');
        }
        if castle & BK_CASTLE != 0 {
            push_char(s, 'k');
        }
        if castle & BQ_CASTLE != 0 {
            push_char(s, 'q');
        }
    }
    proof {
        assert(s@ =~= old(s)@ + castle_text_of(castle));
    }
}

fn push_row(s: &mut String, po: &[Piece; 64], r: usize)
    requires
        r < 8,
    ensures
        final(s)@ == old(s)@ + row_from(po@, r as int, 0, 0),
{
    let mut empty: u32 = 0;
    let mut f: usize = 0;
    while f < 8
        invariant
            f <= 8,
            r < 8,
            empty <= f,
            s@ + row_from(po@, r as int, f as int, empty as nat) == old(s)@ + row_from(
                po@,
                r as int,
                0,
                0,
            ),
        decreases 8 - f,
    {
        let p = po[r * 8 + f];
        let ghost s0 = s@;
        let ghost e0 = empty as nat;
        if p.is_empty() {
            empty += 1;
        } else {
            if empty > 0 {
                push_decimal(s, empty);
                empty = 0;
            }
            push_char(s, p.letter());
            proof {
                assert(s@ + row_from(po@, r as int, f as int + 1, 0) =~= s0 + row_from(
                    po@,
                    r as int,
                    f as int,
                    e0,
                ));
            }
        }
        f += 1;
    }
    if empty > 0 {
        push_decimal(s, empty);
    }
    proof {
        assert(s@ =~= old(s)@ + row_from(po@, r as int, 0, 0));
    }
}

/// The FEN text of a position: placement by ranks from the eighth, side,
/// castle rights, en-passant square, halfmove clock and fullmove number.
pub fn to_fen(b: &Board) -> (r: String)
    requires
        b.wf(),
    ensures
        r@ == fen_text(*b),
{
    let mut s = String::new();
    let mut r: usize = 8;
    while r > 0
        invariant
            r <= 8,
            s@ + (if r == 0 {
                seq![]
            } else {
                placement_from(b.piece_on@, r - 1)
            }) == placement_from(b.piece_on@, 7),
        decreases r,
    {
        r -= 1;
        let ghost s0 = s@;
        push_row(&mut s, &b.piece_on, r);
        if r != 0 {
            push_char(&mut s, '/');
        }
        proof {
            if r != 0 {
                assert(s@ + placement_from(b.piece_on@, r - 1) =~= s0 + placement_from(
                    b.piece_on@,
                    r as int,
                ));
            } else {
                assert(s@ =~= s0 + placement_from(b.piece_on@, 0));
            }
        }
    }
    let ghost sp = s@;
    push_char(&mut s, ' ');
    push_char(
        &mut s,
        if b.turn == Color::White {
            'w'
        } else {
            'b'
        },
    );
    push_char(&mut s, ' ');
    castle_text(&mut s, b.castle);
    push_char(&mut s, ' ');
    if b.en_passant_sq == NO_SQ {
        push_char(&mut s, '-');
    } else {
        let e = b.en_passant_sq as usize;
        push_char(&mut s, crate::types::file_char(e));
        push_char(&mut s, crate::types::rank_char(e));
    }
    push_char(&mut s, ' ');
    push_decimal(&mut s, b.halfmove_clock as u32);
    push_char(&mut s, ' ');
    push_decimal(&mut s, b.fullmove_number as u32);
    proof {
        assert(sp =~= placement_from(b.piece_on@, 7));
        assert(s@ =~= fen_text(*b));
    }
    s
}

impl Board {
    pub fn from_fen(fen_str: &str) -> (r: Result<Board, String>)
        ensures
            r.is_ok() <==> fen_result(fen_str@).is_some(),
            match r {
                Ok(b) => {
                    let (po, f) = fen_result(fen_str@).unwrap();
                    &&& b.wf()
                    &&& b.history@ == seq![b.zobrist]
                    &&& b.piece_on@ == po
                    &&& b.turn == f.0
                    &&& b.castle == f.1
                    &&& b.en_passant_sq == f.2
                    &&& b.halfmove_clock == f.3
                    &&& b.fullmove_number == f.4
                    &&& b.halfmove_clock <= MAX_COUNTER
                    &&& b.fullmove_number <= MAX_COUNTER
                },
                Err(_) => true,
            },
    {
        parse_fen(fen_str)
    }

    pub fn to_fen(&self) -> (r: String)
        requires
            self.wf(),
        ensures
            r@ == fen_text(*self),
    {
        to_fen(self)
    }
}

} // verus!
