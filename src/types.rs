use vstd::prelude::*;
use vstd::string::*;

verus! {

pub type Bitboard = u64;

pub type ZKey = u64;

/// Sentinel for "no square" (no en-passant target).
pub const NO_SQ: i32 = -1;

pub const WK_CASTLE: u8 = 1;

pub const WQ_CASTLE: u8 = 2;

pub const BK_CASTLE: u8 = 4;

pub const BQ_CASTLE: u8 = 8;

#[derive(Copy, Clone, PartialEq, Eq, Debug, Structural)]
pub enum Color {
    White,
    Black,
}

pub open spec fn opposite(c: Color) -> Color {
    match c {
        Color::White => Color::Black,
        Color::Black => Color::White,
    }
}

impl Color {
    pub fn other(self) -> (r: Color)
        ensures
            r == opposite(self),
    {
        if self == Color::White {
            Color::Black
        } else {
            Color::White
        }
    }
}

#[derive(Copy, Clone, PartialEq, Eq, Debug, Structural)]
pub enum PieceKind {
    Pawn,
    Knight,
    Bishop,
    Rook,
    Queen,
    King,
}

pub open spec fn kind_letter(k: PieceKind) -> char {
    match k {
        PieceKind::Pawn => 'P',
        PieceKind::Knight => 'N',
        PieceKind::Bishop => 'B',
        PieceKind::Rook => 'R',
        PieceKind::Queen => 'Q',
        PieceKind::King => 'K',
    }
}

impl PieceKind {
    pub fn to_char_upper(&self) -> (r: char)
        ensures
            r == kind_letter(*self),
    {
        match self {
            PieceKind::Pawn => 'P',
            PieceKind::Knight => 'N',
            PieceKind::Bishop => 'B',
            PieceKind::Rook => 'R',
            PieceKind::Queen => 'Q',
            PieceKind::King => 'K',
        }
    }
}

#[derive(Copy, Clone, PartialEq, Eq, Debug, Structural)]
pub enum Piece {
    Empty,
    WP,
    WN,
    WB,
    WR,
    WQ,
    WK,
    BP,
    BN,
    BB,
    BR,
    BQ,
    BK,
}

/// The stable index of a piece: Empty is 0, white pawn to king 1..6,
/// black pawn to king 7..12.
pub open spec fn piece_index(p: Piece) -> int {
    match p {
        Piece::Empty => 0,
        Piece::WP => 1,
        Piece::WN => 2,
        Piece::WB => 3,
        Piece::WR => 4,
        Piece::WQ => 5,
        Piece::WK => 6,
        Piece::BP => 7,
        Piece::BN => 8,
        Piece::BB => 9,
        Piece::BR => 10,
        Piece::BQ => 11,
        Piece::BK => 12,
    }
}

pub open spec fn piece_color(p: Piece) -> Option<Color> {
    if p == Piece::Empty {
        None
    } else if piece_index(p) <= 6 {
        Some(Color::White)
    } else {
        Some(Color::Black)
    }
}

pub open spec fn piece_kind(p: Piece) -> Option<PieceKind> {
    match p {
        Piece::WP | Piece::BP => Some(PieceKind::Pawn),
        Piece::WN | Piece::BN => Some(PieceKind::Knight),
        Piece::WB | Piece::BB => Some(PieceKind::Bishop),
        Piece::WR | Piece::BR => Some(PieceKind::Rook),
        Piece::WQ | Piece::BQ => Some(PieceKind::Queen),
        Piece::WK | Piece::BK => Some(PieceKind::King),
        Piece::Empty => None,
    }
}

pub open spec fn make_piece(k: PieceKind, c: Color) -> Piece {
    match (k, c) {
        (PieceKind::Pawn, Color::White) => Piece::WP,
        (PieceKind::Knight, Color::White) => Piece::WN,
        (PieceKind::Bishop, Color::White) => Piece::WB,
        (PieceKind::Rook, Color::White) => Piece::WR,
        (PieceKind::Queen, Color::White) => Piece::WQ,
        (PieceKind::King, Color::White) => Piece::WK,
        (PieceKind::Pawn, Color::Black) => Piece::BP,
        (PieceKind::Knight, Color::Black) => Piece::BN,
        (PieceKind::Bishop, Color::Black) => Piece::BB,
        (PieceKind::Rook, Color::Black) => Piece::BR,
        (PieceKind::Queen, Color::Black) => Piece::BQ,
        (PieceKind::King, Color::Black) => Piece::BK,
    }
}

/// The piece that a FEN placement letter denotes; any other character is Empty.
pub open spec fn piece_of_char(c: char) -> Piece {
    if c == 'P' {
        Piece::WP
    } else if c == 'N' {
        Piece::WN
    } else if c == 'B' {
        Piece::WB
    } else if c == 'R' {
        Piece::WR
    } else if c == 'Q' {
        Piece::WQ
    } else if c == 'K' {
        Piece::WK
    } else if c == 'p' {
        Piece::BP
    } else if c == 'n' {
        Piece::BN
    } else if c == 'b' {
        Piece::BB
    } else if c == 'r' {
        Piece::BR
    } else if c == 'q' {
        Piece::BQ
    } else if c == 'k' {
        Piece::BK
    } else {
        Piece::Empty
    }
}

/// The FEN letter of a piece ('.' for Empty).
pub open spec fn piece_letter(p: Piece) -> char {
    match p {
        Piece::Empty => '.',
        Piece::WP => 'P',
        Piece::WN => 'N',
        Piece::WB => 'B',
        Piece::WR => 'R',
        Piece::WQ => 'Q',
        Piece::WK => 'K',
        Piece::BP => 'p',
        Piece::BN => 'n',
        Piece::BB => 'b',
        Piece::BR => 'r',
        Piece::BQ => 'q',
        Piece::BK => 'k',
    }
}

impl Piece {
    pub fn is_empty(self) -> (r: bool)
        ensures
            r == (self == Piece::Empty),
    {
        matches!(self, Piece::Empty)
    }

    pub fn color(self) -> (r: Option<Color>)
        ensures
            r == piece_color(self),
    {
        match self {
            Piece::WP | Piece::WN | Piece::WB | Piece::WR | Piece::WQ | Piece::WK => Some(
                Color::White,
            ),
            Piece::BP | Piece::BN | Piece::BB | Piece::BR | Piece::BQ | Piece::BK => Some(
                Color::Black,
            ),
            _ => None,
        }
    }

    pub fn kind(self) -> (r: Option<PieceKind>)
        ensures
            r == piece_kind(self),
    {
        match self {
            Piece::WP | Piece::BP => Some(PieceKind::Pawn),
            Piece::WN | Piece::BN => Some(PieceKind::Knight),
            Piece::WB | Piece::BB => Some(PieceKind::Bishop),
            Piece::WR | Piece::BR => Some(PieceKind::Rook),
            Piece::WQ | Piece::BQ => Some(PieceKind::Queen),
            Piece::WK | Piece::BK => Some(PieceKind::King),
            _ => None,
        }
    }

    pub fn from_kind(kind: PieceKind, color: Color) -> (r: Piece)
        ensures
            r == make_piece(kind, color),
            piece_kind(r) == Some(kind),
            piece_color(r) == Some(color),
    {
        match (kind, color) {
            (PieceKind::Pawn, Color::White) => Piece::WP,
            (PieceKind::Knight, Color::White) => Piece::WN,
            (PieceKind::Bishop, Color::White) => Piece::WB,
            (PieceKind::Rook, Color::White) => Piece::WR,
            (PieceKind::Queen, Color::White) => Piece::WQ,
            (PieceKind::King, Color::White) => Piece::WK,
            (PieceKind::Pawn, Color::Black) => Piece::BP,
            (PieceKind::Knight, Color::Black) => Piece::BN,
            (PieceKind::Bishop, Color::Black) => Piece::BB,
            (PieceKind::Rook, Color::Black) => Piece::BR,
            (PieceKind::Queen, Color::Black) => Piece::BQ,
            (PieceKind::King, Color::Black) => Piece::BK,
        }
    }

    pub fn index(self) -> (r: usize)
        ensures
            r == piece_index(self),
            r < 13,
    {
        match self {
            Piece::Empty => 0,
            Piece::WP => 1,
            Piece::WN => 2,
            Piece::WB => 3,
            Piece::WR => 4,
            Piece::WQ => 5,
            Piece::WK => 6,
            Piece::BP => 7,
            Piece::BN => 8,
            Piece::BB => 9,
            Piece::BR => 10,
            Piece::BQ => 11,
            Piece::BK => 12,
        }
    }

    /// The FEN letter of this piece ('.' for Empty).
    pub fn letter(self) -> (r: char)
        ensures
            r == piece_letter(self),
    {
        match self {
            Piece::Empty => '.',
            Piece::WP => 'P',
            Piece::WN => 'N',
            Piece::WB => 'B',
            Piece::WR => 'R',
            Piece::WQ => 'Q',
            Piece::WK => 'K',
            Piece::BP => 'p',
            Piece::BN => 'n',
            Piece::BB => 'b',
            Piece::BR => 'r',
            Piece::BQ => 'q',
            Piece::BK => 'k',
        }
    }
}

impl From<char> for Piece {
    fn from(c: char) -> (r: Piece) {
        match c {
            'P' => Piece::WP,
            'N' => Piece::WN,
            'B' => Piece::WB,
            'R' => Piece::WR,
            'Q' => Piece::WQ,
            'K' => Piece::WK,
            'p' => Piece::BP,
            'n' => Piece::BN,
            'b' => Piece::BB,
            'r' => Piece::BR,
            'q' => Piece::BQ,
            'k' => Piece::BK,
            _ => Piece::Empty,
        }
    }
}

impl vstd::std_specs::convert::FromSpecImpl<char> for Piece {
    open spec fn obeys_from_spec() -> bool {
        true
    }

    open spec fn from_spec(c: char) -> Piece {
        piece_of_char(c)
    }
}

/// Record needed to reverse a move.
#[derive(Copy, Clone, PartialEq, Eq, Debug, Structural)]
pub struct Undo {
    pub captured_piece: Piece,
    pub old_castle: u8,
    pub old_en_passant_sq: i32,
    pub old_halfmove_clock: i32,
}

pub open spec fn sq_file(sq: int) -> int {
    sq % 8
}

pub open spec fn sq_rank(sq: int) -> int {
    sq / 8
}

pub fn file_of(sq: i32) -> (r: i32)
    requires
        0 <= sq < 64,
    ensures
        r == sq_file(sq as int),
        0 <= r < 8,
{
    sq % 8
}

pub fn rank_of(sq: i32) -> (r: i32)
    requires
        0 <= sq < 64,
    ensures
        r == sq_rank(sq as int),
        0 <= r < 8,
{
    sq / 8
}

pub fn in_board(sq: i32) -> (r: bool)
    ensures
        r == (0 <= sq < 64),
{
    0 <= sq && sq < 64
}

pub open spec fn file_letter(sq: int) -> char {
    let f = sq % 8;
    if f == 0 {
        'a'
    } else if f == 1 {
        'b'
    } else if f == 2 {
        'c'
    } else if f == 3 {
        'd'
    } else if f == 4 {
        'e'
    } else if f == 5 {
        'f'
    } else if f == 6 {
        'g'
    } else {
        'h'
    }
}

pub open spec fn rank_digit(sq: int) -> char {
    let r = sq / 8;
    if r == 0 {
        '1'
    } else if r == 1 {
        '2'
    } else if r == 2 {
        '3'
    } else if r == 3 {
        '4'
    } else if r == 4 {
        '5'
    } else if r == 5 {
        '6'
    } else if r == 6 {
        '7'
    } else {
        '8'
    }
}

/// The two-character algebraic name of a square, such as "e4".
pub open spec fn square_name(sq: int) -> Seq<char> {
    seq![file_letter(sq), rank_digit(sq)]
}

pub fn file_char(sq: usize) -> (r: char)
    requires
        sq < 64,
    ensures
        r == file_letter(sq as int),
{
    let f = sq % 8;
    if f == 0 {
        'a'
    } else if f == 1 {
        'b'
    } else if f == 2 {
        'c'
    } else if f == 3 {
        'd'
    } else if f == 4 {
        'e'
    } else if f == 5 {
        'f'
    } else if f == 6 {
        'g'
    } else {
        'h'
    }
}

pub fn rank_char(sq: usize) -> (r: char)
    requires
        sq < 64,
    ensures
        r == rank_digit(sq as int),
{
    let r = sq / 8;
    if r == 0 {
        '1'
    } else if r == 1 {
        '2'
    } else if r == 2 {
        '3'
    } else if r == 3 {
        '4'
    } else if r == 4 {
        '5'
    } else if r == 5 {
        '6'
    } else if r == 6 {
        '7'
    } else {
        '8'
    }
}

fn file_str(sq: usize) -> (r: &'static str)
    requires
        sq < 64,
    ensures
        r@ == seq![file_letter(sq as int)],
{
    let f = sq % 8;
    if f == 0 {
        proof {
            reveal_strlit("a");
        }
        "a"
    } else if f == 1 {
        proof {
            reveal_strlit("b");
        }
        "b"
    } else if f == 2 {
        proof {
            reveal_strlit("c");
        }
        "c"
    } else if f == 3 {
        proof {
            reveal_strlit("d");
        }
        "d"
    } else if f == 4 {
        proof {
            reveal_strlit("e");
        }
        "e"
    } else if f == 5 {
        proof {
            reveal_strlit("f");
        }
        "f"
    } else if f == 6 {
        proof {
            reveal_strlit("g");
        }
        "g"
    } else {
        proof {
            reveal_strlit("h");
        }
        "h"
    }
}

fn rank_str(sq: usize) -> (r: &'static str)
    requires
        sq < 64,
    ensures
        r@ == seq![rank_digit(sq as int)],
{
    let r = sq / 8;
    if r == 0 {
        proof {
            reveal_strlit("1");
        }
        "1"
    } else if r == 1 {
        proof {
            reveal_strlit("2");
        }
        "2"
    } else if r == 2 {
        proof {
            reveal_strlit("3");
        }
        "3"
    } else if r == 3 {
        proof {
            reveal_strlit("4");
        }
        "4"
    } else if r == 4 {
        proof {
            reveal_strlit("5");
        }
        "5"
    } else if r == 5 {
        proof {
            reveal_strlit("6");
        }
        "6"
    } else if r == 6 {
        proof {
            reveal_strlit("7");
        }
        "7"
    } else {
        proof {
            reveal_strlit("8");
        }
        "8"
    }
}

pub fn sq_to_str(sq: usize) -> (r: String)
    requires
        sq < 64,
    ensures
        r@ == square_name(sq as int),
{
    let mut s = String::from_str(file_str(sq));
    s.append(rank_str(sq));
    s
}

/// A move: origin, destination and flags.
#[derive(Copy, Clone, Debug)]
pub struct Move {
    pub from: u8,
    pub to: u8,
    pub capture: bool,
    pub en_passant: bool,
    pub double_push: bool,
    pub castle: bool,
    pub promotion: Option<PieceKind>,
}

fn same_promotion(a: Option<PieceKind>, b: Option<PieceKind>) -> (r: bool)
    ensures
        r == (a == b),
{
    match (a, b) {
        (None, None) => true,
        (Some(x), Some(y)) => x == y,
        _ => false,
    }
}

impl PartialEq for Move {
    fn eq(&self, o: &Move) -> (r: bool) {
        self.from == o.from && self.to == o.to && self.capture == o.capture && self.en_passant
            == o.en_passant && self.double_push == o.double_push && self.castle == o.castle
            && same_promotion(self.promotion, o.promotion)
    }
}

impl vstd::std_specs::cmp::PartialEqSpecImpl for Move {
    open spec fn obeys_eq_spec() -> bool {
        true
    }

    open spec fn eq_spec(&self, o: &Move) -> bool {
        *self == *o
    }
}

impl Eq for Move {

}

pub open spec fn quiet_move(from: u8, to: u8) -> Move {
    Move {
        from,
        to,
        capture: false,
        en_passant: false,
        double_push: false,
        castle: false,
        promotion: None,
    }
}

impl Default for Move {
    fn default() -> (r: Move)
        ensures
            r == quiet_move(0, 0),
    {
        Move::quiet(0, 0)
    }
}

impl Move {
    pub fn quiet(from: u8, to: u8) -> (r: Move)
        ensures
            r == quiet_move(from, to),
    {
        Move {
            from,
            to,
            capture: false,
            en_passant: false,
            double_push: false,
            castle: false,
            promotion: None,
        }
    }
}

/// Moves that the 16-bit packing represents: squares on the board, a
/// promotion to knight, bishop, rook or queen, and flags that combine as
/// the generator sets them.
pub open spec fn move_wf(m: Move) -> bool {
    &&& m.from < 64
    &&& m.to < 64
    &&& m.promotion.is_some() ==> {
        &&& m.promotion.unwrap() != PieceKind::Pawn
        &&& m.promotion.unwrap() != PieceKind::King
        &&& !m.en_passant
        &&& !m.double_push
        &&& !m.castle
    }
    &&& m.en_passant ==> m.capture && !m.double_push && !m.castle
    &&& m.capture ==> !m.double_push && !m.castle
    &&& m.castle ==> !m.double_push
}

pub open spec fn promo_code(k: PieceKind) -> u16 {
    match k {
        PieceKind::Bishop => 1,
        PieceKind::Rook => 2,
        PieceKind::Queen => 3,
        _ => 0,
    }
}

pub open spec fn promo_of_code(c: u16) -> PieceKind {
    if c == 0 {
        PieceKind::Knight
    } else if c == 1 {
        PieceKind::Bishop
    } else if c == 2 {
        PieceKind::Rook
    } else {
        PieceKind::Queen
    }
}

/// The four flag bits of a packed move.
pub open spec fn move_flags(m: Move) -> u16 {
    if m.promotion.is_some() {
        ((if m.capture {
            12u16
        } else {
            8u16
        }) + promo_code(m.promotion.unwrap())) as u16
    } else if m.en_passant {
        5
    } else if m.capture {
        4
    } else if m.castle {
        if m.to % 8 > m.from % 8 {
            2
        } else {
            3
        }
    } else if m.double_push {
        1
    } else {
        0
    }
}

/// Bits 0-5 origin, bits 6-11 destination, bits 12-15 flags.
pub open spec fn pack_move(m: Move) -> u16 {
    (m.from as u16) | ((m.to as u16) << 6u16) | (move_flags(m) << 12u16)
}

pub open spec fn unpack_move(x: u16) -> Move {
    if x == 0 {
        quiet_move(0, 0)
    } else {
        let q = quiet_move((x & 0x3f) as u8, ((x >> 6u16) & 0x3f) as u8);
        let flags = x >> 12u16;
        if flags >= 8 {
            Move { promotion: Some(promo_of_code(flags & 3)), capture: flags & 4 != 0, ..q }
        } else if flags == 5 {
            Move { capture: true, en_passant: true, ..q }
        } else if flags == 4 {
            Move { capture: true, ..q }
        } else if flags == 2 || flags == 3 {
            Move { castle: true, ..q }
        } else if flags == 1 {
            Move { double_push: true, ..q }
        } else {
            q
        }
    }
}

proof fn lemma_pack_fields(f: u16, t: u16, fl: u16)
    requires
        f < 64,
        t < 64,
        fl < 16,
    ensures
        (f | (t << 6u16) | (fl << 12u16)) & 0x3f == f,
        ((f | (t << 6u16) | (fl << 12u16)) >> 6u16) & 0x3f == t,
        (f | (t << 6u16) | (fl << 12u16)) >> 12u16 == fl,
        (f | (t << 6u16) | (fl << 12u16)) == 0 ==> f == 0 && t == 0 && fl == 0,
{
    assert((f | (t << 6u16) | (fl << 12u16)) & 0x3f == f) by (bit_vector)
        requires
            f < 64,
            t < 64,
            fl < 16,
    ;
    assert(((f | (t << 6u16) | (fl << 12u16)) >> 6u16) & 0x3f == t) by (bit_vector)
        requires
            f < 64,
            t < 64,
            fl < 16,
    ;
    assert((f | (t << 6u16) | (fl << 12u16)) >> 12u16 == fl) by (bit_vector)
        requires
            f < 64,
            t < 64,
            fl < 16,
    ;
    assert((f | (t << 6u16) | (fl << 12u16)) == 0 ==> f == 0 && t == 0 && fl == 0)
        by (bit_vector)
        requires
            f < 64,
            t < 64,
            fl < 16,
    ;
}

proof fn lemma_flag_bits(fl: u16)
    requires
        8 <= fl < 16,
    ensures
        fl & 3 == fl % 4,
        (fl & 4 != 0) == (fl >= 12),
{
    assert(fl & 3 == fl % 4) by (bit_vector);
    assert((fl & 4 != 0) == (fl >= 12)) by (bit_vector)
        requires
            8 <= fl < 16,
    ;
}

/// Packing a move into 16 bits and reading it back gives the same move.
pub proof fn lemma_pack_round_trip(m: Move)
    requires
        move_wf(m),
    ensures
        unpack_move(pack_move(m)) == m,
{
    let fl = move_flags(m);
    assert(fl < 16);
    lemma_pack_fields(m.from as u16, m.to as u16, fl);
    if fl >= 8 {
        lemma_flag_bits(fl);
    }
}

impl From<Move> for u16 {
    fn from(m: Move) -> (r: u16) {
        let from_u16 = m.from as u16;
        let to_u16 = (m.to as u16) << 6u16;
        let mut flags: u16 = 0;
        if let Some(pk) = m.promotion {
            flags = if m.capture {
                12
            } else {
                8
            };
            flags = flags + match pk {
                PieceKind::Bishop => 1,
                PieceKind::Rook => 2,
                PieceKind::Queen => 3,
                _ => 0,
            };
        } else if m.en_passant {
            flags = 5;
        } else if m.capture {
            flags = 4;
        } else if m.castle {
            flags = if m.to % 8 > m.from % 8 {
                2
            } else {
                3
            };
        } else if m.double_push {
            flags = 1;
        }
        from_u16 | to_u16 | (flags << 12u16)
    }
}

impl vstd::std_specs::convert::FromSpecImpl<Move> for u16 {
    open spec fn obeys_from_spec() -> bool {
        true
    }

    open spec fn from_spec(m: Move) -> u16 {
        pack_move(m)
    }
}

impl From<u16> for Move {
    fn from(x: u16) -> (r: Move) {
        if x == 0 {
            return Move::default();
        }
        let from = (x & 0x3f) as u8;
        let to = ((x >> 6u16) & 0x3f) as u8;
        let flags = x >> 12u16;
        let mut mov = Move::quiet(from, to);
        if flags >= 8 {
            let code = flags & 3;
            mov.promotion = Some(
                if code == 0 {
                    PieceKind::Knight
                } else if code == 1 {
                    PieceKind::Bishop
                } else if code == 2 {
                    PieceKind::Rook
                } else {
                    PieceKind::Queen
                },
            );
            if flags & 4 != 0 {
                mov.capture = true;
            }
        } else if flags == 5 {
            mov.capture = true;
            mov.en_passant = true;
        } else if flags == 4 {
            mov.capture = true;
        } else if flags == 2 || flags == 3 {
            mov.castle = true;
        } else if flags == 1 {
            mov.double_push = true;
        }
        mov
    }
}

impl vstd::std_specs::convert::FromSpecImpl<u16> for Move {
    open spec fn obeys_from_spec() -> bool {
        true
    }

    open spec fn from_spec(x: u16) -> Move {
        unpack_move(x)
    }
}

/// A piece of color `c` whose kind is a pawn is the pawn of that color.
pub proof fn lemma_own_piece(p: Piece, c: Color)
    requires
        piece_color(p) == Some(c),
        piece_kind(p).is_some(),
    ensures
        p == make_piece(piece_kind(p).unwrap(), c),
{
}

} // verus!
