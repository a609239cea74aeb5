use vstd::prelude::*;
use vstd::string::*;
use crate::board::Board;
use crate::fen::push_char;
use crate::movegen::{all_legal_ok, legal_ok};
use crate::perft::{counters_room, same_position};
use crate::types::{square_name, Move, PieceKind};

verus! {

pub open spec fn promo_letter(k: PieceKind) -> char {
    match k {
        PieceKind::Queen => 'q',
        PieceKind::Rook => 'r',
        PieceKind::Bishop => 'b',
        _ => 'n',
    }
}

/// Long algebraic text of a move: origin, destination, and the promotion
/// letter if any.
pub open spec fn uci_text(m: Move) -> Seq<char> {
    let base = square_name(m.from as int) + square_name(m.to as int);
    match m.promotion {
        Some(k) => base.push(promo_letter(k)),
        None => base,
    }
}

pub fn format_uci(m: Move) -> (r: String)
    requires
        m.from < 64,
        m.to < 64,
    ensures
        r@ == uci_text(m),
{
    let mut s = String::new();
    push_char(&mut s, crate::types::file_char(m.from as usize));
    push_char(&mut s, crate::types::rank_char(m.from as usize));
    push_char(&mut s, crate::types::file_char(m.to as usize));
    push_char(&mut s, crate::types::rank_char(m.to as usize));
    match m.promotion {
        Some(k) => {
            let c = match k {
                PieceKind::Queen => 'q',
                PieceKind::Rook => 'r',
                PieceKind::Bishop => 'b',
                _ => 'n',
            };
            push_char(&mut s, c);
        },
        None => {},
    }
    proof {
        assert(s@ =~= uci_text(m));
    }
    s
}

/// Finds the legal move whose text is `s`; None if none matches.
pub fn parse_uci_move(b: &mut Board, s: &str) -> (r: Option<Move>)
    requires
        old(b).wf(),
        counters_room(*old(b), 1),
    ensures
        same_position(*old(b), *final(b)),
        match r {
            Some(m) => legal_ok(*old(b), m) && uci_text(m) == s@,
            None => forall|m: Move| legal_ok(*old(b), m) ==> uci_text(m) != s@,
        },
{
    let ghost b_in = *b;
    let mut moves: Vec<Move> = Vec::new();
    b.generate_legal_moves(&mut moves);
    proof {
        crate::perft::lemma_same_fields(b_in, *b);
    }
    let text = String::from_str(s);
    let mut i: usize = 0;
    while i < moves.len()
        invariant
            i <= moves@.len(),
            all_legal_ok(b_in, moves@),
            text@ == s@,
            b_in == *old(b),
            same_position(b_in, *b),
            moves@ == crate::movelist::legal_list(b_in),
            forall|m: Move| #[trigger] moves@.contains(m) <==> legal_ok(b_in, m),
            forall|j: int| 0 <= j < i ==> uci_text(#[trigger] moves@[j]) != s@,
        decreases moves@.len() - i,
    {
        let m = moves[i];
        proof {
            assert(legal_ok(b_in, moves@[i as int]));
        }
        let t = format_uci(m);
        if t == text {
            return Some(m);
        }
        i += 1;
    }
    proof {
        assert forall|m: Move| legal_ok(b_in, m) implies uci_text(m) != s@ by {
            assert(moves@.contains(m));
            let j = choose|j: int| 0 <= j < moves@.len() && moves@[j] == m;
        }
    }
    None
}

} // verus!
