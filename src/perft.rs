use vstd::prelude::*;
use crate::board::Board;
use crate::makemove::lemma_apply_undo;
use crate::movegen::{all_legal_ok, legal_ok};
use crate::movelist::{
    child_rel, lemma_leaves_cong, leaves, legal_list, same_play, sat, sum_leaves,
};
use crate::types::Move;

verus! {

/// `b` stands as `a` did in every field that play reads.
#[verifier::opaque]
pub open spec fn same_position(a: Board, b: Board) -> bool {
    &&& b.wf()
    &&& b.zob == a.zob
    &&& b.piece_on == a.piece_on
    &&& b.piece_bb == a.piece_bb
    &&& b.w_pieces == a.w_pieces
    &&& b.b_pieces == a.b_pieces
    &&& b.all_pieces == a.all_pieces
    &&& b.turn == a.turn
    &&& b.castle == a.castle
    &&& b.en_passant_sq == a.en_passant_sq
    &&& b.halfmove_clock == a.halfmove_clock
    &&& b.fullmove_number == a.fullmove_number
    &&& b.zobrist == a.zobrist
    &&& b.history@ == a.history@
}

pub proof fn lemma_same_refl(a: Board)
    requires
        a.wf(),
    ensures
        same_position(a, a),
{
    reveal(same_position);
}

pub proof fn lemma_same_trans(a: Board, b: Board, c: Board)
    requires
        same_position(a, b),
        same_position(b, c),
    ensures
        same_position(a, c),
{
    reveal(same_position);
}

/// What a position that stands as another shares with it.
pub proof fn lemma_same_facts(a: Board, b: Board, m: Move, depth: int)
    requires
        same_position(a, b),
    ensures
        b.wf(),
        counters_room(a, depth) ==> counters_room(b, depth),
        legal_ok(a, m) ==> legal_ok(b, m),
        b.zobrist == a.zobrist,
        b.turn == a.turn,
{
    reveal(same_position);
}

/// The position after `generate_legal_moves` stands as before.
pub proof fn lemma_same_fields(a: Board, b: Board)
    requires
        b.wf(),
        b.zob == a.zob,
        b.piece_on == a.piece_on,
        b.piece_bb == a.piece_bb,
        b.w_pieces == a.w_pieces,
        b.b_pieces == a.b_pieces,
        b.all_pieces == a.all_pieces,
        b.turn == a.turn,
        b.castle == a.castle,
        b.en_passant_sq == a.en_passant_sq,
        b.halfmove_clock == a.halfmove_clock,
        b.fullmove_number == a.fullmove_number,
        b.zobrist == a.zobrist,
        b.history@ == a.history@,
    ensures
        same_position(a, b),
{
    reveal(same_position);
}

/// Room left in the move counters for `depth` more plies.
pub open spec fn counters_room(b: Board, depth: int) -> bool {
    &&& b.halfmove_clock + depth < 0x7fff_ffff
    &&& b.fullmove_number + depth < 0x7fff_ffff
}

/// The leaves below move `m` of `b` counted by `sum_leaves`.
pub open spec fn child_leaves(b: Board, m: Move, d: nat) -> nat {
    if exists|c: Board| child_rel(b, m, c) {
        leaves(choose|c: Board| child_rel(b, m, c), d)
    } else {
        0
    }
}

/// Leaves below legal move `m` of `b0`, with the position restored afterwards.
fn perft_child(b: &mut Board, m: Move, depth: usize, Ghost(b0): Ghost<Board>) -> (r: u64)
    requires
        same_position(b0, *old(b)),
        depth >= 2,
        counters_room(b0, depth as int + 1),
        legal_ok(b0, m),
    ensures
        same_position(b0, *final(b)),
        r == sat(child_leaves(b0, m, (depth - 1) as nat)),
    decreases depth, 0nat,
{
    proof {
        lemma_same_facts(b0, *b, m, depth as int + 1);
    }
    let ghost bi = *b;
    let u = b.make_move(m);
    let ghost after = *b;
    proof {
        reveal(same_position);
        crate::movegen::lemma_occupancy_union(after);
        assert(child_rel(b0, m, after));
        let x = choose|x: Board| child_rel(b0, m, x);
        assert(same_play(x, after)) by {
            crate::movelist::lemma_occ_unique_pub(x.all_pieces, after.all_pieces, x.piece_on@);
        }
        lemma_leaves_cong(x, after, (depth - 1) as nat);
    }
    let n = perft_inner(b, depth - 1);
    proof {
        reveal(same_position);
    }
    let ghost mid = *b;
    b.unmake_move(m, u);
    proof {
        lemma_apply_undo(bi, m, u, mid, *b);
        assert(b.piece_on == bi.piece_on);
        assert(b.piece_bb == bi.piece_bb);
        assert(b.zob == bi.zob);
        assert(b.history@ == bi.history@);
        assert(b.zobrist == bi.zobrist);
        lemma_same_fields(bi, *b);
        lemma_same_trans(b0, bi, *b);
    }
    n
}

fn perft_inner(b: &mut Board, depth: usize) -> (r: u64)
    requires
        old(b).wf(),
        counters_room(*old(b), depth as int + 1),
    ensures
        same_position(*old(b), *final(b)),
        r == sat(leaves(*old(b), depth as nat)),
    decreases depth, 1nat,
{
    proof {
        lemma_same_refl(*b);
    }
    if depth == 0 {
        return 1;
    }
    let ghost b_in = *b;
    let mut moves: Vec<Move> = Vec::new();
    b.generate_legal_moves(&mut moves);
    proof {
        lemma_same_fields(b_in, *b);
    }
    if depth == 1 {
        return moves.len() as u64;
    }
    let mut nodes: u64 = 0;
    let mut i: usize = 0;
    while i < moves.len()
        invariant
            i <= moves@.len(),
            depth >= 2,
            b_in == *old(b),
            same_position(b_in, *b),
            counters_room(b_in, depth as int + 1),
            all_legal_ok(b_in, moves@),
            moves@ == legal_list(b_in),
            nodes == sat(sum_leaves(b_in, moves@.take(i as int), (depth - 1) as nat)),
        decreases moves@.len() - i,
    {
        let m = moves[i];
        proof {
            assert(legal_ok(b_in, moves@[i as int]));
        }
        let n = perft_child(b, m, depth, Ghost(b_in));
        proof {
            let t = moves@.take(i as int + 1);
            assert(t.drop_last() =~= moves@.take(i as int));
            assert(t.last() == m);
            assert(sum_leaves(b_in, t, (depth - 1) as nat) == sum_leaves(
                b_in,
                moves@.take(i as int),
                (depth - 1) as nat,
            ) + child_leaves(b_in, m, (depth - 1) as nat));
        }
        nodes = if nodes <= u64::MAX - n {
            nodes + n
        } else {
            u64::MAX
        };
        i += 1;
    }
    proof {
        assert(moves@.take(moves@.len() as int) =~= moves@);
    }
    nodes
}

/// Number of leaves of the legal-move tree of depth `depth`.
pub fn perft(b: &mut Board, depth: usize) -> (r: u64)
    requires
        old(b).wf(),
        counters_room(*old(b), depth as int + 1),
    ensures
        same_position(*old(b), *final(b)),
        r == sat(leaves(*old(b), depth as nat)),
        depth == 0 ==> r == 1,
        depth == 1 ==> r == sat(legal_list(*old(b)).len()),
{
    perft_inner(b, depth)
}

} // verus!
