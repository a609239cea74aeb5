use vstd::prelude::*;
use crate::board::Board;
use crate::eval::evaluate_cached;
use crate::clock::{elapsed_ms, now};
use crate::pawn_hash::PawnTable;
use std::sync::atomic::{AtomicBool, Ordering};
use std::sync::Arc;
use std::time::Instant;
use crate::see::see;
use crate::makemove::lemma_apply_undo;
use crate::movegen::{all_legal_ok, legal_ok};
use crate::perft::{
    counters_room, lemma_same_facts, lemma_same_fields, lemma_same_refl, lemma_same_trans,
    same_position,
};
use crate::board::{attacked_by, repetitions};
use crate::movegen::{in_check_spec, king_at};
use crate::movelist::{child_rel, legal_list, mates, same_play};

use crate::eval::eval_spec;
use crate::score::{clamp_eval, clamp_spec, mate_load, mate_store, MATE};
use crate::tt::{Bound, TransTable};
use crate::types::{opposite, Move, PieceKind};

verus! {

/// Deepest ply the search reaches, quiescence included.
pub const MAX_SEARCH_PLY: i32 = 96;

/// Deepest nominal depth a search may be asked for.
pub const MAX_DEPTH: i32 = 64;

/// Half-width of the aspiration window, in centipawns.
pub const ASPIRATION_WINDOW: i32 = 35;

/// Per-search state: the table, node counting and the stop decision.
pub struct Search {
    pub tt: TransTable,
    pub nodes: u64,
    pub node_limit: u64,
    pub stopped: bool,
    pub seldepth: i32,
    /// Two killer moves per ply.
    pub killers: Vec<Move>,
    /// Quiet-cutoff history, indexed by piece index * 64 + destination.
    pub history: Vec<i32>,
    /// Best quiet reply to a move, indexed by the moved piece's index * 64
    /// + its destination.
    pub counter_moves: Vec<Move>,
    /// The move played at each ply of the current line.
    pub path: Vec<Move>,
    /// Pawn-structure cache used by the evaluation.
    pub pawns: PawnTable,
    /// When the search started, and its wall-clock budget in milliseconds.
    pub start: Instant,
    pub time_budget_ms: u64,
    /// Cooperative stop signal shared with the front-end (and other searchers).
    pub stop_flag: Arc<AtomicBool>,
    /// Only the main searcher watches the clock; others watch the flag.
    pub is_main: bool,
    /// Depth of the last iteration `best_move` completed.
    pub completed_depth: i32,
    /// (depth, score) of each iteration `best_move` completed, in order.
    pub iterations: Vec<(i32, i32)>,
}

/// Nodes between two looks at the clock and the stop flag.
pub const CHECK_INTERVAL: u64 = 4096;

/// Futility margin per remaining depth.
pub const FUTILITY_MARGIN: i32 = 150;

/// Ceiling of a history counter.
pub const HISTORY_MAX: i32 = 1_000_000;

pub open spec fn score_ok(s: int) -> bool {
    -MATE <= s <= MATE
}

/// `n` quiet placeholder moves.
fn quiet_moves(n: usize) -> (r: Vec<Move>)
    ensures
        r@.len() == n,
{
    let mut v: Vec<Move> = Vec::new();
    let mut i: usize = 0;
    while i < n
        invariant
            v@.len() == i,
            i <= n,
        decreases n - i,
    {
        v.push(Move::quiet(0, 0));
        i += 1;
    }
    v
}

/// The stop decision at a node, given the node count after counting it, the
/// elapsed time and the shared flag (both as read at a check interval): stop
/// once the node budget is spent; at each check interval the main searcher
/// raises the flag when its time is spent, and any searcher stops when the
/// flag is (or is being) raised.  Returns (stop, raise).
pub fn stop_decision(
    nodes: u64,
    node_limit: u64,
    is_main: bool,
    elapsed_ms: u64,
    budget_ms: u64,
    flag: bool,
) -> (r: (bool, bool))
    ensures
        r.1 == (nodes % CHECK_INTERVAL == 0 && is_main && elapsed_ms >= budget_ms),
        r.0 == (nodes >= node_limit || (nodes % CHECK_INTERVAL == 0 && (r.1 || flag))),
{
    let at_check = nodes % CHECK_INTERVAL == 0;
    let raise = at_check && is_main && elapsed_ms >= budget_ms;
    (nodes >= node_limit || (at_check && (raise || flag)), raise)
}

impl Search {
    pub open spec fn wf(&self) -> bool {
        &&& self.tt.wf()
        &&& self.killers@.len() == 2 * (MAX_SEARCH_PLY + 1)
        &&& self.counter_moves@.len() == 832
        &&& self.path@.len() == MAX_SEARCH_PLY + 1
        &&& self.history@.len() == 832
        &&& self.pawns.wf()
    }

    /// A searcher with a node budget only (no clock, its own stop flag).
    pub fn new(tt: TransTable, node_limit: u64) -> (r: Search)
        requires
            tt.wf(),
        ensures
            r.wf(),
            r.nodes == 0,
            r.node_limit == node_limit,
            !r.stopped,
            r.time_budget_ms == u64::MAX,
    {
        Search::with_clock(tt, node_limit, u64::MAX, Arc::new(AtomicBool::new(false)), true)
    }

    /// A searcher with a node budget, a wall-clock budget (watched by the main
    /// searcher every `CHECK_INTERVAL` nodes), and a shared stop flag.
    pub fn with_clock(
        tt: TransTable,
        node_limit: u64,
        time_budget_ms: u64,
        stop_flag: Arc<AtomicBool>,
        is_main: bool,
    ) -> (r: Search)
        requires
            tt.wf(),
        ensures
            r.wf(),
            r.nodes == 0,
            r.node_limit == node_limit,
            r.time_budget_ms == time_budget_ms,
            r.is_main == is_main,
            !r.stopped,
    {
        let killers = quiet_moves(2 * (MAX_SEARCH_PLY as usize + 1));
        let counter_moves = quiet_moves(832);
        let path = quiet_moves(MAX_SEARCH_PLY as usize + 1);
        let mut history: Vec<i32> = Vec::new();
        let mut j: usize = 0;
        while j < 832
            invariant
                history@.len() == j,
                j <= 832,
            decreases 832 - j,
        {
            history.push(0);
            j += 1;
        }
        Search {
            tt,
            nodes: 0,
            node_limit,
            stopped: false,
            seldepth: 0,
            killers,
            history,
            counter_moves,
            path,
            pawns: PawnTable::with_bits(14),
            start: now(),
            time_budget_ms,
            stop_flag,
            is_main,
            completed_depth: 0,
            iterations: Vec::new(),
        }
    }

    /// Records a quiet move that caused a cutoff: as the first killer of its
    /// ply (the old first becomes second) and in the history by depth squared.
    fn record_quiet_cutoff(&mut self, b: &Board, m: Move, depth: i32, ply: i32, ckey: Option<usize>)
        requires
            old(self).wf(),
            0 <= ply <= MAX_SEARCH_PLY,
            1 <= depth <= MAX_DEPTH,
            m.from < 64,
            m.to < 64,
        ensures
            final(self).wf(),
            final(self).tt == old(self).tt,
            final(self).stopped == old(self).stopped,
            final(self).killers@[2 * ply as int] == m,
    {
        let k = 2 * ply as usize;
        if self.killers[k] != m {
            let first = self.killers[k];
            self.killers.set(k + 1, first);
            self.killers.set(k, m);
        }
        let idx = b.piece_on[m.from as usize].index() * 64 + m.to as usize;
        proof {
            assert(depth * depth <= 4096) by (nonlinear_arith)
                requires
                    1 <= depth <= 64,
            ;
        }
        let bump = depth * depth;
        let h = self.history[idx];
        let nh = if h > HISTORY_MAX - bump {
            HISTORY_MAX
        } else {
            h + bump
        };
        self.history.set(idx, nh);
        match ckey {
            Some(k) => {
                if k < 832 {
                    self.counter_moves.set(k, m);
                }
            },
            None => {},
        }
    }

    /// The counter-move slot of the previous move of the line at `ply`: the
    /// piece now on its destination, and that destination.
    fn counter_key(&self, b: &Board, ply: i32) -> (r: Option<usize>)
        requires
            self.wf(),
            0 <= ply <= MAX_SEARCH_PLY,
        ensures
            match r {
                Some(k) => k < 832,
                None => true,
            },
    {
        if ply == 0 {
            return None;
        }
        let prev = self.path[(ply - 1) as usize];
        if prev.to >= 64 {
            return None;
        }
        Some(b.piece_on[prev.to as usize].index() * 64 + prev.to as usize)
    }

    /// Counts a node and decides whether to stop: once the node budget is
    /// spent, or, every `CHECK_INTERVAL` nodes, when the main searcher finds
    /// its time spent (it then raises the shared flag) or the flag is raised.
    fn tick(&mut self) -> (stop: bool)
        requires
            old(self).wf(),
        ensures
            final(self).wf(),
            final(self).tt == old(self).tt,
            stop == final(self).stopped,
            old(self).stopped ==> final(self).stopped,
            old(self).nodes < u64::MAX ==> final(self).nodes == old(self).nodes + 1,
            final(self).nodes >= final(self).node_limit ==> final(self).stopped,
            final(self).node_limit == old(self).node_limit,
            final(self).nodes >= old(self).nodes,
    {
        if self.nodes < u64::MAX {
            self.nodes = self.nodes + 1;
        }
        let at_check = self.nodes % CHECK_INTERVAL == 0;
        let elapsed = if at_check && self.is_main {
            elapsed_ms(&self.start)
        } else {
            0
        };
        let flag = if at_check {
            self.stop_flag.load(Ordering::Relaxed)
        } else {
            false
        };
        let (stop, raise) = stop_decision(
            self.nodes,
            self.node_limit,
            self.is_main,
            elapsed,
            self.time_budget_ms,
            flag,
        );
        if raise {
            self.stop_flag.store(true, Ordering::Relaxed);
        }
        if stop {
            self.stopped = true;
        }
        self.stopped
    }

    /// Plays legal move `m` of `b0`, scores the child from its own side,
    /// takes the move back.
    fn child_score(
        &mut self,
        b: &mut Board,
        m: Move,
        depth: i32,
        alpha: i32,
        beta: i32,
        ply: i32,
        quiet_search: bool,
        Ghost(b0): Ghost<Board>,
    ) -> (r: i32)
        requires
            old(self).wf(),
            same_position(b0, *old(b)),
            legal_ok(b0, m),
            0 <= ply < MAX_SEARCH_PLY,
            counters_room(b0, (MAX_SEARCH_PLY - ply + 2) as int),
            -MATE <= alpha < beta <= MATE,
            -MAX_DEPTH <= depth <= MAX_DEPTH,
        ensures
            final(self).wf(),
            same_position(b0, *final(b)),
            score_ok(r as int),
            old(self).stopped ==> final(self).stopped,
        decreases MAX_SEARCH_PLY - ply, 0nat,
    {
        proof {
            lemma_same_facts(b0, *b, m, (MAX_SEARCH_PLY - ply + 2) as int);
        }
        let ghost bi = *b;
        self.path.set(ply as usize, m);
        let u = b.make_move(m);
        let s = if quiet_search {
            self.quiesce(b, -beta, -alpha, ply + 1)
        } else {
            self.negamax(b, depth, -beta, -alpha, ply + 1)
        };
        proof {
            reveal(same_position);
        }
        let ghost mid = *b;
        b.unmake_move(m, u);
        proof {
            lemma_apply_undo(bi, m, u, mid, *b);
            assert(b.piece_on == bi.piece_on);
            assert(b.piece_bb == bi.piece_bb);
            assert(b.zob == bi.zob);
            assert(b.history@ == bi.history@);
            assert(b.zobrist == bi.zobrist);
            lemma_same_fields(bi, *b);
            lemma_same_trans(b0, bi, *b);
        }
        -s
    }

    /// Captures and promotions only, from a stand-pat score, until quiet.
    #[verifier::rlimit(100)]
    pub fn quiesce(&mut self, b: &mut Board, alpha: i32, beta: i32, ply: i32) -> (r: i32)
        requires
            old(self).wf(),
            old(b).wf(),
            0 <= ply <= MAX_SEARCH_PLY,
            counters_room(*old(b), (MAX_SEARCH_PLY - ply + 2) as int),
            -MATE <= alpha < beta <= MATE,
        ensures
            final(self).wf(),
            same_position(*old(b), *final(b)),
            score_ok(r as int),
            old(self).stopped ==> final(self).stopped && r == 0,
            old(self).nodes < u64::MAX && old(self).nodes + 1 >= old(self).node_limit
                ==> final(self).stopped && r == 0,
            !final(self).stopped ==> ({
                let sp = eval_spec(old(b).piece_on@, old(b).all_pieces, old(b).castle, old(b).turn);
                &&& (alpha as int) <= r <= beta
                &&& sp < beta ==> sp <= r
                &&& sp >= beta ==> r == beta
                &&& (sp < beta && forall|m: Move|
                    #![trigger legal_ok(*old(b), m)]
                    legal_ok(*old(b), m) ==> !m.capture && m.promotion.is_none()) ==> r == if sp
                    > alpha {
                    sp
                } else {
                    alpha as int
                }
            }),
        decreases MAX_SEARCH_PLY - ply, 1nat,
    {
        proof {
            lemma_same_refl(*b);
        }
        let ghost b_in = *b;
        if ply > self.seldepth {
            self.seldepth = ply;
        }
        if self.tick() {
            return 0;
        }
        let stand_pat = evaluate_cached(b, &mut self.pawns);
        if stand_pat >= beta {
            return beta;
        }
        let mut a = if stand_pat > alpha {
            stand_pat
        } else {
            alpha
        };
        if ply >= MAX_SEARCH_PLY {
            return a;
        }
        let mut moves: Vec<Move> = Vec::new();
        b.generate_legal_moves(&mut moves);
        let ghost b0 = *b;
        proof {
            lemma_same_fields(b_in, b0);
            lemma_same_refl(b0);
        }
        let mut i: usize = 0;
        while i < moves.len()
            invariant
                self.wf(),
                i <= moves@.len(),
                b_in == *old(b),
                same_position(b_in, b0),
                same_position(b0, *b),
                0 <= ply < MAX_SEARCH_PLY,
                counters_room(b0, (MAX_SEARCH_PLY - ply + 2) as int),
                all_legal_ok(b0, moves@),
                alpha <= a < beta <= MATE,
                stand_pat <= a,
                stand_pat == eval_spec(b_in.piece_on@, b_in.all_pieces, b_in.castle, b_in.turn),
                stand_pat < beta,
                forall|m: Move| #[trigger] moves@.contains(m) <==> legal_ok(b_in, m),
                (forall|j: int| 0 <= j < i ==> !(#[trigger] moves@[j]).capture && moves@[j].promotion.is_none())
                    ==> a == if stand_pat > alpha {
                    stand_pat
                } else {
                    alpha
                },
                -MATE <= alpha,
                !self.stopped,
                !old(self).stopped,
                !(old(self).nodes < u64::MAX && old(self).nodes + 1 >= old(self).node_limit),
            decreases moves@.len() - i,
        {
            let m = moves[i];
            proof {
                assert(legal_ok(b0, moves@[i as int]));
                lemma_same_facts(b0, *b, m, 0);
            }
            let losing = m.capture && m.promotion.is_none() && see(b, m) < 0;
            if (m.capture || m.promotion.is_some()) && !losing {
                let s = self.child_score(b, m, 0, a, beta, ply, true, Ghost(b0));
                proof {
                    lemma_same_trans(b_in, b0, *b);
                    assert(moves@.contains(m));
                    assert(legal_ok(b_in, m));
                }
                if self.stopped {
                    return 0;
                }
                if s >= beta {
                    return beta;
                }
                if s > a {
                    a = s;
                }
            }
            i += 1;
        }
        proof {
            lemma_same_trans(b_in, b0, *b);
            if forall|m: Move| #![trigger legal_ok(b_in, m)] legal_ok(b_in, m) ==> !m.capture && m.promotion.is_none() {
                assert forall|j: int| 0 <= j < moves@.len() implies !(#[trigger] moves@[j]).capture
                    && moves@[j].promotion.is_none() by {
                    assert(moves@.contains(moves@[j]));
                    assert(legal_ok(b_in, moves@[j]));
                }
            }
        }
        a
    }

    /// Negamax with alpha-beta from the side to move's point of view.
    #[verifier::rlimit(100)]
    pub fn negamax(&mut self, b: &mut Board, depth: i32, alpha: i32, beta: i32, ply: i32) -> (r:
        i32)
        requires
            old(self).wf(),
            old(b).wf(),
            0 <= ply <= MAX_SEARCH_PLY,
            counters_room(*old(b), (MAX_SEARCH_PLY - ply + 2) as int),
            -MATE <= alpha < beta <= MATE,
            -MAX_DEPTH <= depth <= MAX_DEPTH,
        ensures
            final(self).wf(),
            same_position(*old(b), *final(b)),
            score_ok(r as int),
            old(self).stopped ==> final(self).stopped && r == 0,
            old(self).nodes < u64::MAX && old(self).nodes + 1 >= old(self).node_limit
                ==> final(self).stopped && r == 0,
            !final(self).stopped && ply > 0 && (old(b).halfmove_clock >= 100 || repetitions(
                old(b).history@,
                old(b).zobrist,
                old(b).halfmove_clock as int,
            ) >= 2) ==> r == 0,
            !final(self).stopped && beta - alpha > 1 && ply < MAX_SEARCH_PLY && depth >= 1 && !(ply
                > 0 && (old(b).halfmove_clock >= 100 || repetitions(
                old(b).history@,
                old(b).zobrist,
                old(b).halfmove_clock as int,
            ) >= 2)) && crate::tt::first_with_key(
                old(self).tt.slots@[old(self).tt.index_of(old(b).zobrist)].entries@,
                old(b).zobrist,
                0,
            ) == 4 && crate::movelist::legal_list(*old(b)).len() == 0 ==> r == if in_check_spec(
                *old(b),
            ) {
                -MATE + ply
            } else {
                0
            },
        decreases MAX_SEARCH_PLY - ply, 2nat,
    {
        proof {
            lemma_same_refl(*b);
        }
        let ghost b_in = *b;
        if self.tick() {
            return 0;
        }
        if ply > 0 && (b.halfmove_clock >= 100 || b.is_draw_by_repetition()) {
            return 0;
        }
        if ply >= MAX_SEARCH_PLY {
            return clamp_eval(evaluate_cached(b, &mut self.pawns));
        }
        let in_check = b.in_check();
        let depth = if in_check && depth < MAX_DEPTH {
            depth + 1
        } else {
            depth
        };
        if depth <= 0 {
            return self.quiesce(b, alpha, beta, ply);
        }
        let key = b.zobrist;
        let mut tt_move: Option<Move> = None;
        match self.tt.probe(key) {
            Some(e) => {
                let stored = e.score();
                if e.depth() as i32 >= depth && -(MATE + 512) <= stored && stored <= MATE + 512 {
                    let loaded = mate_load(stored, ply);
                    let s = if loaded > MATE {
                        MATE
                    } else if loaded < -MATE {
                        -MATE
                    } else {
                        loaded
                    };
                    match e.bound() {
                        Bound::Exact => {
                            return s;
                        },
                        Bound::Lower => {
                            if s >= beta {
                                return s;
                            }
                        },
                        Bound::Upper => {
                            if s <= alpha {
                                return s;
                            }
                        },
                    }
                }
                tt_move = e.best_move();
            },
            None => {},
        }
        let pv_node = beta - alpha > 1;
        if !in_check && !pv_node && depth <= 2 && ply > 0 {
            let static_eval = clamp_eval(evaluate_cached(b, &mut self.pawns));
            if static_eval - FUTILITY_MARGIN * depth >= beta {
                return beta;
            }
        }
        if !in_check && !pv_node && depth >= 3 && ply > 0 && self.has_pieces(b) {
            self.path.set(ply as usize, Move::quiet(0, 0));
            let u = b.make_null_move();
            let s = self.negamax(b, depth - 3, -beta, -beta + 1, ply + 1);
            proof {
                reveal(same_position);
            }
            b.unmake_null_move(u);
            proof {
                assert(b.history@ =~= b_in.history@);
                assert(b.piece_on == b_in.piece_on);
                lemma_same_fields(b_in, *b);
            }
            if self.stopped {
                return 0;
            }
            if -s >= beta {
                return beta;
            }
        }
        let mut moves: Vec<Move> = Vec::new();
        let ghost bg = *b;
        b.generate_legal_moves(&mut moves);
        proof {
            lemma_same_fields(b_in, *b);
            reveal(same_position);
            crate::movelist::lemma_legal_cong(b_in, bg);
        }
        if moves.len() == 0 {
            return if in_check {
                -MATE + ply
            } else {
                0
            };
        }
        proof {
            assert(crate::movelist::legal_list(*old(b)) == moves@);
            lemma_same_fields(b_in, *b);
            reveal(same_position);
        }
        let ghost b1 = *b;
        let r = self.search_moves(b, moves, tt_move, depth, alpha, beta, ply, key, pv_node, in_check);
        proof {
            lemma_same_trans(b_in, b1, *b);
        }
        r
    }
    /// The move loop of a node: principal-variation search over the legal
    /// moves with late-move pruning and reductions, killer and history
    /// updates on quiet cutoffs, and the table store.
    #[verifier::rlimit(100)]
    fn search_moves(
        &mut self,
        b: &mut Board,
        moves: Vec<Move>,
        tt_move: Option<Move>,
        depth: i32,
        alpha: i32,
        beta: i32,
        ply: i32,
        key: u64,
        pv_node: bool,
        in_check: bool,
    ) -> (r: i32)
        requires
            old(self).wf(),
            old(b).wf(),
            moves@.len() > 0,
            all_legal_ok(*old(b), moves@),
            0 <= ply < MAX_SEARCH_PLY,
            counters_room(*old(b), (MAX_SEARCH_PLY - ply + 2) as int),
            -MATE <= alpha < beta <= MATE,
            1 <= depth <= MAX_DEPTH,
        ensures
            final(self).wf(),
            same_position(*old(b), *final(b)),
            score_ok(r as int),
            old(self).stopped ==> final(self).stopped,
        decreases MAX_SEARCH_PLY - ply, 1nat,
    {
        let mut moves = moves;
        let ghost b_in = *b;
        let ghost b0 = *b;
        let k0 = self.killers[2 * ply as usize];
        let k1 = self.killers[2 * ply as usize + 1];
        let ckey = self.counter_key(b, ply);
        let cm = match ckey {
            Some(k) => Some(self.counter_moves[k]),
            None => None,
        };
        proof {
            assert forall|i: int| 0 <= i < moves@.len() implies (#[trigger] moves@[i]).from < 64
                && moves@[i].to < 64 by {
                assert(legal_ok(b0, moves@[i]));
            }
        }
        self.order_moves(b, &mut moves, tt_move, k0, k1, cm, Ghost(b0));
        proof {
            lemma_same_refl(b0);
        }
        let mut a = alpha;
        let mut best = -MATE;
        let mut best_move = moves[0];
        let mut i: usize = 0;
        while i < moves.len()
            invariant
                self.wf(),
                i <= moves@.len(),
                moves@.len() > 0,
                b_in == *old(b),
                same_position(b_in, b0),
                same_position(b0, *b),
                0 <= ply < MAX_SEARCH_PLY,
                counters_room(b0, (MAX_SEARCH_PLY - ply + 2) as int),
                all_legal_ok(b0, moves@),
                alpha <= a < beta <= MATE,
                -MATE <= alpha,
                -MATE <= best <= MATE,
                1 <= depth <= MAX_DEPTH,
                old(self).stopped ==> self.stopped,
            decreases moves@.len() - i,
        {
            let m = moves[i];
            proof {
                assert(legal_ok(b0, moves@[i as int]));
            }
            let quiet = !m.capture && m.promotion.is_none();
            if quiet && !pv_node && !in_check && depth <= 2 && i >= 8 + 4 * depth as usize {
                i += 1;
                continue ;
            }
            let mut s: i32;
            if i == 0 {
                s = self.child_score(b, m, depth - 1, a, beta, ply, false, Ghost(b0));
            } else {
                let scout_hi = a + 1;
                let reduced = quiet && !in_check && depth >= 3 && i >= 3;
                let scout_depth = if reduced {
                    depth - 1 - if i >= 6 {
                        2
                    } else {
                        1
                    }
                } else {
                    depth - 1
                };
                s = self.child_score(b, m, scout_depth, a, scout_hi, ply, false, Ghost(b0));
                if reduced && s > a && !self.stopped {
                    s = self.child_score(b, m, depth - 1, a, scout_hi, ply, false, Ghost(b0));
                }
                if s > a && s < beta && !self.stopped {
                    s = self.child_score(b, m, depth - 1, a, beta, ply, false, Ghost(b0));
                }
            }
            proof {
                lemma_same_trans(b_in, b0, *b);
            }
            if self.stopped {
                return 0;
            }
            if s > best {
                best = s;
                best_move = m;
            }
            if s > a {
                if s >= beta {
                    if quiet {
                        self.record_quiet_cutoff(b, m, depth, ply, ckey);
                    }
                    self.tt.store(key, depth as i16, mate_store(s, ply), Bound::Lower, Some(m));
                    return s;
                }
                a = s;
            }
            i += 1;
        }
        proof {
            lemma_same_trans(b_in, b0, *b);
        }
        let bound = if best <= alpha {
            Bound::Upper
        } else {
            Bound::Exact
        };
        self.tt.store(key, depth as i16, mate_store(best, ply), bound, Some(best_move));
        best
    }


    pub open spec fn order_score(
        &self,
        b: &Board,
        m: Move,
        tt_move: Option<Move>,
        k0: Move,
        k1: Move,
        cm: Option<Move>,
    ) -> int {
        if tt_move == Some(m) {
            2_000_000
        } else if m.capture {
            let s = crate::see::see_spec(*b, m);
            let x = if s > 100_000 {
                100_000
            } else if s < -100_000 {
                -100_000
            } else {
                s
            };
            if x >= 0 {
                1_500_000 + x
            } else {
                -1_500_000 + x
            }
        } else if m == k0 {
            1_200_000
        } else if m == k1 {
            1_100_000
        } else if cm == Some(m) {
            1_050_000
        } else {
            let h = self.history@[crate::types::piece_index(b.piece_on@[m.from as int]) * 64 + m.to];
            if h > HISTORY_MAX {
                HISTORY_MAX as int
            } else if h < 0 {
                0
            } else {
                h as int
            }
        }
    }

    /// Ordering score of a move: the table move first, then captures that
    /// do not lose material (by exchange value, then victim), then the two
    /// killers, then the counter move to the previous move, then quiet moves
    /// by history, then losing captures.
    pub fn score_move(
        &self,
        b: &Board,
        m: Move,
        tt_move: Option<Move>,
        k0: Move,
        k1: Move,
        cm: Option<Move>,
    ) -> (r: i32)
        requires
            self.wf(),
            m.from < 64,
            m.to < 64,
        ensures
            r == self.order_score(b, m, tt_move, k0, k1, cm),
    {
        match tt_move {
            Some(t) => {
                if t == m {
                    return 2_000_000;
                }
            },
            None => {},
        }
        if m.capture {
            let x = see(b, m);
            let x = if x > 100_000 {
                100_000
            } else if x < -100_000 {
                -100_000
            } else {
                x
            };
            if x >= 0 {
                1_500_000 + x
            } else {
                -1_500_000 + x
            }
        } else if m == k0 {
            1_200_000
        } else if m == k1 {
            1_100_000
        } else if match cm {
            Some(c) => c == m,
            None => false,
        } {
            1_050_000
        } else {
            let h = self.history[b.piece_on[m.from as usize].index() * 64 + m.to as usize];
            if h > HISTORY_MAX {
                HISTORY_MAX
            } else if h < 0 {
                0
            } else {
                h
            }
        }
    }

    /// Sorts the moves by `score_move`, highest first; the moves themselves
    /// are kept.
    fn order_moves(
        &self,
        b: &Board,
        moves: &mut Vec<Move>,
        tt_move: Option<Move>,
        k0: Move,
        k1: Move,
        cm: Option<Move>,
        Ghost(b0): Ghost<Board>,
    )
        requires
            self.wf(),
            all_legal_ok(b0, old(moves)@),
            forall|i: int| 0 <= i < old(moves)@.len() ==> (#[trigger] old(moves)@[i]).from < 64 && old(moves)@[i].to < 64,
        ensures
            all_legal_ok(b0, final(moves)@),
            final(moves)@.len() == old(moves)@.len(),
    {
        let n = moves.len();
        let mut scores: Vec<i32> = Vec::new();
        let mut i: usize = 0;
        while i < n
            invariant
                i <= n,
                n == moves@.len(),
                scores@.len() == i,
                self.wf(),
                forall|j: int| 0 <= j < moves@.len() ==> (#[trigger] moves@[j]).from < 64 && moves@[j].to < 64,
            decreases n - i,
        {
            scores.push(self.score_move(b, moves[i], tt_move, k0, k1, cm));
            i += 1;
        }
        let mut i: usize = 0;
        while i < n
            invariant
                i <= n,
                n == moves@.len(),
                n == old(moves)@.len(),
                scores@.len() == n,
                all_legal_ok(b0, moves@),
            decreases n - i,
        {
            let mut best = i;
            let mut j = i + 1;
            while j < n
                invariant
                    i < n,
                    i <= best < n,
                    i < j <= n,
                    scores@.len() == n,
                decreases n - j,
            {
                if scores[j] > scores[best] {
                    best = j;
                }
                j += 1;
            }
            if best != i {
                swap(moves, i, best, Ghost(b0));
                let si = scores[i];
                let sb = scores[best];
                scores.set(i, sb);
                scores.set(best, si);
            }
            i += 1;
        }
    }

    /// The side to move has a piece other than pawns and king.
    fn has_pieces(&self, b: &Board) -> (r: bool) {
        let mut sq: usize = 0;
        while sq < 64
            invariant
                sq <= 64,
            decreases 64 - sq,
        {
            let p = b.piece_on[sq];
            if p.color() == Some(b.turn) {
                match p.kind() {
                    Some(PieceKind::Pawn) | Some(PieceKind::King) | None => {},
                    _ => {
                        return true;
                    },
                }
            }
            sq += 1;
        }
        false
    }
}

fn swap(v: &mut Vec<Move>, i: usize, j: usize, Ghost(b): Ghost<Board>)
    requires
        i < old(v)@.len(),
        j < old(v)@.len(),
        all_legal_ok(b, old(v)@),
    ensures
        all_legal_ok(b, final(v)@),
        final(v)@.len() == old(v)@.len(),
{
    let a = v[i];
    let c = v[j];
    proof {
        assert(legal_ok(b, old(v)@[i as int]));
        assert(legal_ok(b, old(v)@[j as int]));
    }
    v.set(i, c);
    v.set(j, a);
    proof {
        assert forall|k: int| 0 <= k < v@.len() implies legal_ok(b, #[trigger] v@[k]) by {
            if k != i && k != j {
                assert(v@[k] == old(v)@[k]);
            }
        }
    }
}

/// Plays legal move `m` of `b0`, tests whether it mates at once, and takes
/// it back.
fn gives_mate(b: &mut Board, m: Move, Ghost(b0): Ghost<Board>) -> (r: bool)
    requires
        same_position(b0, *old(b)),
        legal_ok(b0, m),
        counters_room(b0, 2),
    ensures
        same_position(b0, *final(b)),
        r == mates(b0, m),
{
    proof {
        lemma_same_facts(b0, *b, m, 2);
    }
    let ghost bi = *b;
    let u = b.make_move(m);
    let ghost after = *b;
    proof {
        reveal(same_position);
        crate::movegen::lemma_occupancy_union(after);
        assert(child_rel(b0, m, after));
    }
    let mut replies: Vec<Move> = Vec::new();
    b.generate_legal_moves(&mut replies);
    let checked = b.in_check();
    let r = replies.len() == 0 && checked;
    proof {
        assert(replies@ == legal_list(after));
        assert(checked == in_check_spec(after));
        if r {
            assert(child_rel(b0, m, after) && legal_list(after).len() == 0 && in_check_spec(after));
        }
        if mates(b0, m) {
            let c = choose|c: Board|
                #![trigger child_rel(b0, m, c)]
                child_rel(b0, m, c) && legal_list(c).len() == 0 && in_check_spec(c);
            crate::movelist::lemma_occ_unique_pub(c.all_pieces, after.all_pieces, c.piece_on@);
            assert(same_play(c, after));
            crate::movelist::lemma_legal_cong(c, after);
        }
    }
    let ghost mid = *b;
    b.unmake_move(m, u);
    proof {
        lemma_apply_undo(bi, m, u, mid, *b);
        assert(b.piece_on == bi.piece_on);
        assert(b.piece_bb == bi.piece_bb);
        assert(b.zob == bi.zob);
        assert(b.history@ == bi.history@);
        assert(b.zobrist == bi.zobrist);
        lemma_same_fields(bi, *b);
        lemma_same_trans(b0, bi, *b);
    }
    r
}

/// The first move of `moves` that mates at once, if any.
fn find_mate(b: &mut Board, moves: &Vec<Move>, Ghost(b0): Ghost<Board>) -> (r: Option<Move>)
    requires
        same_position(b0, *old(b)),
        counters_room(b0, 2),
        forall|m: Move| #[trigger] moves@.contains(m) <==> legal_ok(b0, m),
    ensures
        same_position(b0, *final(b)),
        match r {
            Some(m) => mates(b0, m),
            None => forall|m: Move| !mates(b0, m),
        },
{
    let mut i: usize = 0;
    while i < moves.len()
        invariant
            i <= moves@.len(),
            same_position(b0, *b),
            counters_room(b0, 2),
            forall|m: Move| #[trigger] moves@.contains(m) <==> legal_ok(b0, m),
            forall|j: int| 0 <= j < i ==> !mates(b0, #[trigger] moves@[j]),
        decreases moves@.len() - i,
    {
        let m = moves[i];
        proof {
            assert(moves@.contains(m));
        }
        if gives_mate(b, m, Ghost(b0)) {
            return Some(m);
        }
        i += 1;
    }
    proof {
        assert forall|m: Move| !mates(b0, m) by {
            if mates(b0, m) {
                assert(moves@.contains(m));
                let j = choose|j: int| 0 <= j < moves@.len() && moves@[j] == m;
            }
        }
    }
    None
}

/// The move the table holds for key `key`, if any.
pub open spec fn tt_move_for(tt: TransTable, key: u64) -> Option<Move> {
    let e = tt.slots@[tt.index_of(key)].entries@;
    let k = crate::tt::first_with_key(e, key, 0);
    if k < 4 && crate::tt::entry_move_bits(e[k].data) != 0 {
        Some(crate::types::unpack_move(crate::tt::entry_move_bits(e[k].data)))
    } else {
        None
    }
}

/// One step of the principal variation: the table move of `b` when it is
/// legal there.
pub open spec fn pv_step(tt: TransTable, b: Board) -> Option<Move> {
    match tt_move_for(tt, b.zobrist) {
        Some(m) => if legal_ok(b, m) {
            Some(m)
        } else {
            None
        },
        None => None,
    }
}

/// `c` stands as the position after move `m` of `b`, hash included.
pub open spec fn pv_child_rel(b: Board, m: Move, c: Board) -> bool {
    child_rel(b, m, c) && c.zobrist == crate::board::position_hash(
        c.piece_on@,
        c.castle,
        c.en_passant_sq,
        c.turn,
    )
}

/// The principal variation of at most `n` moves: each the legal table move
/// of the position reached, the walk stopping where there is none.
pub open spec fn pv_line(tt: TransTable, b: Board, n: nat) -> Seq<Move>
    decreases n,
{
    if n == 0 {
        seq![]
    } else {
        match pv_step(tt, b) {
            None => seq![],
            Some(m) => if exists|c: Board| pv_child_rel(b, m, c) {
                seq![m] + pv_line(tt, choose|c: Board| pv_child_rel(b, m, c), (n - 1) as nat)
            } else {
                seq![m]
            },
        }
    }
}

proof fn lemma_pv_cong(tt: TransTable, a: Board, c: Board, n: nat)
    requires
        same_play(a, c),
        a.zobrist == c.zobrist,
    ensures
        pv_line(tt, a, n) == pv_line(tt, c, n),
    decreases n,
{
    if n > 0 {
        assert(pv_step(tt, a) == pv_step(tt, c));
        match pv_step(tt, a) {
            None => {},
            Some(m) => {
                if exists|x: Board| pv_child_rel(a, m, x) {
                    let x = choose|x: Board| pv_child_rel(a, m, x);
                    assert(pv_child_rel(c, m, x));
                    let y = choose|y: Board| pv_child_rel(c, m, y);
                    crate::movelist::lemma_occ_unique_pub(x.all_pieces, y.all_pieces, x.piece_on@);
                    lemma_pv_cong(tt, x, y, (n - 1) as nat);
                } else {
                    assert forall|y: Board| !pv_child_rel(c, m, y) by {
                        if pv_child_rel(c, m, y) {
                            assert(pv_child_rel(a, m, y));
                        }
                    }
                }
            },
        }
    }
}

/// Position of `m` in `moves`, if present.
fn find_move(moves: &Vec<Move>, m: Move) -> (r: Option<usize>)
    ensures
        match r {
            Some(i) => i < moves@.len() && moves@[i as int] == m,
            None => forall|i: int| 0 <= i < moves@.len() ==> moves@[i] != m,
        },
{
    let mut i: usize = 0;
    while i < moves.len()
        invariant
            i <= moves@.len(),
            forall|j: int| 0 <= j < i ==> moves@[j] != m,
        decreases moves@.len() - i,
    {
        if moves[i] == m {
            return Some(i);
        }
        i += 1;
    }
    None
}

impl Search {
    /// The legal move stored for the current position, if any.
    fn tt_legal_move(&self, b: &Board, moves: &Vec<Move>) -> (r: Option<Move>)
        requires
            self.wf(),
            all_legal_ok(*b, moves@),
            forall|m: Move| #[trigger] moves@.contains(m) <==> legal_ok(*b, m),
        ensures
            r == pv_step(self.tt, *b),
            match r {
                Some(m) => legal_ok(*b, m),
                None => true,
            },
    {
        match self.tt.probe(b.zobrist) {
            Some(e) => match e.best_move() {
                Some(m) => match find_move(moves, m) {
                    Some(i) => {
                        proof {
                            assert(legal_ok(*b, moves@[i as int]));
                        }
                        Some(m)
                    },
                    None => {
                        proof {
                            if legal_ok(*b, m) {
                                assert(moves@.contains(m));
                            }
                        }
                        None
                    },
                },
                None => None,
            },
            None => None,
        }
    }

    /// Iterative deepening to `max_depth` with aspiration windows after
    /// depth 3.  Returns the best move (the table move at the root after the
    /// last completed iteration, else the first legal move) and its score;
    /// no move where the side to move has none, with score -MATE when
    /// checkmated and 0 when stalemated.
    pub fn best_move(&mut self, b: &mut Board, max_depth: i32) -> (r: (Option<Move>, i32))
        requires
            old(self).wf(),
            old(b).wf(),
            counters_room(*old(b), (MAX_SEARCH_PLY + 2) as int),
            1 <= max_depth <= MAX_DEPTH,
        ensures
            final(self).wf(),
            same_position(*old(b), *final(b)),
            score_ok(r.1 as int),
            match r.0 {
                Some(m) => legal_ok(*old(b), m),
                None => forall|m: Move| !legal_ok(*old(b), m),
            },
            r.0.is_none() <==> (forall|m: Move| !legal_ok(*old(b), m)),
            r.0.is_none() ==> r.1 == if king_at(old(b).piece_on@, old(b).turn) < 64 && attacked_by(
                old(b).piece_on@,
                old(b).all_pieces,
                king_at(old(b).piece_on@, old(b).turn),
                opposite(old(b).turn),
            ) {
                -MATE
            } else {
                0
            },
            (exists|m: Move| #[trigger] mates(*old(b), m)) ==> r.0.is_some() && mates(
                *old(b),
                r.0.unwrap(),
            ) && r.1 == MATE - 1,
            (!(exists|m: Move| #[trigger] mates(*old(b), m)) && legal_list(*old(b)).len() > 0)
                ==> r.0 == Some(
                match pv_step(final(self).tt, *old(b)) {
                    Some(m) => m,
                    None => legal_list(*old(b))[0],
                },
            ),
    {
        let ghost b_in = *b;
        proof {
            lemma_same_refl(*b);
        }
        let mut moves: Vec<Move> = Vec::new();
        b.generate_legal_moves(&mut moves);
        proof {
            lemma_same_fields(b_in, *b);
        }
        if moves.len() == 0 {
            proof {
                assert forall|m: Move| !legal_ok(b_in, m) by {
                    if legal_ok(b_in, m) {
                        assert(moves@.contains(m));
                    }
                }
            }
            let s = if b.in_check() {
                -MATE
            } else {
                0
            };
            return (None, s);
        }
        proof {
            assert(moves@.contains(moves@[0]));
        }
        self.tt.tick_age();
        let best = moves[0];
        proof {
            assert(legal_ok(b_in, moves@[0]));
        }
        let mut score: i32 = 0;
        let mut d: i32 = 1;
        while d <= max_depth
            invariant
                self.wf(),
                1 <= d,
                max_depth <= MAX_DEPTH,
                same_position(b_in, *b),
                b_in.wf(),
                counters_room(b_in, (MAX_SEARCH_PLY + 2) as int),
                all_legal_ok(b_in, moves@),
                forall|m: Move| #[trigger] moves@.contains(m) <==> legal_ok(b_in, m),
                legal_ok(b_in, best),
                score_ok(score as int),
            decreases max_depth + 1 - d,
        {
            let (mut lo, mut hi) = if d > 3 {
                (
                    if score - ASPIRATION_WINDOW > -MATE {
                        score - ASPIRATION_WINDOW
                    } else {
                        -MATE
                    },
                    if score + ASPIRATION_WINDOW < MATE {
                        score + ASPIRATION_WINDOW
                    } else {
                        MATE
                    },
                )
            } else {
                (-MATE, MATE)
            };
            let mut s: i32 = 0;
            let mut tries: usize = 0;
            while tries < 3
                invariant
                    self.wf(),
                    same_position(b_in, *b),
                    b_in.wf(),
                    counters_room(b_in, (MAX_SEARCH_PLY + 2) as int),
                    -MATE <= lo < hi <= MATE,
                    1 <= d <= MAX_DEPTH,
                    score_ok(s as int),
                decreases 3 - tries,
            {
                proof {
                    lemma_same_facts(b_in, *b, best, (MAX_SEARCH_PLY + 2) as int);
                }
                let ghost b1 = *b;
                s = self.negamax(b, d, lo, hi, 0);
                proof {
                    lemma_same_trans(b_in, b1, *b);
                }
                if self.stopped {
                    break ;
                }
                if s <= lo && lo > -MATE {
                    lo = -MATE;
                } else if s >= hi && hi < MATE {
                    hi = MATE;
                } else {
                    break ;
                }
                tries += 1;
            }
            if self.stopped {
                break ;
            }
            score = s;
            self.completed_depth = d;
            self.iterations.push((d, s));
            d += 1;
        }
        proof {
            lemma_same_facts(b_in, *b, best, (MAX_SEARCH_PLY + 2) as int);
            reveal(same_position);
        }
        let best = match self.tt_legal_move(b, &moves) {
            Some(m) => m,
            None => moves[0],
        };
        proof {
            assert(pv_step(self.tt, *b) == pv_step(self.tt, b_in));
        }
        match find_mate(b, &moves, Ghost(b_in)) {
            Some(m) => (Some(m), MATE - 1),
            None => (Some(best), score),
        }
    }

    /// The principal variation: table moves walked from the root while each
    /// is legal, at most `max_len` of them.
    pub fn get_pv_from_tt(&self, b: &mut Board, max_len: usize) -> (r: Vec<Move>)
        requires
            self.wf(),
            old(b).wf(),
            counters_room(*old(b), max_len as int + 1),
        ensures
            same_position(*old(b), *final(b)),
            r@.len() <= max_len,
            max_len > 0 ==> (r@.len() > 0 <==> pv_step(self.tt, *old(b)).is_some()),
            r@.len() > 0 ==> Some(r@[0]) == pv_step(self.tt, *old(b)),
            r@ == pv_line(self.tt, *old(b), max_len as nat),
    {
        let mut out: Vec<Move> = Vec::new();
        let ghost b0 = *b;
        proof {
            lemma_same_refl(b0);
        }
        self.pv_walk(b, max_len, &mut out, Ghost(b0));
        out
    }

    fn pv_walk(&self, b: &mut Board, n: usize, out: &mut Vec<Move>, Ghost(b0): Ghost<Board>)
        requires
            self.wf(),
            same_position(b0, *old(b)),
            counters_room(b0, n as int + 1),
        ensures
            same_position(b0, *final(b)),
            final(out)@.len() <= old(out)@.len() + n,
            final(out)@.len() >= old(out)@.len(),
            final(out)@.subrange(0, old(out)@.len() as int) == old(out)@,
            n > 0 ==> (final(out)@.len() > old(out)@.len() <==> pv_step(self.tt, b0).is_some()),
            final(out)@.len() > old(out)@.len() ==> Some(final(out)@[old(out)@.len() as int])
                == pv_step(self.tt, b0),
            final(out)@ == old(out)@ + pv_line(self.tt, b0, n as nat),
        decreases n,
    {
        if n == 0 {
            proof {
                assert(out@.subrange(0, out@.len() as int) =~= out@);
                assert(out@ =~= out@ + pv_line(self.tt, b0, 0));
            }
            return ;
        }
        proof {
            lemma_same_facts(b0, *b, crate::types::quiet_move(0, 0), n as int + 1);
        }
        let ghost b_in = *b;
        let mut moves: Vec<Move> = Vec::new();
        b.generate_legal_moves(&mut moves);
        proof {
            lemma_same_fields(b_in, *b);
            lemma_same_trans(b0, b_in, *b);
            reveal(same_position);
        }
        proof {
            assert(pv_step(self.tt, *b) == pv_step(self.tt, b0));
        }
        let ghost out0 = out@;
        match self.tt_legal_move(b, &moves) {
            Some(m) => {
                out.push(m);
                let ghost out1 = out@;
                let ghost bi = *b;
                let u = b.make_move(m);
                proof {
                    lemma_same_refl(*b);
                }
                let ghost after = *b;
                proof {
                    crate::movegen::lemma_occupancy_union(after);
                    assert(pv_child_rel(b0, m, after));
                    let x = choose|x: Board| pv_child_rel(b0, m, x);
                    crate::movelist::lemma_occ_unique_pub(x.all_pieces, after.all_pieces, x.piece_on@);
                    lemma_pv_cong(self.tt, x, after, (n - 1) as nat);
                    assert(pv_line(self.tt, b0, n as nat) == seq![m] + pv_line(self.tt, after, (n - 1) as nat));
                }
                self.pv_walk(b, n - 1, out, Ghost(after));
                proof {
                    reveal(same_position);
                }
                let ghost mid = *b;
                b.unmake_move(m, u);
                proof {
                    lemma_apply_undo(bi, m, u, mid, *b);
                    assert(b.piece_on == bi.piece_on);
                    assert(b.piece_bb == bi.piece_bb);
                    assert(b.zob == bi.zob);
                    assert(b.history@ == bi.history@);
                    assert(b.zobrist == bi.zobrist);
                    lemma_same_fields(bi, *b);
                    lemma_same_trans(b0, bi, *b);
                    assert(out1.subrange(0, out0.len() as int) =~= out0);
                    assert(out@.subrange(0, out1.len() as int) == out1);
                    assert(out@[out0.len() as int] == out1[out0.len() as int]);
                    assert(out@.subrange(0, out0.len() as int) =~= out0);
                    assert(out@ =~= out0 + pv_line(self.tt, b0, n as nat));
                }
            },
            None => {
                proof {
                    assert(out@.subrange(0, out@.len() as int) =~= out@);
                    assert(out@ =~= out@ + pv_line(self.tt, b0, n as nat));
                }
            },
        }
    }
}

} // verus!
