use chess_core::board::Board;
use chess_core::eval::evaluate;
use chess_core::fen::{parse_fen, to_fen};
use chess_core::perft::perft;
use chess_core::score::{is_mate_score, mate_load, mate_store, to_uci_score, MATE};
use chess_core::search::{stop_decision, Search};
use chess_core::see::see;
use chess_core::time::TimeControl;
use chess_core::tt::{Bound, TransTable};
use chess_core::types::{Color, Move, Piece, PieceKind};
use chess_core::uci::{format_uci, parse_uci_move};

const START: &str = "rnbqkbnr/pppppppp/8/8/8/8/PPPPPPPP/RNBQKBNR w KQkq - 0 1";
const KIWIPETE: &str = "r3k2r/p1ppqpb1/bn2pnp1/3PN3/1p2P3/2N2Q1p/PPPBBPPP/R3K2R w KQkq - 0 1";

fn board(fen: &str) -> Board {
    parse_fen(fen).expect("valid FEN")
}

fn legal(b: &mut Board) -> Vec<Move> {
    let mut v = Vec::new();
    b.generate_legal_moves(&mut v);
    v
}

fn play(b: &mut Board, text: &str) {
    let m = parse_uci_move(b, text).expect("legal move");
    b.make_move(m);
}

fn snapshot(b: &Board) -> (Vec<Piece>, [u64; 13], u64, u64, u64, Color, u8, i32, i32, i32, u64, Vec<u64>) {
    (
        b.piece_on.to_vec(),
        b.piece_bb,
        b.w_pieces,
        b.b_pieces,
        b.all_pieces,
        b.turn,
        b.castle,
        b.en_passant_sq,
        b.halfmove_clock,
        b.fullmove_number,
        b.zobrist,
        b.history.clone(),
    )
}

#[test]
fn perft_start_position() {
    let mut b = board(START);
    assert_eq!(perft(&mut b, 1), 20);
    assert_eq!(perft(&mut b, 2), 400);
    assert_eq!(perft(&mut b, 3), 8902);
}

#[test]
fn perft_kiwipete() {
    let mut b = board(KIWIPETE);
    assert_eq!(perft(&mut b, 1), 48);
    assert_eq!(perft(&mut b, 2), 2039);
}

#[test]
fn perft_en_passant_capture_listed() {
    let mut b = board("rnbqkbnr/ppp1p1pp/8/3pPp2/8/8/PPPP1PPP/RNBQKBNR w KQkq f6 0 3");
    let moves = legal(&mut b);
    let ep: Vec<&Move> = moves.iter().filter(|m| format_uci(**m) == "e5f6").collect();
    assert_eq!(ep.len(), 1);
    assert!(ep[0].en_passant && ep[0].capture);
}

#[test]
fn mate_in_one_found() {
    let mut b = board("6k1/5ppp/8/8/8/8/5PPP/R5K1 w - - 0 1");
    let mut s = Search::new(TransTable::with_mb(1), 10_000_000);
    let (m, score) = s.best_move(&mut b, 2);
    assert_eq!(format_uci(m.expect("a move")), "a1a8");
    assert_eq!(score, MATE - 1);
    assert_eq!(to_uci_score(score), "mate 1");
}

#[test]
fn stalemate_scores_zero() {
    let mut b = board("7k/5Q2/6K1/8/8/8/8/8 b - - 0 1");
    assert_eq!(legal(&mut b).len(), 0);
    assert!(!b.in_check());
    let mut s = Search::new(TransTable::with_mb(1), 1_000_000);
    let (m, score) = s.best_move(&mut b, 3);
    assert!(m.is_none());
    assert_eq!(score, 0);
}

#[test]
fn threefold_repetition_detected() {
    let mut b = board(START);
    for mv in ["g1f3", "g8f6", "f3g1", "f6g8", "g1f3", "g8f6", "f3g1", "f6g8"] {
        play(&mut b, mv);
    }
    assert_eq!(b.count_repetitions(), 2);
    assert!(b.is_draw_by_repetition());
    let mut s = Search::new(TransTable::with_mb(1), 1_000_000);
    assert_eq!(s.negamax(&mut b, 3, -MATE, MATE, 1), 0);
}

#[test]
fn no_repetition_after_one_cycle() {
    let mut b = board(START);
    for mv in ["g1f3", "g8f6", "f3g1", "f6g8"] {
        play(&mut b, mv);
    }
    assert_eq!(b.count_repetitions(), 1);
    assert!(!b.is_draw_by_repetition());
}

#[test]
fn move_packing_round_trips() {
    let mut b = board(KIWIPETE);
    for m in legal(&mut b) {
        let x = u16::from(m);
        assert_eq!(Move::from(x), m);
    }
    let promo = Move { from: 52, to: 61, capture: true, en_passant: false, double_push: false, castle: false, promotion: Some(PieceKind::Knight) };
    assert_eq!(Move::from(u16::from(promo)), promo);
    assert_eq!(u16::from(Move::quiet(12, 28)), 12 | (28 << 6));
    assert_ne!(u16::from(promo), 0);
}

#[test]
fn apply_undo_restores_everything() {
    for fen in [START, KIWIPETE, "rnbqkbnr/ppp1p1pp/8/3pPp2/8/8/PPPP1PPP/RNBQKBNR w KQkq f6 0 3", "r3k2r/1P6/8/8/8/8/6p1/R3K2R b KQkq - 0 1"] {
        let mut b = board(fen);
        let before = snapshot(&b);
        for m in legal(&mut b) {
            let u = b.make_move(m);
            b.unmake_move(m, u);
            assert_eq!(snapshot(&b), before, "move {}", format_uci(m));
        }
    }
}

#[test]
fn incremental_hash_matches_recomputed() {
    let mut b = board(KIWIPETE);
    for m in legal(&mut b) {
        let u = b.make_move(m);
        let z = b.zobrist;
        b.recompute_zobrist();
        assert_eq!(b.zobrist, z);
        b.unmake_move(m, u);
    }
}

#[test]
fn aggregate_occupancy_is_union() {
    let b = board(KIWIPETE);
    let mut union = 0u64;
    for i in 1..13 {
        union |= b.piece_bb[i];
    }
    assert_eq!(b.all_pieces, union);
    assert_eq!(b.all_pieces, b.w_pieces | b.b_pieces);
    assert_eq!(b.piece_bb[0], 0);
}

#[test]
fn square_attack_matches_captures() {
    let mut b = board(KIWIPETE);
    let moves = legal(&mut b);
    // the d5 pawn attacks e6 and can take there
    assert!(b.is_square_attacked(44, Color::White));
    assert!(moves.iter().any(|m| m.to == 44 && m.capture));
    // h3 is attacked by the g2 pawn and is captured by it.
    assert!(b.is_square_attacked(23, Color::White));
    assert!(moves.iter().any(|m| m.from == 14 && m.to == 23 && m.capture));
}

#[test]
fn en_passant_expires_after_one_ply() {
    let mut b = board(START);
    play(&mut b, "e2e4");
    assert_eq!(b.en_passant_sq, 20);
    play(&mut b, "g8f6");
    assert_eq!(b.en_passant_sq, -1);
    let mut b = board("rnbqkbnr/ppp1p1pp/8/3pPp2/8/8/PPPP1PPP/RNBQKBNR w KQkq f6 0 3");
    play(&mut b, "b1c3");
    play(&mut b, "b8c6");
    assert!(!legal(&mut b).iter().any(|m| m.en_passant));
}

#[test]
fn castling_suppressed_cases() {
    // both sides may castle
    let mut b = board("r3k2r/8/8/8/8/8/8/R3K2R w KQkq - 0 1");
    assert_eq!(legal(&mut b).iter().filter(|m| m.castle).count(), 2);
    // king in check
    let mut b = board("r3k2r/8/8/8/8/8/4r3/R3K2R w KQkq - 0 1");
    assert_eq!(legal(&mut b).iter().filter(|m| m.castle).count(), 0);
    // transit square f1 attacked
    let mut b = board("r3k2r/8/8/8/8/8/5r2/R3K2R w KQkq - 0 1");
    assert!(!legal(&mut b).iter().any(|m| m.castle && m.to == 6));
    // transit square occupied
    let mut b = board("r3k2r/8/8/8/8/8/8/R3KB1R w KQkq - 0 1");
    assert!(!legal(&mut b).iter().any(|m| m.castle && m.to == 6));
    // right lacking
    let mut b = board("r3k2r/8/8/8/8/8/8/R3K2R w Qkq - 0 1");
    assert!(!legal(&mut b).iter().any(|m| m.castle && m.to == 6));
    // rook not home
    let mut b = board("r3k2r/8/8/8/8/8/8/R3K1R1 w KQkq - 0 1");
    assert!(!legal(&mut b).iter().any(|m| m.castle && m.to == 6));
}

#[test]
fn promotion_gives_four_moves() {
    let mut b = board("7k/P7/8/8/8/8/8/K7 w - - 0 1");
    let moves = legal(&mut b);
    let promos: Vec<&Move> = moves.iter().filter(|m| m.from == 48).collect();
    assert_eq!(promos.len(), 4);
    let mut b = board("7k/8/8/8/8/P7/8/K7 w - - 0 1");
    let moves = legal(&mut b);
    assert_eq!(moves.iter().filter(|m| m.from == 16).count(), 1);
}

#[test]
fn king_on_empty_board_has_no_rights() {
    let b = Board::empty();
    assert_eq!(b.castle, 0);
    let mut b = Board::empty();
    b.place_piece(Piece::WK, 4);
    assert_eq!(b.castle, 0);
}

#[test]
fn halfmove_clock_rules() {
    let mut b = board("4k3/8/8/8/8/8/4P3/4K1N1 w - - 7 1");
    play(&mut b, "g1f3");
    assert_eq!(b.halfmove_clock, 8);
    play(&mut b, "e8d8");
    assert_eq!(b.halfmove_clock, 9);
    play(&mut b, "e2e4");
    assert_eq!(b.halfmove_clock, 0);
    let mut b = board("4k3/8/8/3p4/4N3/8/8/4K3 w - - 5 1");
    play(&mut b, "e4d6");
    play(&mut b, "e8e7");
    assert_eq!(b.halfmove_clock, 7);
    let mut b = board("4k3/8/8/3p4/8/4N3/8/4K3 w - - 5 1");
    play(&mut b, "e3d5");
    assert_eq!(b.halfmove_clock, 0);
}

#[test]
fn fen_round_trip() {
    for fen in [START, KIWIPETE, "rnbqkbnr/ppp1p1pp/8/3pPp2/8/8/PPPP1PPP/RNBQKBNR w KQkq f6 0 3", "7k/5Q2/6K1/8/8/8/8/8 b - - 12 40"] {
        assert_eq!(to_fen(&board(fen)), fen);
        assert_eq!(board(fen).to_fen(), fen);
    }
}

#[test]
fn fen_rejects_bad_input() {
    assert!(parse_fen("").is_err());
    assert!(parse_fen("rnbqkbnr/pppppppp/8/8/8/8/PPPPPPPP/RNBQKBNR x KQkq - 0 1").is_err());
    assert!(parse_fen("rnbqkbnr/pppppppp/9/8/8/8/PPPPPPPP/RNBQKBNR w KQkq - 0 1").is_err());
    assert!(parse_fen("rnbqkbnr/pppppppp/8/8/8/8/PPPPPPPP/RNBQKBNR w KQxq - 0 1").is_err());
    assert!(Board::from_fen(START).is_ok());
}

#[test]
fn see_values() {
    // pawn takes a knight defended by a pawn: +320 - 100 = 220
    let mut b = board("4k3/8/2p5/3n4/4P3/8/8/4K3 w - - 0 1");
    let m = parse_uci_move(&mut b, "e4d5").unwrap();
    assert_eq!(see(&b, m), 220);
    // queen takes a pawn defended by a pawn: 100 - 900 = -800
    let mut b = board("4k3/8/2p5/3p4/8/8/3Q4/4K3 w - - 0 1");
    let m = parse_uci_move(&mut b, "d2d5").unwrap();
    assert_eq!(see(&b, m), -800);
    // undefended rook
    let mut b = board("4k3/8/8/3r4/8/8/3R4/4K3 w - - 0 1");
    let m = parse_uci_move(&mut b, "d2d5").unwrap();
    assert_eq!(see(&b, m), 500);
    // quiet move
    let mut b = board(START);
    let m = parse_uci_move(&mut b, "e2e4").unwrap();
    assert_eq!(see(&b, m), 0);
}

#[test]
fn mate_scores_round_trip_through_table() {
    for s in [MATE - 3, -(MATE - 5), 120, -40, 0] {
        for ply in [0, 1, 7, 30] {
            assert_eq!(mate_load(mate_store(s, ply), ply), s);
        }
    }
    assert_eq!(mate_store(MATE - 3, 4), MATE + 1);
    assert!(is_mate_score(MATE - 10));
    assert!(!is_mate_score(500));
}

#[test]
fn uci_score_text() {
    assert_eq!(to_uci_score(35), "cp 35");
    assert_eq!(to_uci_score(-120), "cp -120");
    assert_eq!(to_uci_score(MATE - 3), "mate 2");
    assert_eq!(to_uci_score(-(MATE - 4)), "mate -2");
}

#[test]
fn table_store_and_probe() {
    let mut t = TransTable::with_mb(1);
    assert_eq!(t.slots.len(), 16384);
    let m = Move::quiet(12, 28);
    t.store(0xABCDEF, 5, -77, Bound::Lower, Some(m));
    let e = t.probe(0xABCDEF).expect("stored");
    assert_eq!(e.score(), -77);
    assert_eq!(e.depth(), 5);
    assert_eq!(e.bound(), Bound::Lower);
    assert_eq!(e.best_move(), Some(m));
    assert_eq!(e.age(), 0);
    // shallower result of the same search does not replace
    t.store(0xABCDEF, 3, 10, Bound::Exact, None);
    assert_eq!(t.probe(0xABCDEF).unwrap().score(), -77);
    // deeper one does
    t.store(0xABCDEF, 6, 10, Bound::Exact, None);
    assert_eq!(t.probe(0xABCDEF).unwrap().score(), 10);
    assert!(t.probe(0x1234).is_none());
    t.clear();
    assert!(t.probe(0xABCDEF).is_none());
    assert_eq!(t.age, 1);
}

#[test]
fn table_eviction_keeps_bucket_size() {
    let mut t = TransTable::with_mb(1);
    let mask = t.mask as u64;
    for i in 1..=5u64 {
        t.store(i * (mask + 1) + 3, i as i16, i as i32, Bound::Exact, None);
    }
    // the shallowest entry was evicted
    assert!(t.probe(mask + 1 + 3).is_none());
    assert!(t.probe(5 * (mask + 1) + 3).is_some());
    let (filled, total) = t.stats();
    assert_eq!(filled, 4);
    assert_eq!(total, 16384 * 4);
}

#[test]
fn time_allocation() {
    let tc = TimeControl { wtime: 60_000, btime: 30_000, winc: 1000, binc: 0, movestogo: 0, move_overhead_ms: 10 };
    assert_eq!(tc.allocation_ms(true), (2000 + 750, 59_950));
    assert_eq!(tc.allocation_ms(false), (1000, 29_950));
    let tc = TimeControl { wtime: 60_000, btime: 60_000, winc: 0, binc: 0, movestogo: 10, move_overhead_ms: 100 };
    assert_eq!(tc.allocation_ms(true), (6000, 59_900));
}

#[test]
fn evaluation_symmetry_and_material() {
    let b = board(START);
    assert_eq!(evaluate(&b), 25 - 25);
    let b = board("4k3/8/8/8/8/8/8/Q3K3 w - - 0 1");
    // one queen (phase 4) reaching 17 squares (mobility table: 34) and hitting
    // f6 in the black king's ring (weight 90: table value 45)
    assert_eq!(evaluate(&b), ((1025 + 34 + 45) * 4 + (936 + 34) * 20) / 24);
    let b = board("4k3/8/8/8/8/8/8/Q3K3 b - - 0 1");
    assert_eq!(evaluate(&b), -(((1025 + 34 + 45) * 4 + (936 + 34) * 20) / 24));
    // an isolated passed pawn on the fifth rank: 82 - 10 + 60, 94 - 20 + 110
    let b = board("4k3/8/8/4P3/8/8/8/4K3 w - - 0 1");
    // phase 0: the endgame value alone
    assert_eq!(evaluate(&b), 94 - 20 + 110);
}

#[test]
fn uci_move_text() {
    let m = Move { from: 52, to: 60, capture: false, en_passant: false, double_push: false, castle: false, promotion: Some(PieceKind::Queen) };
    assert_eq!(format_uci(m), "e7e8q");
    let mut b = board(START);
    assert!(parse_uci_move(&mut b, "e2e5").is_none());
    assert_eq!(parse_uci_move(&mut b, "e2e4").map(|m| (m.from, m.to, m.double_push)), Some((12, 28, true)));
    let mut b = board("r3k2r/8/8/8/8/8/8/R3K2R w KQkq - 0 1");
    assert!(parse_uci_move(&mut b, "e1g1").unwrap().castle);
}

#[test]
fn pv_follows_table() {
    let mut b = board("6k1/5ppp/8/8/8/8/5PPP/R5K1 w - - 0 1");
    let mut s = Search::new(TransTable::with_mb(1), 10_000_000);
    s.best_move(&mut b, 2);
    let pv = s.get_pv_from_tt(&mut b, 4);
    assert!(!pv.is_empty());
    assert_eq!(format_uci(pv[0]), "a1a8");
}

#[test]
fn perft_start_depth_four() {
    let mut b = board(START);
    assert_eq!(perft(&mut b, 4), 197281);
}

#[test]
fn perft_kiwipete_depth_three() {
    let mut b = board(KIWIPETE);
    assert_eq!(perft(&mut b, 3), 97862);
}

#[test]
fn perft_start_depth_five() {
    let mut b = board(START);
    assert_eq!(perft(&mut b, 5), 4865609);
}

#[test]
fn perft_kiwipete_depth_four() {
    let mut b = board(KIWIPETE);
    assert_eq!(perft(&mut b, 4), 4085603);
}

#[test]
fn cached_evaluation_matches() {
    let mut table = chess_core::pawn_hash::PawnTable::with_bits(10);
    for fen in [START, KIWIPETE, "4k3/8/8/4P3/8/8/8/4K3 w - - 0 1", "4k3/pp6/8/8/8/8/P1P5/4K3 b - - 0 1"] {
        let b = board(fen);
        let plain = evaluate(&b);
        assert_eq!(chess_core::eval::evaluate_cached(&b, &mut table), plain);
        assert!(table.probe(b.piece_bb[1], b.piece_bb[7]).is_some());
        assert_eq!(chess_core::eval::evaluate_cached(&b, &mut table), plain);
    }
}

#[test]
fn raised_stop_flag_halts_search() {
    let flag = std::sync::Arc::new(std::sync::atomic::AtomicBool::new(true));
    let mut b = board(START);
    let mut s = Search::with_clock(TransTable::with_mb(1), u64::MAX, u64::MAX, flag, false);
    let (m, _) = s.best_move(&mut b, 12);
    assert!(m.is_some());
    assert!(s.stopped);
    assert!(s.nodes <= 5000);
}

#[test]
fn node_budget_halts_search() {
    let mut b = board(KIWIPETE);
    let mut s = Search::new(TransTable::with_mb(1), 1000);
    let (m, _) = s.best_move(&mut b, 20);
    assert!(m.is_some());
    assert!(s.stopped);
    assert!(s.nodes <= 1001);
}

#[test]
fn stop_decision_values() {
    assert_eq!(stop_decision(4096, u64::MAX, true, 10, 5, false), (true, true));
    assert_eq!(stop_decision(4096, u64::MAX, true, 4, 5, false), (false, false));
    assert_eq!(stop_decision(4095, u64::MAX, true, 10, 5, true), (false, false));
    assert_eq!(stop_decision(10, 10, false, 0, 0, false), (true, false));
    assert_eq!(stop_decision(8192, u64::MAX, false, 100, 5, true), (true, false));
}

#[test]
fn table_fill_after_clear() {
    let mut t = TransTable::with_mb(1);
    for k in 1..=1000u64 {
        t.store(k * 7919, 1, 0, Bound::Exact, None);
    }
    assert!(t.hashfull_permill() > 0);
    let (filled, total) = t.stats();
    assert_eq!(t.hashfull_permill(), filled * 1000 / total);
    t.clear();
    assert_eq!(t.hashfull_permill(), 0);
    assert_eq!(t.slots.len().count_ones(), 1);
}

#[test]
fn generated_moves_are_distinct() {
    for fen in [START, KIWIPETE, "r3k2r/1P6/8/8/8/8/6p1/R3K2R b KQkq - 0 1"] {
        let b = board(fen);
        let mut v = Vec::new();
        b.generate_pseudo_legal_moves(&mut v);
        let packed: std::collections::HashSet<u16> = v.iter().map(|m| u16::from(*m)).collect();
        assert_eq!(packed.len(), v.len());
    }
}

#[test]
fn fen_error_cases() {
    assert!(parse_fen("4k3/8/8/8/8/8/8/4K3 w - -").is_ok());
    assert!(parse_fen("4k3/8/8/8/8/8/8/4K3 w - e").is_err());
    assert!(parse_fen("4k3/8/8/8/8/8/8/4K3 w -").is_err());
    assert!(parse_fen("4k3/8/8/8/8/8/8/4K3 w - - 0 1 extra").is_err());
    assert!(parse_fen("4k3/8/8/8/8/8/8/8/4K3 w - - 0 1").is_err());
    // no king, or two kings of one color
    assert!(parse_fen("8/8/8/8/8/8/8/8 w - - 0 1").is_err());
    assert!(parse_fen("4k3/8/8/8/8/8/8/4K2K w - - 0 1").is_err());
    let b = board("4k3/8/8/8/8/8/8/4K3 b - e3 7 9");
    assert_eq!((b.en_passant_sq, b.halfmove_clock, b.fullmove_number), (20, 7, 9));
    assert_eq!(b.history, vec![b.zobrist]);
}

#[test]
fn knight_outpost_bonus() {
    // the same material with the knight defended on d5 (outpost) and on d3
    let on_post = board("4k3/8/8/3N4/4P3/8/8/4K3 w - - 0 1");
    let home = board("4k3/8/8/8/4P3/3N4/8/4K3 w - - 0 1");
    assert!(evaluate(&on_post) > evaluate(&home));
}

#[test]
fn mate_in_one_at_depth_one_and_iterations() {
    let mut b = board("6k1/5ppp/8/8/8/8/5PPP/R5K1 w - - 0 1");
    let mut s = Search::new(TransTable::with_mb(1), 10_000_000);
    let (m, score) = s.best_move(&mut b, 1);
    assert_eq!(format_uci(m.unwrap()), "a1a8");
    assert_eq!(score, MATE - 1);
    let mut s = Search::new(TransTable::with_mb(1), 10_000_000);
    s.best_move(&mut b, 3);
    assert_eq!(s.completed_depth, 3);
    assert_eq!(s.iterations.iter().map(|x| x.0).collect::<Vec<i32>>(), vec![1, 2, 3]);
}

#[test]
fn quiesce_without_tactics_returns_stand_pat() {
    let mut b = board("4k3/8/8/8/8/8/4P3/4K3 w - - 0 1");
    let sp = evaluate(&b);
    let mut s = Search::new(TransTable::with_mb(1), 1_000_000);
    assert_eq!(s.quiesce(&mut b, -MATE, MATE, 0), sp);
    assert_eq!(s.quiesce(&mut b, sp + 10, sp + 20, 0), sp + 10);
    assert_eq!(s.quiesce(&mut b, sp - 20, sp - 10, 0), sp - 10);
}
