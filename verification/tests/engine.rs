//! Position parsing, evaluation, hashing, make/unmake and search behavior
//! on concrete positions.

use rustypawn::{algebraic_to_move, make_move_algebraic, think, Game, MoveTrait, ThinkInfo};

const START: &str = "rnbqkbnr/pppppppp/8/8/8/8/PPPPPPPP/RNBQKBNR w KQkq - 0";

#[test]
fn fen_parses_initial_position() {
    let game = Game::from_fen(START).unwrap();
    assert!(game.white_to_move());
    assert!(!game.in_check());
    assert!(!game.fifty_move_draw());
    assert_eq!(game.repetitions(), 0);
    assert!(game.is_coherent());
}

#[test]
fn fen_rejects_bad_input() {
    assert_eq!(Game::from_fen("").err(), Some("Empty FEN"));
    assert_eq!(Game::from_fen("   ").err(), Some("Empty FEN"));
    assert_eq!(Game::from_fen("rnbqkbnr/ppXppppp/8/8/8/8/PPPPPPPP/RNBQKBNR w KQkq - 0").err(), Some("Illegal FEN character"));
    assert_eq!(Game::from_fen("rnbqkbnr/pppppppp/8/8/8/8/PPPPPPPP/RNBQKBNR").err(), Some("Missing side"));
    assert_eq!(Game::from_fen("rnbqkbnr/pppppppp/8/8/8/8/PPPPPPPP/RNBQKBNR x KQkq - 0").err(), Some("Illegal side string"));
    assert_eq!(Game::from_fen("rnbqkbnr/pppppppp/8/8/8/8/PPPPPPPP/RNBQKBNR w KXkq - 0").err(), Some("Illegal castling character"));
    assert_eq!(Game::from_fen("rnbqkbnr/pppppppp/8/8/8/8/PPPPPPPP/RNBQKBNR w KQkq e9 0").err(), Some("Illegal en passant string"));
    assert_eq!(Game::from_fen("rnbqkbnr/pppppppp/8/8/8/8/PPPPPPPP/RNBQKBNR w KQkq - x").err(), Some("Illegal ply format"));
    assert_eq!(Game::from_fen("rnbqkbnr/pppppppp/8/8/8/8/PPPPPPPP/RNBQKBNR w KQkq - 100").err(), Some("Illegal ply value"));
    assert_eq!(Game::from_fen("8/8/8/8/8/8/8/k7 w - - 0").err(), Some("No white king"));
    assert_eq!(Game::from_fen("8/8/8/8/8/8/8/K7 w - - 0").err(), Some("No black king"));
}

#[test]
fn initial_position_evaluates_to_zero() {
    let game = Game::from_fen(START).unwrap();
    assert_eq!(game.evaluate(), 0);
}

#[test]
fn evaluation_flips_with_side_to_move() {
    let white = Game::from_fen("4k3/1p6/8/8/3P4/2N5/8/4K3 w - - 0").unwrap();
    let black = Game::from_fen("4k3/1p6/8/8/3P4/2N5/8/4K3 b - - 0").unwrap();
    assert_eq!(white.evaluate(), -black.evaluate());
    assert!(white.evaluate() > 0);
}

#[test]
fn make_then_unmake_restores_the_position() {
    let cases = [
        (START, "e2e4"),
        (START, "g1f3"),
        // Castling both ways, and an en-passant capture.
        ("r3k2r/p1ppqpb1/bn2pnp1/3PN3/1p2P3/2N2Q1p/PPPBBPPP/R3K2R w KQkq - 0", "e1g1"),
        ("r3k2r/p1ppqpb1/bn2pnp1/3PN3/1p2P3/2N2Q1p/PPPBBPPP/R3K2R w KQkq - 0", "e1c1"),
        ("4k3/8/8/3pP3/8/8/8/4K3 w - d6 0", "e5d6"),
        // A promotion and a capture-promotion.
        ("4k3/P7/8/8/8/8/8/4K3 w - - 0", "a7a8q"),
        ("1n2k3/P7/8/8/8/8/8/4K3 w - - 0", "a7b8n"),
    ];
    for (fen, mv_str) in cases.iter() {
        let mut game = Game::from_fen(fen).unwrap();
        let board_before = game.board.clone();
        let state_before = game.state;
        let kings_before = (game.king_white, game.king_black);
        let hash_before = game.hash;
        let history_before = game.history.len();
        let mv = algebraic_to_move(mv_str);
        assert!(game.make_move(mv), "move {} should be legal", mv_str);
        assert_eq!(game.history.len(), history_before + 1);
        game.unmake_move(mv);
        assert_eq!(game.board, board_before, "board restored after {}", mv_str);
        assert_eq!(game.state, state_before, "state restored after {}", mv_str);
        assert_eq!((game.king_white, game.king_black), kings_before);
        assert_eq!(game.hash, hash_before, "hash restored after {}", mv_str);
        assert_eq!(game.history.len(), history_before);
    }
}

#[test]
fn illegal_moves_are_rejected_and_leave_the_position_unchanged() {
    // The white king is pinned against a rook: moving the bishop is illegal.
    let mut game = Game::from_fen("4k3/8/8/8/4r3/8/4B3/4K3 w - - 0").unwrap();
    let board_before = game.board.clone();
    let mv = algebraic_to_move("e2d3");
    assert!(!game.make_move(mv));
    assert_eq!(game.board, board_before);
}

#[test]
fn transposing_back_restores_the_hash() {
    let mut game = Game::from_fen(START).unwrap();
    let initial_hash = game.hash;
    assert!(make_move_algebraic(&mut game, "g1f3"));
    assert_ne!(game.hash, initial_hash);
    assert!(make_move_algebraic(&mut game, "b8c6"));
    assert!(make_move_algebraic(&mut game, "f3g1"));
    assert!(make_move_algebraic(&mut game, "c6b8"));
    assert_eq!(game.hash, initial_hash);
}

#[test]
fn double_push_sets_the_en_passant_hash_contribution() {
    // The same pawn structure reached by a double push and by two single
    // pushes differs in the en-passant state, so the hashes differ too.
    let mut double_push = Game::from_fen("4k3/8/8/8/8/8/4P3/4K3 w - - 0").unwrap();
    assert!(make_move_algebraic(&mut double_push, "e2e4"));
    let mut single_pushes = Game::from_fen("4k3/8/8/8/8/4P3/8/4K3 w - - 0").unwrap();
    assert!(make_move_algebraic(&mut single_pushes, "e3e4"));
    // Different games draw different Zobrist keys, so only within one game
    // are hashes comparable; check the en-passant cell instead.
    assert_ne!(double_push.state, single_pushes.state);
}

#[test]
fn algebraic_moves_round_trip() {
    for s in ["e2e4", "g8f6", "a7a8q", "h2h1n", "e7e8r", "c7c8b"].iter() {
        let mv = algebraic_to_move(s);
        assert_eq!(mv.to_algebraic().as_str(), *s);
    }
}

#[test]
fn make_move_algebraic_rejects_illegal_moves() {
    let mut game = Game::from_fen(START).unwrap();
    assert!(!make_move_algebraic(&mut game, "e2e5"));
    assert!(!make_move_algebraic(&mut game, "e7e5"));
    assert!(make_move_algebraic(&mut game, "e2e4"));
    assert!(make_move_algebraic(&mut game, "e7e5"));
}

#[test]
fn captures_rank_above_quiet_moves() {
    let mut game = Game::from_fen(START).unwrap();
    assert!(make_move_algebraic(&mut game, "e2e4"));
    assert!(make_move_algebraic(&mut game, "d7d5"));
    let mut moves = game.generate_moves();
    let cutoff: Vec<u32> = vec![0; 4096];
    game.score_moves(&mut moves, &cutoff, 0);
    let capture = algebraic_to_move("e4d5");
    let mut found = false;
    for k in 0..moves.len() {
        if moves[k] % 0x100000000 == capture {
            // Pawn takes pawn: victim value ten-fold minus attacker value.
            assert_eq!(moves[k] >> 32, 1000009);
            found = true;
        } else {
            assert!(moves[k] >> 32 < 1000009);
        }
    }
    assert!(found);
}

struct RecordingSink {
    last_depth: usize,
    last_pv_len: usize,
    calls: usize,
}

impl ThinkInfo for RecordingSink {
    fn think_info(
        &mut self,
        depth: usize,
        _score: i64,
        _mate_in: i64,
        _node_count: usize,
        _millis: u64,
        moves: &Vec<String>,
    ) {
        self.last_depth = depth;
        self.last_pv_len = moves.len();
        self.calls += 1;
    }
}

#[test]
fn search_finds_a_move_and_reports_a_full_line() {
    let mut game =
        Game::from_fen("1rb2rk1/p4ppp/1p1qp1n1/3n2N1/2pP4/2P3P1/PPQ2PBP/R1B1R1K1 w - - 4 17")
            .unwrap();
    let mut sink = RecordingSink { last_depth: 0, last_pv_len: 0, calls: 0 };
    let result = think(&mut game, 1 << 20, 4, &mut sink);
    assert!(result.is_some());
    assert!(sink.calls > 0);
    assert_eq!(sink.last_depth, 4);
    assert_eq!(sink.last_pv_len, 4);
}

#[test]
fn search_reports_a_forced_mate() {
    // Back-rank mate in one for White.
    let mut game = Game::from_fen("6k1/5ppp/8/8/8/8/8/4R2K w - - 0").unwrap();
    let mut sink = RecordingSink { last_depth: 0, last_pv_len: 0, calls: 0 };
    let result = think(&mut game, 1 << 20, 4, &mut sink);
    assert_eq!(result.map(|m| m.to_algebraic()), Some(String::from("e1e8")));
}

#[test]
fn fifty_move_counter_reaches_the_draw_threshold() {
    let mut game = Game::from_fen("4k3/8/8/8/8/8/4N3/4K3 w - - 99").unwrap();
    assert!(!game.fifty_move_draw());
    assert!(make_move_algebraic(&mut game, "e2c3"));
    assert!(game.fifty_move_draw());
    // A pawn move or capture resets the clock.
    let mut game = Game::from_fen("4k3/8/8/8/8/8/P7/4K3 w - - 99").unwrap();
    assert!(make_move_algebraic(&mut game, "a2a3"));
    assert!(!game.fifty_move_draw());
}

#[test]
fn incoherent_positions_are_flagged() {
    // A castling right without the rook on its home square.
    let game = Game::from_fen("4k3/8/8/8/8/8/8/4K3 w K - 0").unwrap();
    assert!(!game.is_coherent());
    // An en-passant cell with no double-pushed pawn behind it.
    let game = Game::from_fen("4k3/8/8/8/8/8/8/4K3 w - e6 0").unwrap();
    assert!(!game.is_coherent());
    // The side to move could capture the opponent's king.
    let game = Game::from_fen("4k3/4R3/8/8/8/8/8/4K3 w - - 0").unwrap();
    assert!(!game.is_coherent());
}

#[test]
fn stalemate_position_has_no_legal_moves() {
    // Black to move, stalemated in a corner.
    let mut game = Game::from_fen("7k/5Q2/6K1/8/8/8/8/8 b - - 0").unwrap();
    let moves = game.generate_moves();
    let mut any = false;
    for k in 0..moves.len() {
        if game.make_move(moves[k]) {
            game.unmake_move(moves[k]);
            any = true;
        }
    }
    assert!(!any);
}
