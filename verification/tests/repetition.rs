//! Repetition counting within the fifty-move window.

use rustypawn::{make_move_algebraic, Game};

#[test]
fn three_fold_repetition() {
    let mut game = Game::from_fen("rnbqkbnr/pppppppp/8/8/8/8/PPPPPPPP/RNBQKBNR w KQkq - 0")
        .unwrap();
    make_move_algebraic(&mut game, "g1f3");
    make_move_algebraic(&mut game, "b8c6");
    make_move_algebraic(&mut game, "f3g1");
    make_move_algebraic(&mut game, "c6b8");
    assert_eq!(game.repetitions(), 1);
    make_move_algebraic(&mut game, "g1f3");
    make_move_algebraic(&mut game, "b8c6");
    make_move_algebraic(&mut game, "f3g1");
    make_move_algebraic(&mut game, "c6b8");
    assert_eq!(game.repetitions(), 2);
    make_move_algebraic(&mut game, "g1f3");
    make_move_algebraic(&mut game, "b8c6");
    make_move_algebraic(&mut game, "f3g1");
    make_move_algebraic(&mut game, "c6b8");
    assert_eq!(game.repetitions(), 3);
}
