//! Static evaluation: material, piece-square bonuses, pawn structure and
//! rook placement, from the side to move's perspective.
//!
//! The mathematical model folds the 64 squares twice, exactly as the
//! evaluator runs: a material-and-pawn-skyline pass, then a positional
//! pass. `spec_evaluate` is the resulting score; `evaluate` is proved to
//! return it. The score is antisymmetric in the side to move
//! (`lemma_evaluate_antisymmetric`).

use vstd::prelude::*;
use crate::defs::{EMPTY, PAWN, BISHOP, KNIGHT, ROOK, QUEEN, WHITE, BLACK, side_of};
use crate::game::Game;
use crate::square::{m8, map8x8, flip, flip_square};
use crate::tables::{spec_pawn_pcsq, spec_bishop_pcsq, spec_knight_pcsq, pawn_pcsq, bishop_pcsq,
    knight_pcsq};

verus! {

pub const DOUBLED_PAWN_PENALTY: i64 = 10;

pub const ISOLATED_PAWN_PENALTY: i64 = 20;

pub const BACKWARDS_PAWN_PENALTY: i64 = 8;

pub const PASSED_PAWN_BONUS: i64 = 20;

pub const ROOK_SEMI_OPEN_FILE_BONUS: i64 = 10;

pub const ROOK_OPEN_FILE_BONUS: i64 = 15;

pub const ROOK_ON_SEVENTH_BONUS: i64 = 20;

/// The most advanced row (0..8 from Black's side, 0 when absent) that a
/// white pawn on file column `f` reaches among the first `i` squares.
pub open spec fn wpr_rec(b: Seq<u8>, f: int, i: int) -> int
    decreases i when 0 <= i <= 64
{
    if i <= 0 {
        0
    } else {
        let prev = wpr_rec(b, f, i - 1);
        if b[m8(i - 1)] == WHITE + PAWN && m8(i - 1) % 10 == f && (i - 1) / 8 > prev {
            (i - 1) / 8
        } else {
            prev
        }
    }
}

/// The white pawn skyline of file column `f` (1..=8; 0 and 9 are empty
/// sentinels): the largest row a white pawn on that file occupies, 0 when
/// none does.
pub open spec fn white_pawn_rank(b: Seq<u8>, f: int) -> int {
    wpr_rec(b, f, 64)
}

/// The least row (7 when absent) that a black pawn on file column `f`
/// reaches among the first `i` squares.
pub open spec fn bpr_rec(b: Seq<u8>, f: int, i: int) -> int
    decreases i when 0 <= i <= 64
{
    if i <= 0 {
        7
    } else {
        let prev = bpr_rec(b, f, i - 1);
        if b[m8(i - 1)] == BLACK + PAWN && m8(i - 1) % 10 == f && (i - 1) / 8 < prev {
            (i - 1) / 8
        } else {
            prev
        }
    }
}

/// The black pawn skyline of file column `f`: the least row a black pawn
/// on that file occupies, 7 when none does.
pub open spec fn black_pawn_rank(b: Seq<u8>, f: int) -> int {
    bpr_rec(b, f, 64)
}

pub proof fn lemma_wpr_bounds(b: Seq<u8>, f: int, i: int)
    requires
        0 <= i <= 64,
    ensures
        0 <= wpr_rec(b, f, i) <= 7,
        0 <= bpr_rec(b, f, i) <= 7,
    decreases i,
{
    if i > 0 {
        lemma_wpr_bounds(b, f, i - 1);
    }
}

/// White material among the first `i` squares: pawns at 100.
pub open spec fn wpawn_mat(b: Seq<u8>, i: int) -> int
    decreases i when 0 <= i <= 64
{
    if i <= 0 {
        0
    } else {
        wpawn_mat(b, i - 1) + if b[m8(i - 1)] == WHITE + PAWN {
            100int
        } else {
            0int
        }
    }
}

/// White material among the first `i` squares: bishops and knights at
/// 300, rooks at 500, queens at 900; kings contribute nothing.
pub open spec fn wpiece_mat(b: Seq<u8>, i: int) -> int
    decreases i when 0 <= i <= 64
{
    if i <= 0 {
        0
    } else {
        let p = b[m8(i - 1)];
        wpiece_mat(b, i - 1) + if p == WHITE + BISHOP || p == WHITE + KNIGHT {
            300int
        } else if p == WHITE + ROOK {
            500int
        } else if p == WHITE + QUEEN {
            900int
        } else {
            0int
        }
    }
}

/// Black pawn material among the first `i` squares.
pub open spec fn bpawn_mat(b: Seq<u8>, i: int) -> int
    decreases i when 0 <= i <= 64
{
    if i <= 0 {
        0
    } else {
        bpawn_mat(b, i - 1) + if b[m8(i - 1)] == BLACK + PAWN {
            100int
        } else {
            0int
        }
    }
}

/// Black piece material among the first `i` squares.
pub open spec fn bpiece_mat(b: Seq<u8>, i: int) -> int
    decreases i when 0 <= i <= 64
{
    if i <= 0 {
        0
    } else {
        let p = b[m8(i - 1)];
        bpiece_mat(b, i - 1) + if p == BLACK + BISHOP || p == BLACK + KNIGHT {
            300int
        } else if p == BLACK + ROOK {
            500int
        } else if p == BLACK + QUEEN {
            900int
        } else {
            0int
        }
    }
}

/// The positional score of a white pawn on square `i`: its piece-square
/// bonus, less the doubled, isolated or backwards penalty, plus the
/// passed-pawn bonus scaled by its distance to promotion.
pub open spec fn white_pawn_term(b: Seq<u8>, i: int) -> int {
    let f = i % 8 + 1;
    let r = i / 8;
    spec_pawn_pcsq(i) + (if white_pawn_rank(b, f) > r {
        -(DOUBLED_PAWN_PENALTY as int)
    } else {
        0int
    }) + (if white_pawn_rank(b, f - 1) == 0 && white_pawn_rank(b, f + 1) == 0 {
        -(ISOLATED_PAWN_PENALTY as int)
    } else if white_pawn_rank(b, f - 1) < r && white_pawn_rank(b, f + 1) < r {
        -(BACKWARDS_PAWN_PENALTY as int)
    } else {
        0int
    }) + (if black_pawn_rank(b, f - 1) >= r && black_pawn_rank(b, f) >= r && black_pawn_rank(
        b,
        f + 1,
    ) >= r {
        (7 - r) * (PASSED_PAWN_BONUS as int)
    } else {
        0int
    })
}

/// The positional score of a black pawn on square `i`, mirrored.
pub open spec fn black_pawn_term(b: Seq<u8>, i: int) -> int {
    let f = i % 8 + 1;
    let r = i / 8;
    spec_pawn_pcsq(flip(i)) + (if black_pawn_rank(b, f) < r {
        -(DOUBLED_PAWN_PENALTY as int)
    } else {
        0int
    }) + (if black_pawn_rank(b, f - 1) == 7 && black_pawn_rank(b, f + 1) == 7 {
        -(ISOLATED_PAWN_PENALTY as int)
    } else if black_pawn_rank(b, f - 1) > r && black_pawn_rank(b, f + 1) > r {
        -(BACKWARDS_PAWN_PENALTY as int)
    } else {
        0int
    }) + (if white_pawn_rank(b, f - 1) <= r && white_pawn_rank(b, f) <= r && white_pawn_rank(
        b,
        f + 1,
    ) <= r {
        r * (PASSED_PAWN_BONUS as int)
    } else {
        0int
    })
}

/// The positional score of a white rook on square `i`: the open or
/// semi-open file bonus, and the seventh-rank bonus.
pub open spec fn white_rook_term(b: Seq<u8>, i: int) -> int {
    (if white_pawn_rank(b, i % 8 + 1) == 0 {
        if black_pawn_rank(b, i % 8 + 1) == 7 {
            ROOK_OPEN_FILE_BONUS as int
        } else {
            ROOK_SEMI_OPEN_FILE_BONUS as int
        }
    } else {
        0int
    }) + (if i / 8 == 1 {
        ROOK_ON_SEVENTH_BONUS as int
    } else {
        0int
    })
}

/// The positional score of a black rook on square `i`, mirrored.
pub open spec fn black_rook_term(b: Seq<u8>, i: int) -> int {
    (if black_pawn_rank(b, i % 8 + 1) == 7 {
        if white_pawn_rank(b, i % 8 + 1) == 0 {
            ROOK_OPEN_FILE_BONUS as int
        } else {
            ROOK_SEMI_OPEN_FILE_BONUS as int
        }
    } else {
        0int
    }) + (if i / 8 == 6 {
        ROOK_ON_SEVENTH_BONUS as int
    } else {
        0int
    })
}

/// The white positional score among the first `i` squares.
pub open spec fn wpos(b: Seq<u8>, i: int) -> int
    decreases i when 0 <= i <= 64
{
    if i <= 0 {
        0
    } else {
        let p = b[m8(i - 1)];
        wpos(b, i - 1) + if p == WHITE + PAWN {
            white_pawn_term(b, i - 1)
        } else if p == WHITE + BISHOP {
            spec_bishop_pcsq(i - 1)
        } else if p == WHITE + KNIGHT {
            spec_knight_pcsq(i - 1)
        } else if p == WHITE + ROOK {
            white_rook_term(b, i - 1)
        } else {
            0int
        }
    }
}

/// The black positional score among the first `i` squares.
pub open spec fn bpos(b: Seq<u8>, i: int) -> int
    decreases i when 0 <= i <= 64
{
    if i <= 0 {
        0
    } else {
        let p = b[m8(i - 1)];
        bpos(b, i - 1) + if p == BLACK + PAWN {
            black_pawn_term(b, i - 1)
        } else if p == BLACK + BISHOP {
            spec_bishop_pcsq(flip(i - 1))
        } else if p == BLACK + KNIGHT {
            spec_knight_pcsq(flip(i - 1))
        } else if p == BLACK + ROOK {
            black_rook_term(b, i - 1)
        } else {
            0int
        }
    }
}

/// White's total score: material plus positional bonuses.
pub open spec fn white_total(b: Seq<u8>) -> int {
    wpawn_mat(b, 64) + wpiece_mat(b, 64) + wpos(b, 64)
}

/// Black's total score: material plus positional bonuses.
pub open spec fn black_total(b: Seq<u8>) -> int {
    bpawn_mat(b, 64) + bpiece_mat(b, 64) + bpos(b, 64)
}

/// The static score of a position in centipawns, from the side to move's
/// perspective: positive means good for the side to move.
pub open spec fn spec_evaluate(b: Seq<u8>, side: u8) -> int {
    if side == WHITE {
        white_total(b) - black_total(b)
    } else {
        black_total(b) - white_total(b)
    }
}

proof fn lemma_pawn_term_bounds(b: Seq<u8>, i: int)
    requires
        0 <= i < 64,
    ensures
        -70 <= white_pawn_term(b, i) <= 160,
        -70 <= black_pawn_term(b, i) <= 160,
        0 <= white_rook_term(b, i) <= 35,
        0 <= black_rook_term(b, i) <= 35,
{
    lemma_wpr_bounds(b, i % 8, 64);
    lemma_wpr_bounds(b, i % 8 + 1, 64);
    lemma_wpr_bounds(b, i % 8 + 2, 64);
    crate::square::lemma_flip(i);
}

proof fn lemma_total_bounds(b: Seq<u8>, i: int)
    requires
        0 <= i <= 64,
    ensures
        0 <= wpawn_mat(b, i) <= 100 * i,
        0 <= wpiece_mat(b, i) <= 900 * i,
        0 <= bpawn_mat(b, i) <= 100 * i,
        0 <= bpiece_mat(b, i) <= 900 * i,
        -70 * i <= wpos(b, i) <= 160 * i,
        -70 * i <= bpos(b, i) <= 160 * i,
    decreases i,
{
    if i > 0 {
        lemma_total_bounds(b, i - 1);
        lemma_pawn_term_bounds(b, i - 1);
    }
}

/// The piece-square score of a white pawn, and its pawn-structure
/// penalties and bonuses, read off the two pawn skylines.
fn evaluate_white_pawn(i: usize, wpr_v: &Vec<usize>, bpr_v: &Vec<usize>, Ghost(b): Ghost<
    Seq<u8>,
>) -> (s: i64)
    requires
        i < 64,
        wpr_v@.len() == 10,
        bpr_v@.len() == 10,
        forall|f: int| 0 <= f < 10 ==> #[trigger] wpr_v@[f] == white_pawn_rank(b, f),
        forall|f: int| 0 <= f < 10 ==> #[trigger] bpr_v@[f] == black_pawn_rank(b, f),
    ensures
        s == white_pawn_term(b, i as int),
        -70 <= s <= 160,
{
    proof {
        lemma_pawn_term_bounds(b, i as int);
    }
    let f = i % 8 + 1;
    let r = i / 8;
    let mut s: i64 = pawn_pcsq(i);
    if wpr_v[f] > r {
        s = s - DOUBLED_PAWN_PENALTY;
    }
    if wpr_v[f - 1] == 0 && wpr_v[f + 1] == 0 {
        s = s - ISOLATED_PAWN_PENALTY;
    } else if wpr_v[f - 1] < r && wpr_v[f + 1] < r {
        s = s - BACKWARDS_PAWN_PENALTY;
    }
    if bpr_v[f - 1] >= r && bpr_v[f] >= r && bpr_v[f + 1] >= r {
        s = s + (7 - r as i64) * PASSED_PAWN_BONUS;
    }
    s
}

/// The piece-square score of a black pawn, mirrored, and its
/// pawn-structure penalties and bonuses.
fn evaluate_black_pawn(i: usize, wpr_v: &Vec<usize>, bpr_v: &Vec<usize>, Ghost(b): Ghost<
    Seq<u8>,
>) -> (s: i64)
    requires
        i < 64,
        wpr_v@.len() == 10,
        bpr_v@.len() == 10,
        forall|f: int| 0 <= f < 10 ==> #[trigger] wpr_v@[f] == white_pawn_rank(b, f),
        forall|f: int| 0 <= f < 10 ==> #[trigger] bpr_v@[f] == black_pawn_rank(b, f),
    ensures
        s == black_pawn_term(b, i as int),
        -70 <= s <= 160,
{
    proof {
        lemma_pawn_term_bounds(b, i as int);
    }
    let f = i % 8 + 1;
    let r = i / 8;
    let mut s: i64 = pawn_pcsq(flip_square(i));
    if bpr_v[f] < r {
        s = s - DOUBLED_PAWN_PENALTY;
    }
    if bpr_v[f - 1] == 7 && bpr_v[f + 1] == 7 {
        s = s - ISOLATED_PAWN_PENALTY;
    } else if bpr_v[f - 1] > r && bpr_v[f + 1] > r {
        s = s - BACKWARDS_PAWN_PENALTY;
    }
    if wpr_v[f - 1] <= r && wpr_v[f] <= r && wpr_v[f + 1] <= r {
        s = s + (r as i64) * PASSED_PAWN_BONUS;
    }
    s
}

impl Game {
    /// The static score of this position in centipawns from the side to
    /// move's perspective: material, piece-square bonuses, pawn-structure
    /// penalties and bonuses, and rook file and seventh-rank bonuses,
    /// with White's and Black's totals differenced toward the mover.
    #[verifier::loop_isolation(false)]
    pub fn evaluate(&self) -> (r: i64)
        requires
            self.board@.len() == 120,
        ensures
            r == spec_evaluate(self.board@, side_of(self.state)),
            -100000 < r < 100000,
    {
        let ghost b = self.board@;
        let mut white_pawn_mat: i64 = 0;
        let mut white_piece_mat: i64 = 0;
        let mut black_pawn_mat: i64 = 0;
        let mut black_piece_mat: i64 = 0;
        let mut white_pawn_rank_v: Vec<usize> = vec![0, 0, 0, 0, 0, 0, 0, 0, 0, 0];
        let mut black_pawn_rank_v: Vec<usize> = vec![7, 7, 7, 7, 7, 7, 7, 7, 7, 7];
        let mut i: usize = 0;
        while i < 64
            invariant
                i <= 64,
                white_pawn_rank_v@.len() == 10,
                black_pawn_rank_v@.len() == 10,
                forall|f: int| 0 <= f < 10 ==> #[trigger] white_pawn_rank_v@[f] == wpr_rec(b, f, i as int),
                forall|f: int| 0 <= f < 10 ==> #[trigger] black_pawn_rank_v@[f] == bpr_rec(b, f, i as int),
                white_pawn_mat == wpawn_mat(b, i as int),
                white_piece_mat == wpiece_mat(b, i as int),
                black_pawn_mat == bpawn_mat(b, i as int),
                black_piece_mat == bpiece_mat(b, i as int),
                0 <= white_pawn_mat <= 100 * i,
                0 <= white_piece_mat <= 900 * i,
                0 <= black_pawn_mat <= 100 * i,
                0 <= black_piece_mat <= 900 * i,
            decreases 64 - i,
        {
            let pos = map8x8(i);
            let piece = self.board[pos];
            if piece == WHITE + PAWN {
                white_pawn_mat += 100;
                let f = pos % 10;
                if i / 8 > white_pawn_rank_v[f] {
                    white_pawn_rank_v[f] = i / 8;
                }
            } else if piece == WHITE + BISHOP {
                white_piece_mat += 300;
            } else if piece == WHITE + KNIGHT {
                white_piece_mat += 300;
            } else if piece == WHITE + ROOK {
                white_piece_mat += 500;
            } else if piece == WHITE + QUEEN {
                white_piece_mat += 900;
            } else if piece == BLACK + PAWN {
                black_pawn_mat += 100;
                let f = pos % 10;
                if i / 8 < black_pawn_rank_v[f] {
                    black_pawn_rank_v[f] = i / 8;
                }
            } else if piece == BLACK + BISHOP {
                black_piece_mat += 300;
            } else if piece == BLACK + KNIGHT {
                black_piece_mat += 300;
            } else if piece == BLACK + ROOK {
                black_piece_mat += 500;
            } else if piece == BLACK + QUEEN {
                black_piece_mat += 900;
            }
            i += 1;
        }
        let mut white_score: i64 = white_piece_mat + white_pawn_mat;
        let mut black_score: i64 = black_piece_mat + black_pawn_mat;
        let ghost wtot0: int = white_score as int;
        let ghost btot0: int = black_score as int;
        let mut i: usize = 0;
        while i < 64
            invariant
                i <= 64,
                white_pawn_rank_v@.len() == 10,
                black_pawn_rank_v@.len() == 10,
                forall|f: int| 0 <= f < 10 ==> #[trigger] white_pawn_rank_v@[f] == white_pawn_rank(
                    b,
                    f,
                ),
                forall|f: int| 0 <= f < 10 ==> #[trigger] black_pawn_rank_v@[f] == black_pawn_rank(
                    b,
                    f,
                ),
                wtot0 == wpawn_mat(b, 64) + wpiece_mat(b, 64),
                btot0 == bpawn_mat(b, 64) + bpiece_mat(b, 64),
                0 <= wtot0 <= 64000,
                0 <= btot0 <= 64000,
                white_score == wtot0 + wpos(b, i as int),
                black_score == btot0 + bpos(b, i as int),
                -70 * i <= wpos(b, i as int) <= 160 * i,
                -70 * i <= bpos(b, i as int) <= 160 * i,
            decreases 64 - i,
        {
            let pos = map8x8(i);
            let piece = self.board[pos];
            proof {
                lemma_pawn_term_bounds(b, i as int);
            }
            if piece == WHITE + PAWN {
                white_score += evaluate_white_pawn(
                    i,
                    &white_pawn_rank_v,
                    &black_pawn_rank_v,
                    Ghost(b),
                );
            } else if piece == WHITE + BISHOP {
                white_score += bishop_pcsq(i);
            } else if piece == WHITE + KNIGHT {
                white_score += knight_pcsq(i);
            } else if piece == WHITE + ROOK {
                if white_pawn_rank_v[i % 8 + 1] == 0 {
                    if black_pawn_rank_v[i % 8 + 1] == 7 {
                        white_score += ROOK_OPEN_FILE_BONUS;
                    } else {
                        white_score += ROOK_SEMI_OPEN_FILE_BONUS;
                    }
                }
                if i / 8 == 1 {
                    white_score += ROOK_ON_SEVENTH_BONUS;
                }
            } else if piece == BLACK + PAWN {
                black_score += evaluate_black_pawn(
                    i,
                    &white_pawn_rank_v,
                    &black_pawn_rank_v,
                    Ghost(b),
                );
            } else if piece == BLACK + BISHOP {
                black_score += bishop_pcsq(flip_square(i));
            } else if piece == BLACK + KNIGHT {
                black_score += knight_pcsq(flip_square(i));
            } else if piece == BLACK + ROOK {
                if black_pawn_rank_v[i % 8 + 1] == 7 {
                    if white_pawn_rank_v[i % 8 + 1] == 0 {
                        black_score += ROOK_OPEN_FILE_BONUS;
                    } else {
                        black_score += ROOK_SEMI_OPEN_FILE_BONUS;
                    }
                }
                if i / 8 == 6 {
                    black_score += ROOK_ON_SEVENTH_BONUS;
                }
            }
            i += 1;
        }
        let side = crate::defs::state_side(self.state);
        if side == WHITE {
            white_score - black_score
        } else {
            black_score - white_score
        }
    }
}

/// The evaluation is antisymmetric in the side to move: two positions
/// that differ only in whose turn it is score as exact negations of each
/// other. In particular a symmetric position scores zero for both sides.
pub proof fn lemma_evaluate_antisymmetric(b: Seq<u8>)
    ensures
        spec_evaluate(b, WHITE) == -spec_evaluate(b, BLACK),
{
}

} // verus!
