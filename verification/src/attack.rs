//! The attack detector: is a square attacked by a given color?
//!
//! `attacks` is the mathematical definition; `attacked` is the executable
//! detector, proved equal to it. Rays rely on the off-board sentinel: a
//! sliding probe from an on-board cell always terminates at a non-empty
//! cell before leaving the 120-cell array.

use vstd::prelude::*;
use crate::defs::{EMPTY, PAWN, BISHOP, KNIGHT, ROOK, QUEEN, KING, WHITE, BLACK, OFF_BOARD,
    is_piece};
use crate::square::sq_on_board;

verus! {

/// Well-formedness of a mailbox board: 120 cells, off-board cells hold the
/// sentinel, on-board cells hold a piece or are empty.
pub open spec fn board_wf(b: Seq<u8>) -> bool {
    &&& b.len() == 120
    &&& (forall|i: int| 0 <= i < 120 && !sq_on_board(i) ==> b[i] == OFF_BOARD)
    &&& (forall|i: int| #![trigger b[i]] sq_on_board(i) ==> b[i] == EMPTY || is_piece(b[i]))
}

/// A step by `d` from `pos` lands on the piece `t`.
pub open spec fn jump_hit(b: Seq<u8>, pos: int, d: int, t: u8) -> bool {
    0 <= pos + d < 120 && b[pos + d] == t
}

/// Sliding from `pos` in direction `d` over empty cells reaches the piece
/// `t` before any other non-empty cell.
pub open spec fn ray_hit(b: Seq<u8>, pos: int, d: int, t: u8) -> bool
    decreases (if d > 0 { 121 - pos } else { pos + 121 }) when d != 0 && -121 <= pos <= 241
{
    if 0 <= pos + d < 120 {
        if b[pos + d] == t {
            true
        } else if b[pos + d] == EMPTY {
            ray_hit(b, pos + d, d, t)
        } else {
            false
        }
    } else {
        false
    }
}

/// A pawn of color `c` attacks `pos` (diagonally, toward its own side).
pub open spec fn pawn_attacks(b: Seq<u8>, pos: int, c: u8) -> bool {
    if c == WHITE {
        jump_hit(b, pos, 9, (WHITE + PAWN) as u8) || jump_hit(b, pos, 11, (WHITE + PAWN) as u8)
    } else {
        jump_hit(b, pos, -9, (BLACK + PAWN) as u8) || jump_hit(b, pos, -11, (BLACK + PAWN) as u8)
    }
}

/// A knight of color `c` attacks `pos`.
pub open spec fn knight_attacks(b: Seq<u8>, pos: int, c: u8) -> bool {
    let t = (c + KNIGHT) as u8;
    jump_hit(b, pos, -21, t) || jump_hit(b, pos, -19, t) || jump_hit(b, pos, -12, t) || jump_hit(
        b,
        pos,
        -8,
        t,
    ) || jump_hit(b, pos, 8, t) || jump_hit(b, pos, 12, t) || jump_hit(b, pos, 19, t) || jump_hit(
        b,
        pos,
        21,
        t,
    )
}

/// A bishop of color `c` attacks `pos` along a clear diagonal.
pub open spec fn bishop_attacks(b: Seq<u8>, pos: int, c: u8) -> bool {
    let t = (c + BISHOP) as u8;
    ray_hit(b, pos, -11, t) || ray_hit(b, pos, -9, t) || ray_hit(b, pos, 9, t) || ray_hit(
        b,
        pos,
        11,
        t,
    )
}

/// A rook of color `c` attacks `pos` along a clear rank or file.
pub open spec fn rook_attacks(b: Seq<u8>, pos: int, c: u8) -> bool {
    let t = (c + ROOK) as u8;
    ray_hit(b, pos, -1, t) || ray_hit(b, pos, 1, t) || ray_hit(b, pos, -10, t) || ray_hit(
        b,
        pos,
        10,
        t,
    )
}

/// A queen of color `c` attacks `pos` along a clear line or diagonal.
pub open spec fn queen_attacks(b: Seq<u8>, pos: int, c: u8) -> bool {
    let t = (c + QUEEN) as u8;
    ray_hit(b, pos, -1, t) || ray_hit(b, pos, 1, t) || ray_hit(b, pos, -10, t) || ray_hit(
        b,
        pos,
        10,
        t,
    ) || ray_hit(b, pos, -11, t) || ray_hit(b, pos, -9, t) || ray_hit(b, pos, 9, t) || ray_hit(
        b,
        pos,
        11,
        t,
    )
}

/// The king of color `c` attacks `pos` from an adjacent cell.
pub open spec fn king_attacks(b: Seq<u8>, pos: int, c: u8) -> bool {
    let t = (c + KING) as u8;
    jump_hit(b, pos, -1, t) || jump_hit(b, pos, 1, t) || jump_hit(b, pos, -10, t) || jump_hit(
        b,
        pos,
        10,
        t,
    ) || jump_hit(b, pos, -11, t) || jump_hit(b, pos, -9, t) || jump_hit(b, pos, 9, t) || jump_hit(
        b,
        pos,
        11,
        t,
    )
}

/// Color `c` attacks the cell `pos`: some piece of that color gives check
/// to a hypothetical piece standing there.
pub open spec fn attacks(b: Seq<u8>, pos: int, c: u8) -> bool {
    ||| pawn_attacks(b, pos, c)
    ||| bishop_attacks(b, pos, c)
    ||| knight_attacks(b, pos, c)
    ||| rook_attacks(b, pos, c)
    ||| queen_attacks(b, pos, c)
    ||| king_attacks(b, pos, c)
}

/// Scans the ray from `pos` in direction `delta` and reports whether the
/// first non-empty cell holds `target`.
pub fn ray_hits(board: &Vec<u8>, pos: usize, delta: i32, target: u8) -> (r: bool)
    requires
        board_wf(board@),
        sq_on_board(pos as int),
        delta == 1 || delta == -1 || delta == 10 || delta == -10 || delta == 9 || delta == -9
            || delta == 11 || delta == -11,
        target != EMPTY,
    ensures
        r == ray_hit(board@, pos as int, delta as int, target),
{
    let mut cur: usize = pos;
    loop
        invariant
            board_wf(board@),
            sq_on_board(cur as int),
            target != EMPTY,
            delta == 1 || delta == -1 || delta == 10 || delta == -10 || delta == 9 || delta == -9
                || delta == 11 || delta == -11,
            ray_hit(board@, pos as int, delta as int, target) == ray_hit(
                board@,
                cur as int,
                delta as int,
                target,
            ),
        decreases (if delta > 0 { 120 - cur } else { cur as int }),
    {
        let next = (cur as i32 + delta) as usize;
        proof {
            assert(0 <= cur + delta < 120);
            assert(next == cur + delta);
        }
        if board[next] == EMPTY {
            proof {
                assert(sq_on_board(next as int)) by {
                    assert(board@[next as int] != OFF_BOARD);
                }
                assert(ray_hit(board@, cur as int, delta as int, target) == ray_hit(
                    board@,
                    next as int,
                    delta as int,
                    target,
                )) by {
                    reveal_with_fuel(ray_hit, 2);
                }
            }
            cur = next;
        } else {
            return board[next] == target;
        }
    }
}

/// A step by `d` from `pos` lands on the piece `t`.
fn jump_is(board: &Vec<u8>, pos: usize, d: i32, t: u8) -> (r: bool)
    requires
        board@.len() == 120,
        sq_on_board(pos as int),
        -21 <= d <= 21,
    ensures
        r == jump_hit(board@, pos as int, d as int, t),
{
    let next = (pos as i32 + d) as usize;
    board[next] == t
}

/// Reports whether the color `color` attacks the cell `pos`: pawn
/// diagonals, then bishop rays, knight jumps, rook rays, queen rays and
/// king adjacency, each terminated by the off-board sentinel.
pub fn attacked(board: &Vec<u8>, pos: usize, color: u8) -> (r: bool)
    requires
        board_wf(board@),
        sq_on_board(pos as int),
        color == WHITE || color == BLACK,
    ensures
        r == attacks(board@, pos as int, color),
{
    if color == WHITE {
        if jump_is(board, pos, 9, WHITE + PAWN) || jump_is(board, pos, 11, WHITE + PAWN) {
            return true;
        }
    } else {
        if jump_is(board, pos, -9, BLACK + PAWN) || jump_is(board, pos, -11, BLACK + PAWN) {
            return true;
        }
    }
    let bishop = color + BISHOP;
    if ray_hits(board, pos, -11, bishop) || ray_hits(board, pos, -9, bishop) || ray_hits(
        board,
        pos,
        9,
        bishop,
    ) || ray_hits(board, pos, 11, bishop) {
        return true;
    }
    let knight = color + KNIGHT;
    if jump_is(board, pos, -21, knight) || jump_is(board, pos, -19, knight) || jump_is(
        board,
        pos,
        -12,
        knight,
    ) || jump_is(board, pos, -8, knight) || jump_is(board, pos, 8, knight) || jump_is(
        board,
        pos,
        12,
        knight,
    ) || jump_is(board, pos, 19, knight) || jump_is(board, pos, 21, knight) {
        return true;
    }
    let rook = color + ROOK;
    if ray_hits(board, pos, -1, rook) || ray_hits(board, pos, 1, rook) || ray_hits(
        board,
        pos,
        -10,
        rook,
    ) || ray_hits(board, pos, 10, rook) {
        return true;
    }
    let queen = color + QUEEN;
    if ray_hits(board, pos, -1, queen) || ray_hits(board, pos, 1, queen) || ray_hits(
        board,
        pos,
        -10,
        queen,
    ) || ray_hits(board, pos, 10, queen) || ray_hits(board, pos, -11, queen) || ray_hits(
        board,
        pos,
        -9,
        queen,
    ) || ray_hits(board, pos, 9, queen) || ray_hits(board, pos, 11, queen) {
        return true;
    }
    let king = color + KING;
    if jump_is(board, pos, -1, king) || jump_is(board, pos, 1, king) || jump_is(
        board,
        pos,
        -10,
        king,
    ) || jump_is(board, pos, 10, king) || jump_is(board, pos, -11, king) || jump_is(
        board,
        pos,
        -9,
        king,
    ) || jump_is(board, pos, 9, king) || jump_is(board, pos, 11, king) {
        return true;
    }
    false
}

} // verus!
