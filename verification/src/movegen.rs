//! Pseudo-legal move generation.
//!
//! `generate_moves` yields every pseudo-legal move for the side to move;
//! `capture_moves` yields the captures and capture-promotions only (for
//! quiescence). Both may leave the mover's own king in check: legality is
//! enforced by `make_move`. Every emitted move is plausible in the sense of
//! `make_move`'s precondition, so a caller may feed the list straight to it.

use vstd::prelude::*;
use crate::attack::{attacks, attacked, board_wf, ray_hit, jump_hit};
use crate::defs::{EMPTY, PAWN, BISHOP, KNIGHT, ROOK, QUEEN, KING, WHITE, BLACK, opposite,
    is_piece, kind_of, color_of, ep_of, side_of};
use crate::game::Game;
use crate::makemove::plausible_on;
use crate::moves::{Move, mv_core, mv_from, mv_to, mv_prom, pack_move, encode_move};
use crate::square::{sq_on_board, map8x8};

verus! {

/// Sliding from `from` in direction `d` over empty cells arrives at the
/// cell `to`.
pub open spec fn ray_reaches(b: Seq<u8>, from: int, d: int, to: int) -> bool
    decreases (if d > 0 { 121 - from } else { from + 121 }) when d != 0 && -121 <= from <= 241
{
    if 0 <= from + d < 120 {
        if from + d == to {
            true
        } else if b[from + d] == EMPTY {
            ray_reaches(b, from + d, d, to)
        } else {
            false
        }
    } else {
        false
    }
}

/// A ray over empty cells extends one more empty cell.
pub proof fn lemma_ray_extend(b: Seq<u8>, from: int, d: int, x: int)
    requires
        d != 0,
        -121 <= from <= 241,
        0 <= x < 120,
        ray_reaches(b, from, d, x),
        b[x] == EMPTY,
        0 <= x + d < 120,
    ensures
        ray_reaches(b, from, d, x + d),
    decreases (if d > 0 { 121 - from } else { from + 121 }),
{
    if from + d == x {
        assert(ray_reaches(b, x, d, x + d));
    } else {
        lemma_ray_extend(b, from + d, d, x);
    }
}

/// The target cell admits a move of the side: empty (quiet moves only
/// when all moves are wanted) or held by the opponent.
pub open spec fn move_target_ok(b: Seq<u8>, to: int, side: u8, captures_only: bool) -> bool {
    (b[to] == EMPTY && !captures_only) || color_of(b[to]) == opposite(side)
}

/// White may castle king-side: the right is held, the path is empty, and
/// neither the king's square nor the one it crosses is attacked.
pub open spec fn castle_white_kingside(b: Seq<u8>, s: u32) -> bool {
    &&& crate::defs::castling_of(s) / 1 % 2 == 1
    &&& b[96] == EMPTY
    &&& b[97] == EMPTY
    &&& !attacks(b, 95, BLACK)
    &&& !attacks(b, 96, BLACK)
}

/// White may castle queen-side.
pub open spec fn castle_white_queenside(b: Seq<u8>, s: u32) -> bool {
    &&& crate::defs::castling_of(s) / 2 % 2 == 1
    &&& b[94] == EMPTY
    &&& b[93] == EMPTY
    &&& b[92] == EMPTY
    &&& !attacks(b, 95, BLACK)
    &&& !attacks(b, 94, BLACK)
}

/// Black may castle king-side.
pub open spec fn castle_black_kingside(b: Seq<u8>, s: u32) -> bool {
    &&& crate::defs::castling_of(s) / 4 % 2 == 1
    &&& b[26] == EMPTY
    &&& b[27] == EMPTY
    &&& !attacks(b, 25, WHITE)
    &&& !attacks(b, 26, WHITE)
}

/// Black may castle queen-side.
pub open spec fn castle_black_queenside(b: Seq<u8>, s: u32) -> bool {
    &&& crate::defs::castling_of(s) / 8 % 2 == 1
    &&& b[24] == EMPTY
    &&& b[23] == EMPTY
    &&& b[22] == EMPTY
    &&& !attacks(b, 25, WHITE)
    &&& !attacks(b, 24, WHITE)
}

/// The pseudo-legal moves of a white pawn on `from`: single and double
/// pushes (and push-promotions) unless captures only, diagonal captures,
/// capture-promotions, and the en-passant capture.
pub open spec fn emits_white_pawn(
    b: Seq<u8>,
    ep: int,
    from: int,
    to: int,
    prom: u64,
    captures_only: bool,
) -> bool {
    if from / 10 == 3 {
        &&& (prom == crate::defs::BISHOP as u64 || prom == crate::defs::KNIGHT as u64 || prom
            == crate::defs::ROOK as u64 || prom == crate::defs::QUEEN as u64)
        &&& ((!captures_only && to == from - 10 && b[to] == EMPTY) || (to == from - 11 && color_of(
            b[to],
        ) == BLACK) || (to == from - 9 && color_of(b[to]) == BLACK))
    } else {
        &&& prom == EMPTY as u64
        &&& ((!captures_only && to == from - 10 && b[to] == EMPTY) || (!captures_only && from / 10
            == 8 && to == from - 20 && b[from - 10] == EMPTY && b[to] == EMPTY) || (to == from - 11
            && (color_of(b[to]) == BLACK || to == ep)) || (to == from - 9 && (color_of(b[to])
            == BLACK || to == ep)))
    }
}

/// The pseudo-legal moves of a black pawn on `from`, mirrored.
pub open spec fn emits_black_pawn(
    b: Seq<u8>,
    ep: int,
    from: int,
    to: int,
    prom: u64,
    captures_only: bool,
) -> bool {
    if from / 10 == 8 {
        &&& (prom == crate::defs::BISHOP as u64 || prom == crate::defs::KNIGHT as u64 || prom
            == crate::defs::ROOK as u64 || prom == crate::defs::QUEEN as u64)
        &&& ((!captures_only && to == from + 10 && b[to] == EMPTY) || (to == from + 11 && color_of(
            b[to],
        ) == WHITE) || (to == from + 9 && color_of(b[to]) == WHITE))
    } else {
        &&& prom == EMPTY as u64
        &&& ((!captures_only && to == from + 10 && b[to] == EMPTY) || (!captures_only && from / 10
            == 3 && to == from + 20 && b[from + 10] == EMPTY && b[to] == EMPTY) || (to == from + 11
            && (color_of(b[to]) == WHITE || to == ep)) || (to == from + 9 && (color_of(b[to])
            == WHITE || to == ep)))
    }
}

/// The pseudo-legal moves of a position: a piece of the side to move, a
/// target its movement reaches over the current occupancy that is empty
/// (unless captures only) or enemy-held, promotions exactly for pawns
/// reaching the last rank, the en-passant capture, and castling under
/// its rights, path and attack conditions. `generate_moves` returns
/// exactly this set (with `captures_only` false); `capture_moves`
/// exactly the captures (with it true).
pub open spec fn emits(b: Seq<u8>, s: u32, m: Move, captures_only: bool) -> bool {
    let from = mv_from(m) as int;
    let to = mv_to(m) as int;
    let prom = mv_prom(m);
    let side = side_of(s);
    let piece = b[from];
    let ep = ep_of(s) as int;
    let kind = kind_of(piece);
    &&& m == pack_move(mv_from(m), mv_to(m), mv_prom(m))
    &&& sq_on_board(from)
    &&& is_piece(piece)
    &&& color_of(piece) == side
    &&& if kind == PAWN {
        if side == WHITE {
            emits_white_pawn(b, ep, from, to, prom, captures_only)
        } else {
            emits_black_pawn(b, ep, from, to, prom, captures_only)
        }
    } else if kind == BISHOP {
        prom == EMPTY as u64 && move_target_ok(b, to, side, captures_only) && (ray_reaches(
            b,
            from,
            -11,
            to,
        ) || ray_reaches(b, from, -9, to) || ray_reaches(b, from, 9, to) || ray_reaches(
            b,
            from,
            11,
            to,
        ))
    } else if kind == KNIGHT {
        prom == EMPTY as u64 && move_target_ok(b, to, side, captures_only) && (to == from - 21
            || to == from - 19 || to == from - 12 || to == from - 8 || to == from + 8 || to == from
            + 12 || to == from + 19 || to == from + 21)
    } else if kind == ROOK {
        prom == EMPTY as u64 && move_target_ok(b, to, side, captures_only) && (ray_reaches(
            b,
            from,
            -1,
            to,
        ) || ray_reaches(b, from, 1, to) || ray_reaches(b, from, -10, to) || ray_reaches(
            b,
            from,
            10,
            to,
        ))
    } else if kind == QUEEN {
        prom == EMPTY as u64 && move_target_ok(b, to, side, captures_only) && (ray_reaches(
            b,
            from,
            -1,
            to,
        ) || ray_reaches(b, from, 1, to) || ray_reaches(b, from, -10, to) || ray_reaches(
            b,
            from,
            10,
            to,
        ) || ray_reaches(b, from, -11, to) || ray_reaches(b, from, -9, to) || ray_reaches(
            b,
            from,
            9,
            to,
        ) || ray_reaches(b, from, 11, to))
    } else {
        prom == EMPTY as u64 && (((to == from - 1 || to == from + 1 || to == from - 10 || to == from
            + 10 || to == from - 11 || to == from - 9 || to == from + 9 || to == from + 11)
            && move_target_ok(b, to, side, captures_only)) || (!captures_only && piece == (WHITE
            + KING) as u8 && from == 95 && to == 93 && castle_white_queenside(b, s)) || (
        !captures_only && piece == (WHITE + KING) as u8 && from == 95 && to == 97
            && castle_white_kingside(b, s)) || (!captures_only && piece == (BLACK + KING) as u8
            && from == 25 && to == 23 && castle_black_queenside(b, s)) || (!captures_only && piece
            == (BLACK + KING) as u8 && from == 25 && to == 27 && castle_black_kingside(b, s)))
    }
}

impl Game {
    /// A pseudo-legal move of this position.
    pub open spec fn pseudo_legal(&self, m: Move) -> bool {
        emits(self.board@, self.state, m, false)
    }

    /// A legal move of this position: pseudo-legal, and `make_move`
    /// accepts it.
    pub open spec fn legal(&self, m: Move) -> bool {
        self.pseudo_legal(m) && self.move_plausible(m) && self.move_succeeds(m)
    }

    /// The position has at least one legal move (it is neither checkmate
    /// nor stalemate).
    pub open spec fn has_legal_move(&self) -> bool {
        exists|m: Move| self.legal(m)
    }
}

/// The move list grew by pseudo-legal, plausible moves only; what was
/// there stays, and stays contained.
pub open spec fn grew_plausibly(
    g: &Game,
    old_list: Seq<Move>,
    new_list: Seq<Move>,
    captures_only: bool,
) -> bool {
    &&& new_list.len() >= old_list.len()
    &&& (forall|k: int| 0 <= k < old_list.len() ==> new_list[k] == old_list[k])
    &&& (forall|x: Move| old_list.contains(x) ==> new_list.contains(x))
    &&& (forall|k: int|
        old_list.len() <= k < new_list.len() ==> g.move_plausible(#[trigger] new_list[k])
            && mv_core(new_list[k]) == new_list[k] && emits(
            g.board@,
            g.state,
            new_list[k],
            captures_only,
        ))
}

/// The jump offsets of a knight or king.
pub open spec fn jump_dir_of(kind: u8, d: int) -> bool {
    if kind == KNIGHT {
        d == -21 || d == -19 || d == -12 || d == -8 || d == 8 || d == 12 || d == 19 || d == 21
    } else if kind == KING {
        d == -1 || d == 1 || d == -10 || d == 10 || d == -11 || d == -9 || d == 9 || d == 11
    } else {
        false
    }
}

/// The ray directions of a bishop, rook or queen.
pub open spec fn ray_dir_of(kind: u8, d: int) -> bool {
    if kind == BISHOP {
        d == -11 || d == -9 || d == 9 || d == 11
    } else if kind == ROOK {
        d == -1 || d == 1 || d == -10 || d == 10
    } else if kind == QUEEN {
        d == -1 || d == 1 || d == -10 || d == 10 || d == -11 || d == -9 || d == 9 || d == 11
    } else {
        false
    }
}

/// A capture the capture generator admits is among the full generator's
/// pseudo-legal moves.
pub proof fn lemma_emits_weaken(b: Seq<u8>, s: u32, m: Move)
    requires
        emits(b, s, m, true),
    ensures
        emits(b, s, m, false),
{
}

/// A list that kept its prefix contains everything the prefix did.
pub proof fn lemma_contains_after_grow(pre: Seq<Move>, post: Seq<Move>)
    requires
        post.len() >= pre.len(),
        forall|k: int| 0 <= k < pre.len() ==> post[k] == pre[k],
    ensures
        forall|x: Move| pre.contains(x) ==> post.contains(x),
{
    assert forall|x: Move| pre.contains(x) implies post.contains(x) by {
        let k = choose|k: int| 0 <= k < pre.len() && pre[k] == x;
        assert(post[k] == x);
    }
}

impl Game {
    /// Emits the moves of a sliding piece on `from` along one direction:
    /// a quiet move for each empty cell (unless `captures_only`), then a
    /// capture if the ray ends on an enemy piece. Every cell the ray
    /// reaches with an admissible target gets its move.
    #[verifier::rlimit(100)]
    fn push_ray_moves(&self, list: &mut Vec<Move>, from: usize, delta: i32, captures_only: bool)
        requires
            self.wf(),
            self.opponent_king_safe(),
            sq_on_board(from as int),
            color_of(self.board@[from as int]) == self.side(),
            (self.board@[from as int] == (self.side() + BISHOP) as u8 && (delta == 9 || delta == -9
                || delta == 11 || delta == -11)) || (self.board@[from as int] == (self.side()
                + ROOK) as u8 && (delta == 1 || delta == -1 || delta == 10 || delta == -10)) || (
            self.board@[from as int] == (self.side() + QUEEN) as u8 && (delta == 1 || delta == -1
                || delta == 10 || delta == -10 || delta == 9 || delta == -9 || delta == 11 || delta
                == -11)),
        ensures
            grew_plausibly(self, old(list)@, final(list)@, captures_only),
            forall|t: int|
                ray_reaches(self.board@, from as int, delta as int, t) && move_target_ok(
                    self.board@,
                    t,
                    self.side(),
                    captures_only,
                ) ==> final(list)@.contains(pack_move(from as u64, t as u64, EMPTY as u64)),
    {
        let piece = self.board[from];
        let side = crate::defs::state_side(self.state);
        let xside = if side == WHITE {
            BLACK
        } else {
            WHITE
        };
        let mut to = (from as i32 + delta) as usize;
        proof {
            assert(0 <= from + delta < 120);
        }
        loop
            invariant
                self.wf(),
                self.opponent_king_safe(),
                sq_on_board(from as int),
                piece == self.board@[from as int],
                side == self.side(),
                xside == opposite(side),
                color_of(piece) == side,
                (piece == (side + BISHOP) as u8 && (delta == 9 || delta == -9 || delta == 11
                    || delta == -11)) || (piece == (side + ROOK) as u8 && (delta == 1 || delta == -1
                    || delta == 10 || delta == -10)) || (piece == (side + QUEEN) as u8 && (delta
                    == 1 || delta == -1 || delta == 10 || delta == -10 || delta == 9 || delta == -9
                    || delta == 11 || delta == -11)),
                0 <= to < 120,
                delta > 0 ==> to > from,
                delta < 0 ==> to < from,
                ray_hit(self.board@, to as int, -delta as int, piece),
                ray_reaches(self.board@, from as int, delta as int, to as int),
                grew_plausibly(self, old(list)@, list@, captures_only),
                forall|t: int|
                    ray_reaches(self.board@, from as int, delta as int, t) && move_target_ok(
                        self.board@,
                        t,
                        self.side(),
                        captures_only,
                    ) ==> list@.contains(pack_move(from as u64, t as u64, EMPTY as u64))
                        || ray_reaches(self.board@, to - delta, delta as int, t),
            decreases (if delta > 0 { 120 - to } else { to as int }),
        {
            let ghost pre_cell = to as int;
            let ghost head_list = list@;
            let c = self.board[to];
            if c == EMPTY {
                if !captures_only {
                    proof {
                        assert(sq_on_board(to as int)) by {
                            assert(self.board@[to as int] != crate::defs::OFF_BOARD);
                        }
                        assert(plausible_on(self.board@, self.state, pack_move(
                            from as u64,
                            to as u64,
                            EMPTY as u64,
                        )));
                        crate::moves::lemma_pack_move(from as u64, to as u64, EMPTY as u64);
                        assert(emits(self.board@, self.state, pack_move(
                            from as u64,
                            to as u64,
                            EMPTY as u64,
                        ), captures_only));
                    }
                    let m = encode_move(from, to, 0);
                    list.push(m);
                    proof {
                        lemma_contains_after_grow(old(list)@, list@);
                        lemma_contains_after_grow(head_list, list@);
                        assert(list@[list@.len() - 1] == pack_move(
                            from as u64,
                            to as u64,
                            EMPTY as u64,
                        ));
                    }
                }
                proof {
                    assert(sq_on_board(to as int)) by {
                        assert(self.board@[to as int] != crate::defs::OFF_BOARD);
                    }
                    assert(0 <= to + delta < 120);
                    assert(ray_hit(self.board@, (to + delta) as int, -delta as int, piece)) by {
                        reveal_with_fuel(ray_hit, 2);
                    }
                    lemma_ray_extend(self.board@, from as int, delta as int, to as int);
                }
                to = (to as i32 + delta) as usize;
                proof {
                    assert forall|t: int|
                        ray_reaches(self.board@, from as int, delta as int, t) && move_target_ok(
                            self.board@,
                            t,
                            self.side(),
                            captures_only,
                        ) && !list@.contains(pack_move(from as u64, t as u64, EMPTY as u64))
                        implies ray_reaches(self.board@, to - delta, delta as int, t) by {
                        assert(!head_list.contains(pack_move(from as u64, t as u64, EMPTY as u64)));
                        assert(ray_reaches(self.board@, pre_cell - delta, delta as int, t));
                        if pre_cell == t {
                            assert(!captures_only);
                            assert(list@.contains(pack_move(from as u64, t as u64, EMPTY as u64)));
                        }
                    }
                }
            } else {
                if crate::defs::piece_color(c) == xside {
                    proof {
                        assert(sq_on_board(to as int) && is_piece(c));
                        assert(c != (xside + KING) as u8) by {
                            if c == (xside + KING) as u8 {
                                assert(to as int == self.opponent_king());
                                assert(attacks(self.board@, to as int, side));
                            }
                        }
                        crate::defs::lemma_piece_decompose(c);
                        assert(plausible_on(self.board@, self.state, pack_move(
                            from as u64,
                            to as u64,
                            EMPTY as u64,
                        )));
                        crate::moves::lemma_pack_move(from as u64, to as u64, EMPTY as u64);
                        assert(emits(self.board@, self.state, pack_move(
                            from as u64,
                            to as u64,
                            EMPTY as u64,
                        ), captures_only));
                    }
                    let m = encode_move(from, to, 0);
                    list.push(m);
                    proof {
                        lemma_contains_after_grow(old(list)@, list@);
                        lemma_contains_after_grow(head_list, list@);
                        assert(list@[list@.len() - 1] == pack_move(
                            from as u64,
                            to as u64,
                            EMPTY as u64,
                        ));
                    }
                }
                proof {
                    assert forall|t: int|
                        ray_reaches(self.board@, from as int, delta as int, t) && move_target_ok(
                            self.board@,
                            t,
                            self.side(),
                            captures_only,
                        ) implies list@.contains(pack_move(from as u64, t as u64, EMPTY as u64))
                        by {
                        if !list@.contains(pack_move(from as u64, t as u64, EMPTY as u64)) {
                            assert(!head_list.contains(pack_move(
                                from as u64,
                                t as u64,
                                EMPTY as u64,
                            )));
                            assert(ray_reaches(self.board@, pre_cell - delta, delta as int, t));
                            assert(t == pre_cell);
                        }
                    }
                }
                return;
            }
        }
    }

    /// A knight or king jump whose target admits a move is plausible and
    /// pseudo-legal.
    #[verifier::rlimit(100)]
    proof fn lemma_jump_move_ok(&self, from: usize, d: int, captures_only: bool)
        requires
            self.wf(),
            self.opponent_king_safe(),
            sq_on_board(from as int),
            color_of(self.board@[from as int]) == self.side(),
            (self.board@[from as int] == (self.side() + KNIGHT) as u8 && (d == 8 || d == -8 || d
                == 12 || d == -12 || d == 19 || d == -19 || d == 21 || d == -21)) || (
            self.board@[from as int] == (self.side() + KING) as u8 && (d == 1 || d == -1 || d == 10
                || d == -10 || d == 9 || d == -9 || d == 11 || d == -11)),
            move_target_ok(self.board@, from + d, self.side(), captures_only),
        ensures
            self.move_plausible(pack_move(from as u64, (from + d) as u64, EMPTY as u64)),
            emits(self.board@, self.state, pack_move(from as u64, (from + d) as u64, EMPTY as u64),
                captures_only),
    {
        let piece = self.board@[from as int];
        let side = self.side();
        let to = from + d;
        let c = self.board@[to];
        crate::moves::lemma_pack_move(from as u64, to as u64, EMPTY as u64);
        if c == EMPTY {
            assert(sq_on_board(to)) by {
                assert(self.board@[to] != crate::defs::OFF_BOARD);
            }
        } else {
            assert(color_of(c) == opposite(side));
            assert(sq_on_board(to) && is_piece(c));
            assert(c != (opposite(side) + KING) as u8) by {
                if c == (opposite(side) + KING) as u8 {
                    assert(to == self.opponent_king());
                    assert(jump_hit(self.board@, to, -d, piece));
                    assert(attacks(self.board@, to, side));
                }
            }
            crate::defs::lemma_piece_decompose(c);
        }
        assert(plausible_on(self.board@, self.state, pack_move(
            from as u64,
            to as u64,
            EMPTY as u64,
        )));
        assert(emits(self.board@, self.state, pack_move(from as u64, to as u64, EMPTY as u64),
            captures_only));
    }

    /// Emits the move of a knight or king on `from` jumping by `d`, if the
    /// target cell is empty (unless `captures_only`) or holds an enemy
    /// piece; whenever the target admits a move, the move is in the list.
    #[verifier::rlimit(100)]
    fn push_jump_move(&self, list: &mut Vec<Move>, from: usize, d: i32, captures_only: bool)
        requires
            self.wf(),
            self.opponent_king_safe(),
            sq_on_board(from as int),
            color_of(self.board@[from as int]) == self.side(),
            (self.board@[from as int] == (self.side() + KNIGHT) as u8 && (d == 8 || d == -8 || d
                == 12 || d == -12 || d == 19 || d == -19 || d == 21 || d == -21)) || (
            self.board@[from as int] == (self.side() + KING) as u8 && (d == 1 || d == -1 || d == 10
                || d == -10 || d == 9 || d == -9 || d == 11 || d == -11)),
        ensures
            grew_plausibly(self, old(list)@, final(list)@, captures_only),
            move_target_ok(self.board@, from + d, self.side(), captures_only)
                ==> final(list)@.contains(pack_move(from as u64, (from + d) as u64, EMPTY as u64)),
    {
        let piece = self.board[from];
        let side = crate::defs::state_side(self.state);
        let xside = if side == WHITE {
            BLACK
        } else {
            WHITE
        };
        let to = (from as i32 + d) as usize;
        proof {
            assert(0 <= from + d < 120);
        }
        let c = self.board[to];
        if c == EMPTY {
            if !captures_only {
                proof {
                    self.lemma_jump_move_ok(from, d as int, captures_only);
                }
                let m = encode_move(from, to, 0);
                list.push(m);
                proof {
                    lemma_contains_after_grow(old(list)@, list@);
                    assert(list@[list@.len() - 1] == pack_move(
                        from as u64,
                        to as u64,
                        EMPTY as u64,
                    ));
                }
            }
        } else if crate::defs::piece_color(c) == xside {
            proof {
                self.lemma_jump_move_ok(from, d as int, captures_only);
            }
            let m = encode_move(from, to, 0);
            list.push(m);
            proof {
                lemma_contains_after_grow(old(list)@, list@);
                assert(list@[list@.len() - 1] == pack_move(from as u64, to as u64, EMPTY as u64));
            }
        }
    }

    /// Emits the moves of a white pawn on `from` (the 8x8 square `i`):
    /// pushes and promotions (unless `captures_only`), captures, and the
    /// en-passant capture — every one of them, and nothing else.
    #[verifier::rlimit(100)]
    #[verifier::spinoff_prover]
    fn push_white_pawn_moves(&self, list: &mut Vec<Move>, i: usize, from: usize,
        captures_only: bool)
        requires
            self.coherent(),
            i < 64,
            from == crate::square::m8(i as int),
            self.board@[from as int] == WHITE + PAWN,
            self.side() == WHITE,
        ensures
            grew_plausibly(self, old(list)@, final(list)@, captures_only),
            forall|m: Move|
                emits(self.board@, self.state, m, captures_only) && mv_from(m) == from
                    ==> final(list)@.contains(m),
    {
        let ep = crate::defs::state_ep(self.state) as usize;
        proof {
            crate::square::lemma_m8_on_board(i as int);
            assert(from == 21 + 10 * (i as int / 8) + i as int % 8);
        }
        if i / 8 == 1 {
            proof {
                assert(from as int / 10 == 3);
            }
            if !captures_only && self.board[from - 10] == EMPTY {
                proof {
                    self.lemma_white_pawn_quiet(from, from - 10, BISHOP);
                    self.lemma_white_pawn_quiet(from, from - 10, KNIGHT);
                    self.lemma_white_pawn_quiet(from, from - 10, ROOK);
                    self.lemma_white_pawn_quiet(from, from - 10, QUEEN);
                    self.lemma_white_pawn_emits(from, from - 10, captures_only);
                }
                self.push_promotions(list, from, from - 10, captures_only);
            }
            let c = self.board[from - 11];
            if crate::defs::piece_color(c) == BLACK {
                proof {
                    self.lemma_white_pawn_capture(from, from - 11, BISHOP);
                    self.lemma_white_pawn_capture(from, from - 11, KNIGHT);
                    self.lemma_white_pawn_capture(from, from - 11, ROOK);
                    self.lemma_white_pawn_capture(from, from - 11, QUEEN);
                    self.lemma_white_pawn_emits(from, from - 11, captures_only);
                }
                self.push_promotions(list, from, from - 11, captures_only);
            }
            let c = self.board[from - 9];
            if crate::defs::piece_color(c) == BLACK {
                proof {
                    self.lemma_white_pawn_capture(from, from - 9, BISHOP);
                    self.lemma_white_pawn_capture(from, from - 9, KNIGHT);
                    self.lemma_white_pawn_capture(from, from - 9, ROOK);
                    self.lemma_white_pawn_capture(from, from - 9, QUEEN);
                    self.lemma_white_pawn_emits(from, from - 9, captures_only);
                }
                self.push_promotions(list, from, from - 9, captures_only);
            }
        } else {
            proof {
                assert(from as int / 10 != 3);
            }
            if !captures_only && self.board[from - 10] == EMPTY {
                proof {
                    self.lemma_white_pawn_quiet(from, from - 10, EMPTY);
                    self.lemma_white_pawn_emits(from, from - 10, captures_only);
                }
                self.push_move(list, from, from - 10, captures_only);
                if i / 8 == 6 && self.board[from - 20] == EMPTY {
                    proof {
                        assert(from as int / 10 == 8);
                        self.lemma_white_pawn_quiet(from, from - 20, EMPTY);
                        self.lemma_white_pawn_emits(from, from - 20, captures_only);
                    }
                    self.push_move(list, from, from - 20, captures_only);
                }
            }
            let c = self.board[from - 11];
            if crate::defs::piece_color(c) == BLACK {
                proof {
                    self.lemma_white_pawn_capture(from, from - 11, EMPTY);
                    self.lemma_white_pawn_emits(from, from - 11, captures_only);
                }
                self.push_move(list, from, from - 11, captures_only);
            } else if from - 11 == ep {
                proof {
                    self.lemma_white_pawn_ep(from, from - 11);
                    self.lemma_white_pawn_emits(from, from - 11, captures_only);
                }
                self.push_move(list, from, from - 11, captures_only);
            }
            let c = self.board[from - 9];
            if crate::defs::piece_color(c) == BLACK {
                proof {
                    self.lemma_white_pawn_capture(from, from - 9, EMPTY);
                    self.lemma_white_pawn_emits(from, from - 9, captures_only);
                }
                self.push_move(list, from, from - 9, captures_only);
            } else if from - 9 == ep {
                proof {
                    self.lemma_white_pawn_ep(from, from - 9);
                    self.lemma_white_pawn_emits(from, from - 9, captures_only);
                }
                self.push_move(list, from, from - 9, captures_only);
            }
        }
        proof {
            assert forall|m: Move|
                emits(self.board@, self.state, m, captures_only) && mv_from(m) == from
                implies final(list)@.contains(m) by {
                crate::moves::lemma_core_fields(m);
            }
        }
    }

    /// A white pawn move the generator tests for is pseudo-legal: the
    /// guard conditions are the emission conditions.
    #[verifier::rlimit(50)]
    proof fn lemma_white_pawn_emits(&self, from: usize, to: int, captures_only: bool)
        requires
            self.coherent(),
            sq_on_board(from as int),
            self.board@[from as int] == WHITE + PAWN,
            self.side() == WHITE,
            0 <= to < 120,
            (to == from - 10 && self.board@[to] == EMPTY && !captures_only) || (to == from - 20
                && from as int / 10 == 8 && self.board@[from - 10] == EMPTY && self.board@[to]
                == EMPTY && !captures_only) || ((to == from - 11 || to == from - 9) && (color_of(
                self.board@[to],
            ) == BLACK || to == ep_of(self.state))),
        ensures
            from as int / 10 == 3 ==> (emits(self.board@, self.state, pack_move(from as u64,
                to as u64, crate::defs::BISHOP as u64), captures_only) && emits(self.board@,
                self.state, pack_move(from as u64, to as u64, crate::defs::KNIGHT as u64),
                captures_only) && emits(self.board@, self.state, pack_move(from as u64, to as u64,
                crate::defs::ROOK as u64), captures_only) && emits(self.board@, self.state,
                pack_move(from as u64, to as u64, crate::defs::QUEEN as u64), captures_only)),
            from as int / 10 != 3 ==> emits(self.board@, self.state, pack_move(from as u64,
                to as u64, EMPTY as u64), captures_only),
    {
        crate::moves::lemma_pack_move(from as u64, to as u64, crate::defs::BISHOP as u64);
        crate::moves::lemma_pack_move(from as u64, to as u64, crate::defs::KNIGHT as u64);
        crate::moves::lemma_pack_move(from as u64, to as u64, crate::defs::ROOK as u64);
        crate::moves::lemma_pack_move(from as u64, to as u64, crate::defs::QUEEN as u64);
        crate::moves::lemma_pack_move(from as u64, to as u64, EMPTY as u64);
    }

    /// A white pawn push (or push-promotion) is plausible.
    #[verifier::rlimit(50)]
    proof fn lemma_white_pawn_quiet(&self, from: usize, to: int, prom: u8)
        requires
            self.coherent(),
            sq_on_board(from as int),
            self.board@[from as int] == WHITE + PAWN,
            self.side() == WHITE,
            to == from - 10 || (to == from - 20 && 81 <= from <= 88 && self.board@[from as int
                - 10] == EMPTY),
            self.board@[to as int] == EMPTY,
            to == from - 10 ==> (from / 10 == 3) == (prom != EMPTY),
            to == from - 20 ==> prom == EMPTY,
            prom == EMPTY || prom == BISHOP || prom == KNIGHT || prom == ROOK || prom == QUEEN,
        ensures
            self.move_plausible(pack_move(from as u64, to as u64, prom as u64)),
    {
        let ep = ep_of(self.state) as int;
        crate::moves::lemma_pack_move(from as u64, to as u64, prom as u64);
        assert(sq_on_board(to as int)) by {
            assert(self.board@[to as int] != crate::defs::OFF_BOARD);
        }
        if ep != 0 && to == ep {
            assert(self.board@[ep + 10] == BLACK + PAWN);
            assert(false);
        }
    }

    /// A white pawn diagonal capture (or capture-promotion) is plausible.
    #[verifier::rlimit(50)]
    proof fn lemma_white_pawn_capture(&self, from: usize, to: int, prom: u8)
        requires
            self.coherent(),
            sq_on_board(from as int),
            self.board@[from as int] == WHITE + PAWN,
            self.side() == WHITE,
            to == from - 9 || to == from - 11,
            to < 120,
            color_of(self.board@[to as int]) == BLACK,
            (from / 10 == 3) == (prom != EMPTY),
            prom == EMPTY || prom == BISHOP || prom == KNIGHT || prom == ROOK || prom == QUEEN,
        ensures
            self.move_plausible(pack_move(from as u64, to as u64, prom as u64)),
    {
        let ep = ep_of(self.state) as int;
        let c = self.board@[to as int];
        crate::moves::lemma_pack_move(from as u64, to as u64, prom as u64);
        assert(sq_on_board(to as int) && is_piece(c));
        crate::defs::lemma_piece_decompose(c);
        assert(c != (BLACK + KING) as u8) by {
            if c == (BLACK + KING) as u8 {
                assert(to as int == self.opponent_king());
                assert(jump_hit(self.board@, to as int, (from - to) as int, (WHITE + PAWN) as u8));
                assert(attacks(self.board@, to as int, WHITE));
            }
        }
        assert(to != ep) by {
            if ep != 0 && to == ep {
                assert(self.board@[ep] == EMPTY);
            }
        }
    }

    /// A white en-passant capture is plausible.
    proof fn lemma_white_pawn_ep(&self, from: usize, to: int)
        requires
            self.coherent(),
            sq_on_board(from as int),
            self.board@[from as int] == WHITE + PAWN,
            self.side() == WHITE,
            to == from - 9 || to == from - 11,
            to == ep_of(self.state),
            to != 0,
        ensures
            self.move_plausible(pack_move(from as u64, to as u64, EMPTY as u64)),
    {
        crate::moves::lemma_pack_move(from as u64, to as u64, EMPTY as u64);
        assert(41 <= to <= 48 && self.board@[to as int] == EMPTY && self.board@[to as int + 10]
            == BLACK + PAWN);
    }

    /// Emits the moves of a black pawn on `from` (the 8x8 square `i`):
    /// pushes and promotions (unless `captures_only`), captures, and the
    /// en-passant capture — every one of them, and nothing else.
    #[verifier::rlimit(100)]
    #[verifier::spinoff_prover]
    fn push_black_pawn_moves(&self, list: &mut Vec<Move>, i: usize, from: usize,
        captures_only: bool)
        requires
            self.coherent(),
            i < 64,
            from == crate::square::m8(i as int),
            self.board@[from as int] == BLACK + PAWN,
            self.side() == BLACK,
        ensures
            grew_plausibly(self, old(list)@, final(list)@, captures_only),
            forall|m: Move|
                emits(self.board@, self.state, m, captures_only) && mv_from(m) == from
                    ==> final(list)@.contains(m),
    {
        let ep = crate::defs::state_ep(self.state) as usize;
        proof {
            crate::square::lemma_m8_on_board(i as int);
            assert(from == 21 + 10 * (i as int / 8) + i as int % 8);
        }
        if i / 8 == 6 {
            proof {
                assert(from as int / 10 == 8);
            }
            if !captures_only && self.board[from + 10] == EMPTY {
                proof {
                    self.lemma_black_pawn_quiet(from, from + 10, BISHOP);
                    self.lemma_black_pawn_quiet(from, from + 10, KNIGHT);
                    self.lemma_black_pawn_quiet(from, from + 10, ROOK);
                    self.lemma_black_pawn_quiet(from, from + 10, QUEEN);
                    self.lemma_black_pawn_emits(from, from + 10, captures_only);
                }
                self.push_promotions(list, from, from + 10, captures_only);
            }
            let c = self.board[from + 11];
            if crate::defs::piece_color(c) == WHITE {
                proof {
                    self.lemma_black_pawn_capture(from, from + 11, BISHOP);
                    self.lemma_black_pawn_capture(from, from + 11, KNIGHT);
                    self.lemma_black_pawn_capture(from, from + 11, ROOK);
                    self.lemma_black_pawn_capture(from, from + 11, QUEEN);
                    self.lemma_black_pawn_emits(from, from + 11, captures_only);
                }
                self.push_promotions(list, from, from + 11, captures_only);
            }
            let c = self.board[from + 9];
            if crate::defs::piece_color(c) == WHITE {
                proof {
                    self.lemma_black_pawn_capture(from, from + 9, BISHOP);
                    self.lemma_black_pawn_capture(from, from + 9, KNIGHT);
                    self.lemma_black_pawn_capture(from, from + 9, ROOK);
                    self.lemma_black_pawn_capture(from, from + 9, QUEEN);
                    self.lemma_black_pawn_emits(from, from + 9, captures_only);
                }
                self.push_promotions(list, from, from + 9, captures_only);
            }
        } else {
            proof {
                assert(from as int / 10 != 8);
            }
            if !captures_only && self.board[from + 10] == EMPTY {
                proof {
                    self.lemma_black_pawn_quiet(from, from + 10, EMPTY);
                    self.lemma_black_pawn_emits(from, from + 10, captures_only);
                }
                self.push_move(list, from, from + 10, captures_only);
                if i / 8 == 1 && self.board[from + 20] == EMPTY {
                    proof {
                        assert(from as int / 10 == 3);
                        self.lemma_black_pawn_quiet(from, from + 20, EMPTY);
                        self.lemma_black_pawn_emits(from, from + 20, captures_only);
                    }
                    self.push_move(list, from, from + 20, captures_only);
                }
            }
            let c = self.board[from + 11];
            if crate::defs::piece_color(c) == WHITE {
                proof {
                    self.lemma_black_pawn_capture(from, from + 11, EMPTY);
                    self.lemma_black_pawn_emits(from, from + 11, captures_only);
                }
                self.push_move(list, from, from + 11, captures_only);
            } else if from + 11 == ep {
                proof {
                    self.lemma_black_pawn_ep(from, from + 11);
                    self.lemma_black_pawn_emits(from, from + 11, captures_only);
                }
                self.push_move(list, from, from + 11, captures_only);
            }
            let c = self.board[from + 9];
            if crate::defs::piece_color(c) == WHITE {
                proof {
                    self.lemma_black_pawn_capture(from, from + 9, EMPTY);
                    self.lemma_black_pawn_emits(from, from + 9, captures_only);
                }
                self.push_move(list, from, from + 9, captures_only);
            } else if from + 9 == ep {
                proof {
                    self.lemma_black_pawn_ep(from, from + 9);
                    self.lemma_black_pawn_emits(from, from + 9, captures_only);
                }
                self.push_move(list, from, from + 9, captures_only);
            }
        }
        proof {
            assert forall|m: Move|
                emits(self.board@, self.state, m, captures_only) && mv_from(m) == from
                implies final(list)@.contains(m) by {
                crate::moves::lemma_core_fields(m);
            }
        }
    }

    /// A black pawn move the generator tests for is pseudo-legal: the
    /// guard conditions are the emission conditions.
    #[verifier::rlimit(50)]
    proof fn lemma_black_pawn_emits(&self, from: usize, to: int, captures_only: bool)
        requires
            self.coherent(),
            sq_on_board(from as int),
            self.board@[from as int] == BLACK + PAWN,
            self.side() == BLACK,
            0 <= to < 120,
            (to == from + 10 && self.board@[to] == EMPTY && !captures_only) || (to == from + 20
                && from as int / 10 == 3 && self.board@[from + 10] == EMPTY && self.board@[to]
                == EMPTY && !captures_only) || ((to == from + 11 || to == from + 9) && (color_of(
                self.board@[to],
            ) == WHITE || to == ep_of(self.state))),
        ensures
            from as int / 10 == 8 ==> (emits(self.board@, self.state, pack_move(from as u64,
                to as u64, crate::defs::BISHOP as u64), captures_only) && emits(self.board@,
                self.state, pack_move(from as u64, to as u64, crate::defs::KNIGHT as u64),
                captures_only) && emits(self.board@, self.state, pack_move(from as u64, to as u64,
                crate::defs::ROOK as u64), captures_only) && emits(self.board@, self.state,
                pack_move(from as u64, to as u64, crate::defs::QUEEN as u64), captures_only)),
            from as int / 10 != 8 ==> emits(self.board@, self.state, pack_move(from as u64,
                to as u64, EMPTY as u64), captures_only),
    {
        crate::moves::lemma_pack_move(from as u64, to as u64, crate::defs::BISHOP as u64);
        crate::moves::lemma_pack_move(from as u64, to as u64, crate::defs::KNIGHT as u64);
        crate::moves::lemma_pack_move(from as u64, to as u64, crate::defs::ROOK as u64);
        crate::moves::lemma_pack_move(from as u64, to as u64, crate::defs::QUEEN as u64);
        crate::moves::lemma_pack_move(from as u64, to as u64, EMPTY as u64);
    }

    /// A black pawn push (or push-promotion) is plausible.
    #[verifier::rlimit(50)]
    proof fn lemma_black_pawn_quiet(&self, from: usize, to: int, prom: u8)
        requires
            self.coherent(),
            sq_on_board(from as int),
            self.board@[from as int] == BLACK + PAWN,
            self.side() == BLACK,
            to == from + 10 || (to == from + 20 && 31 <= from <= 38 && self.board@[from as int
                + 10] == EMPTY),
            self.board@[to as int] == EMPTY,
            0 <= to < 120,
            to == from + 10 ==> (from / 10 == 8) == (prom != EMPTY),
            to == from + 20 ==> prom == EMPTY,
            prom == EMPTY || prom == BISHOP || prom == KNIGHT || prom == ROOK || prom == QUEEN,
        ensures
            self.move_plausible(pack_move(from as u64, to as u64, prom as u64)),
    {
        let ep = ep_of(self.state) as int;
        crate::moves::lemma_pack_move(from as u64, to as u64, prom as u64);
        assert(sq_on_board(to as int)) by {
            assert(self.board@[to as int] != crate::defs::OFF_BOARD);
        }
        if ep != 0 && to == ep {
            assert(self.board@[ep - 10] == WHITE + PAWN);
            assert(false);
        }
    }

    /// A black pawn diagonal capture (or capture-promotion) is plausible.
    #[verifier::rlimit(50)]
    proof fn lemma_black_pawn_capture(&self, from: usize, to: int, prom: u8)
        requires
            self.coherent(),
            sq_on_board(from as int),
            self.board@[from as int] == BLACK + PAWN,
            self.side() == BLACK,
            to == from + 9 || to == from + 11,
            to < 120,
            color_of(self.board@[to as int]) == WHITE,
            (from / 10 == 8) == (prom != EMPTY),
            prom == EMPTY || prom == BISHOP || prom == KNIGHT || prom == ROOK || prom == QUEEN,
        ensures
            self.move_plausible(pack_move(from as u64, to as u64, prom as u64)),
    {
        let ep = ep_of(self.state) as int;
        let c = self.board@[to as int];
        crate::moves::lemma_pack_move(from as u64, to as u64, prom as u64);
        assert(sq_on_board(to as int) && is_piece(c));
        crate::defs::lemma_piece_decompose(c);
        assert(c != (WHITE + KING) as u8) by {
            if c == (WHITE + KING) as u8 {
                assert(to as int == self.opponent_king());
                assert(jump_hit(self.board@, to as int, (from - to) as int, (BLACK + PAWN) as u8));
                assert(attacks(self.board@, to as int, BLACK));
            }
        }
        assert(to != ep) by {
            if ep != 0 && to == ep {
                assert(self.board@[ep] == EMPTY);
            }
        }
    }

    /// A black en-passant capture is plausible.
    proof fn lemma_black_pawn_ep(&self, from: usize, to: int)
        requires
            self.coherent(),
            sq_on_board(from as int),
            self.board@[from as int] == BLACK + PAWN,
            self.side() == BLACK,
            to == from + 9 || to == from + 11,
            to == ep_of(self.state),
            to != 0,
        ensures
            self.move_plausible(pack_move(from as u64, to as u64, EMPTY as u64)),
    {
        crate::moves::lemma_pack_move(from as u64, to as u64, EMPTY as u64);
        assert(71 <= to <= 78 && self.board@[to as int] == EMPTY && self.board@[to as int - 10]
            == WHITE + PAWN);
    }

    /// Pushes a plausible, pseudo-legal non-promotion move.
    fn push_move(&self, list: &mut Vec<Move>, from: usize, to: usize, captures_only: bool)
        requires
            from < 0x100,
            to < 0x100,
            self.move_plausible(pack_move(from as u64, to as u64, EMPTY as u64)),
            emits(self.board@, self.state, pack_move(from as u64, to as u64, EMPTY as u64),
                captures_only),
        ensures
            grew_plausibly(self, old(list)@, final(list)@, captures_only),
            final(list)@.contains(pack_move(from as u64, to as u64, EMPTY as u64)),
    {
        let m = encode_move(from, to, 0);
        list.push(m);
        proof {
            assert(list@[list@.len() - 1] == pack_move(from as u64, to as u64, EMPTY as u64));
            lemma_contains_after_grow(old(list)@, list@);
        }
    }

    /// Pushes the four promotions of a plausible, pseudo-legal pawn move
    /// to the last rank.
    fn push_promotions(&self, list: &mut Vec<Move>, from: usize, to: usize, captures_only: bool)
        requires
            from < 0x100,
            to < 0x100,
            self.move_plausible(pack_move(from as u64, to as u64, BISHOP as u64)),
            self.move_plausible(pack_move(from as u64, to as u64, KNIGHT as u64)),
            self.move_plausible(pack_move(from as u64, to as u64, ROOK as u64)),
            self.move_plausible(pack_move(from as u64, to as u64, QUEEN as u64)),
            emits(self.board@, self.state, pack_move(from as u64, to as u64, BISHOP as u64),
                captures_only),
            emits(self.board@, self.state, pack_move(from as u64, to as u64, KNIGHT as u64),
                captures_only),
            emits(self.board@, self.state, pack_move(from as u64, to as u64, ROOK as u64),
                captures_only),
            emits(self.board@, self.state, pack_move(from as u64, to as u64, QUEEN as u64),
                captures_only),
        ensures
            grew_plausibly(self, old(list)@, final(list)@, captures_only),
            final(list)@.contains(pack_move(from as u64, to as u64, BISHOP as u64)),
            final(list)@.contains(pack_move(from as u64, to as u64, KNIGHT as u64)),
            final(list)@.contains(pack_move(from as u64, to as u64, ROOK as u64)),
            final(list)@.contains(pack_move(from as u64, to as u64, QUEEN as u64)),
    {
        let m = encode_move(from, to, BISHOP as usize);
        list.push(m);
        let m = encode_move(from, to, KNIGHT as usize);
        list.push(m);
        let m = encode_move(from, to, ROOK as usize);
        list.push(m);
        let m = encode_move(from, to, QUEEN as usize);
        list.push(m);
        proof {
            lemma_contains_after_grow(old(list)@, list@);
            assert(list@[list@.len() - 4] == pack_move(from as u64, to as u64, BISHOP as u64));
            assert(list@[list@.len() - 3] == pack_move(from as u64, to as u64, KNIGHT as u64));
            assert(list@[list@.len() - 2] == pack_move(from as u64, to as u64, ROOK as u64));
            assert(list@[list@.len() - 1] == pack_move(from as u64, to as u64, QUEEN as u64));
        }
    }

    /// Emits the castling moves of the king on `from` (its home square),
    /// when the right is held, the path is empty, and neither the king's
    /// square nor the square it crosses is attacked — exactly under those
    /// conditions. (The destination is validated by the post-make
    /// legality check.)
    #[verifier::rlimit(80)]
    fn push_castle_moves(&self, list: &mut Vec<Move>, from: usize)
        requires
            self.coherent(),
            sq_on_board(from as int),
            color_of(self.board@[from as int]) == self.side(),
            kind_of(self.board@[from as int]) == KING,
        ensures
            grew_plausibly(self, old(list)@, final(list)@, false),
            self.board@[from as int] == (WHITE + KING) as u8 && from == 95 ==> ((
            castle_white_queenside(self.board@, self.state) ==> final(list)@.contains(pack_move(
                95,
                93,
                EMPTY as u64,
            ))) && (castle_white_kingside(self.board@, self.state) ==> final(list)@.contains(
                pack_move(95, 97, EMPTY as u64),
            ))),
            self.board@[from as int] == (BLACK + KING) as u8 && from == 25 ==> ((
            castle_black_queenside(self.board@, self.state) ==> final(list)@.contains(pack_move(
                25,
                23,
                EMPTY as u64,
            ))) && (castle_black_kingside(self.board@, self.state) ==> final(list)@.contains(
                pack_move(25, 27, EMPTY as u64),
            ))),
    {
        let c = crate::defs::state_castling(self.state);
        proof {
            crate::defs::lemma_piece_decompose(self.board@[from as int]);
        }
        if from == 95 && (c / 1 % 2 == 1 || c / 2 % 2 == 1) && !attacked(&self.board, 95, BLACK) {
            if c / 2 % 2 == 1 && self.board[94] == EMPTY && self.board[93] == EMPTY
                && self.board[92] == EMPTY && !attacked(&self.board, 94, BLACK) {
                proof {
                    crate::moves::lemma_pack_move(95, 93, EMPTY as u64);
                    assert(emits(self.board@, self.state, pack_move(95, 93, EMPTY as u64), false));
                }
                self.push_move(list, 95, 93, false);
            }
            if c / 1 % 2 == 1 && self.board[96] == EMPTY && self.board[97] == EMPTY && !attacked(
                &self.board,
                96,
                BLACK,
            ) {
                proof {
                    crate::moves::lemma_pack_move(95, 97, EMPTY as u64);
                    assert(emits(self.board@, self.state, pack_move(95, 97, EMPTY as u64), false));
                }
                self.push_move(list, 95, 97, false);
            }
        } else if from == 25 && (c / 4 % 2 == 1 || c / 8 % 2 == 1) && !attacked(
            &self.board,
            25,
            WHITE,
        ) {
            if c / 8 % 2 == 1 && self.board[24] == EMPTY && self.board[23] == EMPTY
                && self.board[22] == EMPTY && !attacked(&self.board, 24, WHITE) {
                proof {
                    crate::moves::lemma_pack_move(25, 23, EMPTY as u64);
                    assert(emits(self.board@, self.state, pack_move(25, 23, EMPTY as u64), false));
                }
                self.push_move(list, 25, 23, false);
            }
            if c / 4 % 2 == 1 && self.board[26] == EMPTY && self.board[27] == EMPTY && !attacked(
                &self.board,
                26,
                WHITE,
            ) {
                proof {
                    crate::moves::lemma_pack_move(25, 27, EMPTY as u64);
                    assert(emits(self.board@, self.state, pack_move(25, 27, EMPTY as u64), false));
                }
                self.push_move(list, 25, 27, false);
            }
        }
    }

    /// Generates all pseudo-legal moves for the side to move: pawn pushes
    /// and captures (en passant included), promotions, slider moves,
    /// knight and king jumps, and castling — exactly the moves that
    /// `emits` (the mathematical statement of this section's rules)
    /// admits: every emitted move is pseudo-legal and plausible, and
    /// every pseudo-legal move is emitted. The moves may leave the
    /// mover's own king in check; `make_move` is the legality gate.
    pub fn generate_moves(&self) -> (r: Vec<Move>)
        requires
            self.coherent(),
        ensures
            forall|k: int|
                0 <= k < r@.len() ==> self.move_plausible(#[trigger] r@[k]) && mv_core(r@[k])
                    == r@[k] && self.pseudo_legal(r@[k]),
            forall|m: Move| self.pseudo_legal(m) ==> r@.contains(m),
    {
        self.gen_moves(false)
    }

    /// Generates the captures, capture-promotions and en-passant
    /// captures, and nothing else, for quiescence search — exactly the
    /// moves that `emits` with `captures_only` admits, each plausible.
    pub fn capture_moves(&self) -> (r: Vec<Move>)
        requires
            self.coherent(),
        ensures
            forall|k: int|
                0 <= k < r@.len() ==> self.move_plausible(#[trigger] r@[k]) && mv_core(r@[k])
                    == r@[k] && emits(self.board@, self.state, r@[k], true),
            forall|m: Move| emits(self.board@, self.state, m, true) ==> r@.contains(m),
    {
        self.gen_moves(true)
    }

    /// The common generator behind `generate_moves` and `capture_moves`.
    #[verifier::rlimit(100)]
    fn gen_moves(&self, captures_only: bool) -> (r: Vec<Move>)
        requires
            self.coherent(),
        ensures
            forall|k: int|
                0 <= k < r@.len() ==> self.move_plausible(#[trigger] r@[k]) && mv_core(r@[k])
                    == r@[k] && emits(self.board@, self.state, r@[k], captures_only),
            forall|m: Move| emits(self.board@, self.state, m, captures_only) ==> r@.contains(m),
    {
        let side = crate::defs::state_side(self.state);
        let mut list: Vec<Move> = Vec::with_capacity(218);
        let mut i: usize = 0;
        while i < 64
            invariant
                self.coherent(),
                side == self.side(),
                i <= 64,
                forall|k: int|
                    0 <= k < list@.len() ==> self.move_plausible(#[trigger] list@[k]) && mv_core(
                        list@[k],
                    ) == list@[k] && emits(self.board@, self.state, list@[k], captures_only),
                forall|m: Move|
                    emits(self.board@, self.state, m, captures_only) && crate::square::r8(
                        mv_from(m) as int,
                    ) < i ==> list@.contains(m),
            decreases 64 - i,
        {
            let from = map8x8(i);
            let piece = self.board[from];
            proof {
                crate::square::lemma_m8_on_board(i as int);
            }
            if crate::defs::piece_color(piece) == side {
                proof {
                    assert(is_piece(piece));
                    crate::defs::lemma_piece_decompose(piece);
                }
                let kind = crate::defs::piece_kind(piece);
                if kind == PAWN {
                    if side == WHITE {
                        self.push_white_pawn_moves(&mut list, i, from, captures_only);
                    } else {
                        self.push_black_pawn_moves(&mut list, i, from, captures_only);
                    }
                } else if kind == BISHOP {
                    self.push_ray_moves(&mut list, from, -11, captures_only);
                    self.push_ray_moves(&mut list, from, -9, captures_only);
                    self.push_ray_moves(&mut list, from, 9, captures_only);
                    self.push_ray_moves(&mut list, from, 11, captures_only);
                    proof {
                        self.lemma_square_done(list@, from, captures_only);
                    }
                } else if kind == KNIGHT {
                    self.push_jump_move(&mut list, from, -21, captures_only);
                    self.push_jump_move(&mut list, from, -19, captures_only);
                    self.push_jump_move(&mut list, from, -12, captures_only);
                    self.push_jump_move(&mut list, from, -8, captures_only);
                    self.push_jump_move(&mut list, from, 8, captures_only);
                    self.push_jump_move(&mut list, from, 12, captures_only);
                    self.push_jump_move(&mut list, from, 19, captures_only);
                    self.push_jump_move(&mut list, from, 21, captures_only);
                    proof {
                        self.lemma_square_done(list@, from, captures_only);
                    }
                } else if kind == ROOK {
                    self.push_ray_moves(&mut list, from, -1, captures_only);
                    self.push_ray_moves(&mut list, from, 1, captures_only);
                    self.push_ray_moves(&mut list, from, -10, captures_only);
                    self.push_ray_moves(&mut list, from, 10, captures_only);
                    proof {
                        self.lemma_square_done(list@, from, captures_only);
                    }
                } else if kind == QUEEN {
                    self.push_ray_moves(&mut list, from, -1, captures_only);
                    self.push_ray_moves(&mut list, from, 1, captures_only);
                    self.push_ray_moves(&mut list, from, -10, captures_only);
                    self.push_ray_moves(&mut list, from, 10, captures_only);
                    self.push_ray_moves(&mut list, from, -11, captures_only);
                    self.push_ray_moves(&mut list, from, -9, captures_only);
                    self.push_ray_moves(&mut list, from, 9, captures_only);
                    self.push_ray_moves(&mut list, from, 11, captures_only);
                    proof {
                        self.lemma_square_done(list@, from, captures_only);
                    }
                } else {
                    proof {
                        assert(kind == KING);
                    }
                    if !captures_only {
                        self.push_castle_moves(&mut list, from);
                    }
                    self.push_jump_move(&mut list, from, -1, captures_only);
                    self.push_jump_move(&mut list, from, 1, captures_only);
                    self.push_jump_move(&mut list, from, -10, captures_only);
                    self.push_jump_move(&mut list, from, 10, captures_only);
                    self.push_jump_move(&mut list, from, -11, captures_only);
                    self.push_jump_move(&mut list, from, -9, captures_only);
                    self.push_jump_move(&mut list, from, 9, captures_only);
                    self.push_jump_move(&mut list, from, 11, captures_only);
                    proof {
                        self.lemma_square_done(list@, from, captures_only);
                    }
                }
            } else {
                proof {
                    assert forall|m: Move|
                        emits(self.board@, self.state, m, captures_only) && mv_from(m) == from
                        implies list@.contains(m) by {
                        assert(color_of(self.board@[mv_from(m) as int]) == self.side());
                    }
                }
            }
            proof {
                assert forall|m: Move|
                    emits(self.board@, self.state, m, captures_only) && crate::square::r8(
                        mv_from(m) as int,
                    ) < i + 1 implies list@.contains(m) by {
                    if crate::square::r8(mv_from(m) as int) == i {
                        crate::square::lemma_r8_on_board(mv_from(m) as int);
                        assert(mv_from(m) == from);
                    }
                }
            }
            i += 1;
        }
        proof {
            assert forall|m: Move|
                emits(self.board@, self.state, m, captures_only) implies list@.contains(m) by {
                crate::square::lemma_r8_on_board(mv_from(m) as int);
            }
        }
        list
    }

    /// After a non-pawn piece's direction helpers have run, every
    /// pseudo-legal move from its square is in the list: each jump or ray
    /// clause of `emits` was handled by the matching helper call.
    #[verifier::rlimit(100)]
    proof fn lemma_square_done(&self, now: Seq<Move>, from: usize, captures_only: bool)
        requires
            self.coherent(),
            sq_on_board(from as int),
            is_piece(self.board@[from as int]),
            color_of(self.board@[from as int]) == self.side(),
            kind_of(self.board@[from as int]) != PAWN,
            kind_of(self.board@[from as int]) == KING && !captures_only
                && self.board@[from as int] == (WHITE + KING) as u8 && from == 95 ==> ((
            castle_white_queenside(self.board@, self.state) ==> now.contains(pack_move(
                95,
                93,
                EMPTY as u64,
            ))) && (castle_white_kingside(self.board@, self.state) ==> now.contains(pack_move(
                95,
                97,
                EMPTY as u64,
            )))),
            kind_of(self.board@[from as int]) == KING && !captures_only
                && self.board@[from as int] == (BLACK + KING) as u8 && from == 25 ==> ((
            castle_black_queenside(self.board@, self.state) ==> now.contains(pack_move(
                25,
                23,
                EMPTY as u64,
            ))) && (castle_black_kingside(self.board@, self.state) ==> now.contains(pack_move(
                25,
                27,
                EMPTY as u64,
            )))),
            forall|d: int|
                jump_dir_of(kind_of(self.board@[from as int]), d) && move_target_ok(
                    self.board@,
                    from + d,
                    self.side(),
                    captures_only,
                ) ==> now.contains(pack_move(from as u64, (from + d) as u64, EMPTY as u64)),
            forall|d: int, t: int|
                ray_dir_of(kind_of(self.board@[from as int]), d) && ray_reaches(
                    self.board@,
                    from as int,
                    d,
                    t,
                ) && move_target_ok(self.board@, t, self.side(), captures_only) ==> now.contains(
                    pack_move(from as u64, t as u64, EMPTY as u64),
                ),
        ensures
            forall|m: Move|
                emits(self.board@, self.state, m, captures_only) && mv_from(m) == from
                    ==> now.contains(m),
    {
        let b = self.board@;
        let s = self.state;
        let piece = b[from as int];
        let kind = kind_of(piece);
        assert forall|m: Move|
            emits(self.board@, self.state, m, captures_only) && mv_from(m) == from
            implies now.contains(m) by {
            crate::moves::lemma_core_fields(m);
            let to = mv_to(m) as int;
            let d = to - from;
            assert(m == pack_move(from as u64, to as u64, mv_prom(m)));
            if kind == KNIGHT {
                assert(jump_dir_of(kind, d));
                assert(now.contains(pack_move(from as u64, (from + d) as u64, EMPTY as u64)));
            } else if kind == KING {
                if (to == from - 1 || to == from + 1 || to == from - 10 || to == from + 10 || to
                    == from - 11 || to == from - 9 || to == from + 9 || to == from + 11)
                    && move_target_ok(b, to, self.side(), captures_only) {
                    assert(jump_dir_of(kind, d));
                    assert(now.contains(pack_move(from as u64, (from + d) as u64, EMPTY as u64)));
                } else {
                    assert(now.contains(m));
                }
            } else {
                if ray_reaches(b, from as int, -11, to) && ray_dir_of(kind, -11) {
                    assert(now.contains(pack_move(from as u64, to as u64, EMPTY as u64)));
                } else if ray_reaches(b, from as int, -9, to) && ray_dir_of(kind, -9) {
                    assert(now.contains(pack_move(from as u64, to as u64, EMPTY as u64)));
                } else if ray_reaches(b, from as int, 9, to) && ray_dir_of(kind, 9) {
                    assert(now.contains(pack_move(from as u64, to as u64, EMPTY as u64)));
                } else if ray_reaches(b, from as int, 11, to) && ray_dir_of(kind, 11) {
                    assert(now.contains(pack_move(from as u64, to as u64, EMPTY as u64)));
                } else if ray_reaches(b, from as int, -1, to) && ray_dir_of(kind, -1) {
                    assert(now.contains(pack_move(from as u64, to as u64, EMPTY as u64)));
                } else if ray_reaches(b, from as int, 1, to) && ray_dir_of(kind, 1) {
                    assert(now.contains(pack_move(from as u64, to as u64, EMPTY as u64)));
                } else if ray_reaches(b, from as int, -10, to) && ray_dir_of(kind, -10) {
                    assert(now.contains(pack_move(from as u64, to as u64, EMPTY as u64)));
                } else {
                    assert(ray_reaches(b, from as int, 10, to) && ray_dir_of(kind, 10));
                    assert(now.contains(pack_move(from as u64, to as u64, EMPTY as u64)));
                }
            }
        }
    }
}

} // verus!
