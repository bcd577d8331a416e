//! Making and unmaking moves.
//!
//! `make_move` is the only legality gate: it applies a pseudo-legal move,
//! pushes an undo record, and succeeds exactly when the mover's king is not
//! left attacked; on failure the position is unchanged. `unmake_move` pops
//! the record and restores the position exactly.

use vstd::prelude::*;
use crate::attack::{attacks, attacked, board_wf};
use crate::defs::{EMPTY, PAWN, BISHOP, KNIGHT, ROOK, QUEEN, KING, WHITE, BLACK, opposite,
    is_piece, kind_of, color_of, side_of, castling_of, ep_of, draw_ply_of, pack_state, state_wf};
use crate::game::{Game, HistoryItem, pack_undo, undo_captured, undo_state, lemma_pack_undo};
use crate::moves::{Move, mv_from, mv_to, mv_prom};
use crate::square::sq_on_board;

verus! {

/// The castling rights that survive a move touching the cell `sq`:
/// touching a king or rook home square clears exactly the rights whose
/// king or rook lived there (the `CASTLE_MASK` table).
pub open spec fn castle_mask(sq: int) -> u32 {
    if sq == 21 {
        7
    } else if sq == 25 {
        3
    } else if sq == 28 {
        11
    } else if sq == 91 {
        13
    } else if sq == 95 {
        12
    } else if sq == 98 {
        14
    } else {
        15
    }
}

/// The `CASTLE_MASK` table as executable code.
pub fn castle_mask_at(sq: usize) -> (r: u32)
    ensures
        r == castle_mask(sq as int),
{
    if sq == 21 {
        7
    } else if sq == 25 {
        3
    } else if sq == 28 {
        11
    } else if sq == 91 {
        13
    } else if sq == 95 {
        12
    } else if sq == 98 {
        14
    } else {
        15
    }
}

/// Reading the four right bits out of an AND of two four-bit masks.
pub proof fn lemma_and4(a: u32, b: u32)
    by (bit_vector)
    requires
        a < 16,
        b < 16,
    ensures
        a & b < 16,
        ((a & b) / 1 % 2 == 1) == (a / 1 % 2 == 1 && b / 1 % 2 == 1),
        ((a & b) / 2 % 2 == 1) == (a / 2 % 2 == 1 && b / 2 % 2 == 1),
        ((a & b) / 4 % 2 == 1) == (a / 4 % 2 == 1 && b / 4 % 2 == 1),
        ((a & b) / 8 % 2 == 1) == (a / 8 % 2 == 1 && b / 8 % 2 == 1),
{
}

/// A move that `make_move` can apply and `unmake_move` can undo exactly:
/// on-board endpoints, a piece of the side to move, no king capture, a
/// promotion only of a pawn reaching the last rank, and pawn/castling
/// special cases whose surrounding squares hold what the rules imply.
/// Every move that `generate_moves` emits from a coherent position is
/// plausible.
pub open spec fn plausible_on(b: Seq<u8>, s: u32, m: Move) -> bool {
    let from = mv_from(m) as int;
    let to = mv_to(m) as int;
    let prom = mv_prom(m);
    let piece = b[from];
    let captured = b[to];
    let side = side_of(s);
    let ep = ep_of(s) as int;
    &&& sq_on_board(from)
    &&& sq_on_board(to)
    &&& from != to
    &&& is_piece(piece)
    &&& color_of(piece) == side
    &&& (captured == EMPTY || (is_piece(captured) && color_of(captured) == opposite(side)
        && kind_of(captured) != KING))
    &&& (prom == EMPTY as u64 || ((prom == BISHOP as u64 || prom == KNIGHT as u64 || prom
        == ROOK as u64 || prom == QUEEN as u64) && piece == side + PAWN && (side == WHITE ==> 21
        <= to <= 28) && (side == BLACK ==> 91 <= to <= 98)))
    &&& (piece == WHITE + PAWN ==> {
        ||| (to == ep && ep != 0 && (from == to + 9 || from == to + 11) && 41 <= to <= 48
            && captured == EMPTY && b[to + 10] == BLACK + PAWN)
        ||| (to == from - 10 && captured == EMPTY && to != ep)
        ||| (to == from - 20 && captured == EMPTY && b[from - 10] == EMPTY && 81 <= from <= 88
            && to != ep)
        ||| ((to == from - 9 || to == from - 11) && captured != EMPTY && to != ep)
    })
    &&& (piece == BLACK + PAWN ==> {
        ||| (to == ep && ep != 0 && (from == to - 9 || from == to - 11) && 71 <= to <= 78
            && captured == EMPTY && b[to - 10] == WHITE + PAWN)
        ||| (to == from + 10 && captured == EMPTY && to != ep)
        ||| (to == from + 20 && captured == EMPTY && b[from + 10] == EMPTY && 31 <= from <= 38
            && to != ep)
        ||| ((to == from + 9 || to == from + 11) && captured != EMPTY && to != ep)
    })
    &&& (piece == WHITE + KING && from == 95 && to == 93 ==> b[91] == WHITE + ROOK && b[94]
        == EMPTY && captured == EMPTY)
    &&& (piece == WHITE + KING && from == 95 && to == 97 ==> b[98] == WHITE + ROOK && b[96]
        == EMPTY && captured == EMPTY)
    &&& (piece == BLACK + KING && from == 25 && to == 23 ==> b[21] == BLACK + ROOK && b[24]
        == EMPTY && captured == EMPTY)
    &&& (piece == BLACK + KING && from == 25 && to == 27 ==> b[28] == BLACK + ROOK && b[26]
        == EMPTY && captured == EMPTY)
}

/// The board after applying the move: the mover (or its promotion piece)
/// lands on the to-cell, the from-cell empties, an en-passant capture
/// clears the pawn behind the target, and castling moves the rook.
pub open spec fn make_board(b: Seq<u8>, s: u32, m: Move) -> Seq<u8> {
    let from = mv_from(m) as int;
    let to = mv_to(m) as int;
    let prom = mv_prom(m);
    let piece = b[from];
    let side = side_of(s);
    let ep = ep_of(s) as int;
    let placed: u8 = if prom != EMPTY as u64 {
        (prom + side) as u8
    } else {
        piece
    };
    let b1 = b.update(to, placed).update(from, EMPTY);
    if piece == WHITE + PAWN && to == ep {
        b1.update(to + 10, EMPTY)
    } else if piece == BLACK + PAWN && to == ep {
        b1.update(to - 10, EMPTY)
    } else if piece == WHITE + KING && from == 95 && to == 93 {
        b1.update(91, EMPTY).update(94, (WHITE + ROOK) as u8)
    } else if piece == WHITE + KING && from == 95 && to == 97 {
        b1.update(98, EMPTY).update(96, (WHITE + ROOK) as u8)
    } else if piece == BLACK + KING && from == 25 && to == 23 {
        b1.update(21, EMPTY).update(24, (BLACK + ROOK) as u8)
    } else if piece == BLACK + KING && from == 25 && to == 27 {
        b1.update(28, EMPTY).update(26, (BLACK + ROOK) as u8)
    } else {
        b1
    }
}

/// The en-passant cell of the state after the move: set only by a double
/// pawn push, to the cell the pawn skipped.
pub open spec fn make_ep(b: Seq<u8>, s: u32, m: Move) -> u32 {
    let from = mv_from(m) as int;
    let to = mv_to(m) as int;
    let piece = b[from];
    let ep = ep_of(s) as int;
    if piece == WHITE + PAWN && to != ep && to == from - 20 {
        (from - 10) as u32
    } else if piece == BLACK + PAWN && to != ep && to == from + 20 {
        (from + 10) as u32
    } else {
        0
    }
}

/// The half-move clock after the move: reset by any capture or pawn move,
/// otherwise incremented.
pub open spec fn make_draw_ply(b: Seq<u8>, s: u32, m: Move) -> u32 {
    let piece = b[mv_from(m) as int];
    let captured = b[mv_to(m) as int];
    if kind_of(piece) == PAWN {
        0
    } else if captured != EMPTY {
        0
    } else {
        (draw_ply_of(s) + 1) as u32
    }
}

/// The castling rights after the move: the old rights, minus every right
/// whose king or rook home square the move touches.
pub open spec fn make_castling(s: u32, m: Move) -> u32 {
    castling_of(s) & castle_mask(mv_from(m) as int) & castle_mask(mv_to(m) as int)
}

/// The packed state after the move: new clock, en-passant cell and
/// castling rights, and the side to move flipped.
pub open spec fn make_state_word(b: Seq<u8>, s: u32, m: Move) -> u32 {
    pack_state(
        make_draw_ply(b, s, m),
        make_ep(b, s, m),
        make_castling(s, m),
        opposite(side_of(s)) as u32,
    )
}

/// The white king cache after the move.
pub open spec fn make_king_white(b: Seq<u8>, m: Move, kw: int) -> int {
    if b[mv_from(m) as int] == WHITE + KING {
        mv_to(m) as int
    } else {
        kw
    }
}

/// The black king cache after the move.
pub open spec fn make_king_black(b: Seq<u8>, m: Move, kb: int) -> int {
    if b[mv_from(m) as int] == BLACK + KING {
        mv_to(m) as int
    } else {
        kb
    }
}

/// The piece `unmake_move` puts back on the from-cell: a pawn if the move
/// was a promotion, else whatever stands on the to-cell.
pub open spec fn unmake_piece(b: Seq<u8>, m: Move, ps: u32) -> u8 {
    if mv_prom(m) != EMPTY as u64 {
        (side_of(ps) + PAWN) as u8
    } else {
        b[mv_to(m) as int]
    }
}

/// The board after undoing the move against the restored state `ps`: the
/// mover returns to the from-cell (a promotion demotes back to a pawn),
/// the captured piece returns to the to-cell, an en-passant capture puts
/// the enemy pawn back behind the target, and castling moves the rook
/// home.
pub open spec fn unmake_board(b: Seq<u8>, m: Move, ps: u32, captured: u8) -> Seq<u8> {
    let from = mv_from(m) as int;
    let to = mv_to(m) as int;
    let piece = unmake_piece(b, m, ps);
    let ep = ep_of(ps) as int;
    let b1 = b.update(from, piece).update(to, captured);
    if piece == WHITE + PAWN && to == ep {
        b1.update(to + 10, (BLACK + PAWN) as u8)
    } else if piece == BLACK + PAWN && to == ep {
        b1.update(to - 10, (WHITE + PAWN) as u8)
    } else if piece == WHITE + KING && from == 95 && to == 93 {
        b1.update(91, (WHITE + ROOK) as u8).update(94, EMPTY)
    } else if piece == WHITE + KING && from == 95 && to == 97 {
        b1.update(98, (WHITE + ROOK) as u8).update(96, EMPTY)
    } else if piece == BLACK + KING && from == 25 && to == 23 {
        b1.update(21, (BLACK + ROOK) as u8).update(24, EMPTY)
    } else if piece == BLACK + KING && from == 25 && to == 27 {
        b1.update(28, (BLACK + ROOK) as u8).update(26, EMPTY)
    } else {
        b1
    }
}

/// The conditions under which undoing the move `m` against the restored
/// state `ps` and captured piece `captured` yields a well-formed position:
/// a well-formed restored state, a non-king capture, the to-cell holds the
/// returning piece, the from-cell is empty, and the cells an en-passant or
/// castling undo writes hold what a just-made such move leaves there.
/// These hold after any successful `make_move`.
pub open spec fn unmake_pre_on(b: Seq<u8>, ps: u32, captured: u8, m: Move) -> bool {
    let from = mv_from(m) as int;
    let to = mv_to(m) as int;
    let prom = mv_prom(m);
    let side = side_of(ps);
    let piece = unmake_piece(b, m, ps);
    {
        &&& state_wf(ps)
        &&& sq_on_board(from)
        &&& sq_on_board(to)
        &&& from != to
        &&& (prom == EMPTY as u64 || prom == BISHOP as u64 || prom == KNIGHT as u64 || prom
            == ROOK as u64 || prom == QUEEN as u64)
        &&& (prom != EMPTY as u64 ==> b[to] == (prom + side) as u8)
        &&& is_piece(b[to])
        &&& color_of(b[to]) == side
        &&& b[from] == EMPTY
        &&& (captured == EMPTY || (is_piece(captured) && kind_of(captured) != KING))
        &&& (piece == WHITE + PAWN && to == ep_of(ps) ==> sq_on_board(to + 10) && b[to + 10]
            == EMPTY)
        &&& (piece == BLACK + PAWN && to == ep_of(ps) ==> sq_on_board(to - 10) && b[to - 10]
            == EMPTY)
        &&& (piece == WHITE + KING && from == 95 && to == 93 ==> b[91] == EMPTY && b[94] == WHITE
            + ROOK)
        &&& (piece == WHITE + KING && from == 95 && to == 97 ==> b[98] == EMPTY && b[96] == WHITE
            + ROOK)
        &&& (piece == BLACK + KING && from == 25 && to == 23 ==> b[21] == EMPTY && b[24] == BLACK
            + ROOK)
        &&& (piece == BLACK + KING && from == 25 && to == 27 ==> b[28] == EMPTY && b[26] == BLACK
            + ROOK)
    }
}

/// The white king cache after undoing the move.
pub open spec fn unmake_king_white(b: Seq<u8>, m: Move, ps: u32, kw: int) -> int {
    if unmake_piece(b, m, ps) == WHITE + KING {
        mv_from(m) as int
    } else {
        kw
    }
}

/// The black king cache after undoing the move.
pub open spec fn unmake_king_black(b: Seq<u8>, m: Move, ps: u32, kb: int) -> int {
    if unmake_piece(b, m, ps) == BLACK + KING {
        mv_from(m) as int
    } else {
        kb
    }
}

/// Undoing a move under `unmake_pre_on` yields a well-formed board with
/// consistent king caches.
pub proof fn lemma_unmake_wf(b: Seq<u8>, ps: u32, captured: u8, m: Move, kw: int, kb: int)
    requires
        board_wf(b),
        crate::game::kings_wf_on(b, kw, kb),
        unmake_pre_on(b, ps, captured, m),
    ensures
        board_wf(unmake_board(b, m, ps, captured)),
        crate::game::kings_wf_on(
            unmake_board(b, m, ps, captured),
            unmake_king_white(b, m, ps, kw),
            unmake_king_black(b, m, ps, kb),
        ),
{
    let from = mv_from(m) as int;
    let to = mv_to(m) as int;
    let piece = unmake_piece(b, m, ps);
    let ub = unmake_board(b, m, ps, captured);
    let ep = ep_of(ps) as int;
    crate::defs::lemma_piece_decompose(b[to]);
    assert(board_wf(ub));
    if piece == WHITE + KING {
        assert(kw == to);
        assert(ub[from] == WHITE + KING);
    } else {
        assert(kw != from && kw != to);
        if piece == WHITE + PAWN && to == ep {
            assert(kw != to + 10);
        } else if piece == BLACK + PAWN && to == ep {
            assert(kw != to - 10);
        } else if piece == BLACK + KING && from == 25 && to == 23 {
            assert(kw != 21 && kw != 24);
        } else if piece == BLACK + KING && from == 25 && to == 27 {
            assert(kw != 28 && kw != 26);
        }
        assert(ub[kw] == WHITE + KING);
    }
    if piece == BLACK + KING {
        assert(kb == to);
        assert(ub[from] == BLACK + KING);
    } else {
        assert(kb != from && kb != to);
        if piece == WHITE + PAWN && to == ep {
            assert(kb != to + 10);
        } else if piece == BLACK + PAWN && to == ep {
            assert(kb != to - 10);
        } else if piece == WHITE + KING && from == 95 && to == 93 {
            assert(kb != 91 && kb != 94);
        } else if piece == WHITE + KING && from == 95 && to == 97 {
            assert(kb != 98 && kb != 96);
        }
        assert(ub[kb] == BLACK + KING);
    }
    assert(forall|i: int|
        sq_on_board(i) && #[trigger] ub[i] == WHITE + KING ==> i == unmake_king_white(
            b,
            m,
            ps,
            kw,
        ));
    assert(forall|i: int|
        sq_on_board(i) && #[trigger] ub[i] == BLACK + KING ==> i == unmake_king_black(
            b,
            m,
            ps,
            kb,
        ));
}

impl Game {
    /// The conditions under which `unmake_move` runs and restores a
    /// well-formed position: they hold after any successful `make_move`.
    pub open spec fn unmake_pre(&self, m: Move) -> bool {
        &&& self.history@.len() > 0
        &&& unmake_pre_on(
            self.board@,
            undo_state(self.history@.last().unmove),
            undo_captured(self.history@.last().unmove),
            m,
        )
    }
}

/// Applying a plausible move preserves well-formedness: the new board, king
/// caches and state word are well-formed, a coherent castling mask stays
/// coherent, and the new en-passant cell is coherent.
pub proof fn lemma_make_wf(b: Seq<u8>, s: u32, m: Move, kw: int, kb: int)
    requires
        board_wf(b),
        crate::game::kings_wf_on(b, kw, kb),
        state_wf(s),
        plausible_on(b, s, m),
    ensures
        board_wf(make_board(b, s, m)),
        crate::game::kings_wf_on(
            make_board(b, s, m),
            make_king_white(b, m, kw),
            make_king_black(b, m, kb),
        ),
        state_wf(make_state_word(b, s, m)),
        crate::game::castling_coherent_on(b, s) ==> crate::game::castling_coherent_on(
            make_board(b, s, m),
            make_state_word(b, s, m),
        ),
        crate::game::ep_coherent_on(make_board(b, s, m), make_state_word(b, s, m)),
{
    let from = mv_from(m) as int;
    let to = mv_to(m) as int;
    let prom = mv_prom(m);
    let piece = b[from];
    let side = side_of(s);
    let bb = make_board(b, s, m);
    let dp = make_draw_ply(b, s, m);
    let ep2 = make_ep(b, s, m);
    let c2 = make_castling(s, m);
    let s2 = make_state_word(b, s, m);
    lemma_and4(castling_of(s), castle_mask(from));
    lemma_and4(castling_of(s) & castle_mask(from), castle_mask(to));
    crate::defs::lemma_pack_state(dp, ep2, c2, opposite(side) as u32);
    crate::defs::lemma_piece_decompose(piece);
    assert(board_wf(bb));
    let ep = ep_of(s) as int;
    if piece == WHITE + KING {
        assert(bb[to] == WHITE + KING);
    } else {
        assert(kw != from && kw != to);
        if piece == WHITE + PAWN && to == ep {
            assert(kw != to + 10);
        } else if piece == BLACK + PAWN && to == ep {
            assert(kw != to - 10);
        } else if piece == BLACK + KING && from == 25 && to == 23 {
            assert(kw != 21 && kw != 24);
        } else if piece == BLACK + KING && from == 25 && to == 27 {
            assert(kw != 28 && kw != 26);
        }
        assert(bb[kw] == WHITE + KING);
    }
    if piece == BLACK + KING {
        assert(bb[to] == BLACK + KING);
    } else {
        assert(kb != from && kb != to);
        if piece == WHITE + PAWN && to == ep {
            assert(kb != to + 10);
        } else if piece == BLACK + PAWN && to == ep {
            assert(kb != to - 10);
        } else if piece == WHITE + KING && from == 95 && to == 93 {
            assert(kb != 91 && kb != 94);
        } else if piece == WHITE + KING && from == 95 && to == 97 {
            assert(kb != 98 && kb != 96);
        }
        assert(bb[kb] == BLACK + KING);
    }
    assert(forall|i: int|
        sq_on_board(i) && #[trigger] bb[i] == WHITE + KING ==> i == make_king_white(b, m, kw));
    assert(forall|i: int|
        sq_on_board(i) && #[trigger] bb[i] == BLACK + KING ==> i == make_king_black(b, m, kb));
    assert(state_wf(s2));
    assert(crate::game::ep_coherent_on(bb, s2));
    if crate::game::castling_coherent_on(b, s) {
        let c = castling_of(s);
        if c2 / 1 % 2 == 1 {
            assert(from != 95 && from != 98 && to != 95 && to != 98);
            assert(bb[95] == b[95] && bb[98] == b[98]);
        }
        if c2 / 2 % 2 == 1 {
            assert(from != 95 && from != 91 && to != 95 && to != 91);
            assert(bb[95] == b[95] && bb[91] == b[91]);
        }
        if c2 / 4 % 2 == 1 {
            assert(from != 25 && from != 28 && to != 25 && to != 28);
            assert(bb[25] == b[25] && bb[28] == b[28]);
        }
        if c2 / 8 % 2 == 1 {
            assert(from != 25 && from != 21 && to != 25 && to != 21);
            assert(bb[25] == b[25] && bb[21] == b[21]);
        }
        assert(crate::game::castling_coherent_on(bb, s2));
    }
}

/// Undoing a just-made move restores the original board exactly, and the
/// piece the undo returns to the from-cell is the piece that moved.
pub proof fn lemma_unmake_restores(b: Seq<u8>, s: u32, m: Move)
    requires
        board_wf(b),
        state_wf(s),
        plausible_on(b, s, m),
    ensures
        unmake_piece(make_board(b, s, m), m, s) == b[mv_from(m) as int],
        unmake_board(make_board(b, s, m), m, s, b[mv_to(m) as int]) == b,
{
    let from = mv_from(m) as int;
    let to = mv_to(m) as int;
    let piece = b[from];
    let ep = ep_of(s) as int;
    let bb = make_board(b, s, m);
    assert(unmake_piece(bb, m, s) == b[from]);
    if piece == WHITE + PAWN && to == ep {
        assert(unmake_board(bb, m, s, b[to]) =~= b);
    } else if piece == BLACK + PAWN && to == ep {
        assert(unmake_board(bb, m, s, b[to]) =~= b);
    } else if piece == WHITE + KING && from == 95 && to == 93 {
        let ub = unmake_board(bb, m, s, b[to]);
        assert(bb[93] == WHITE + KING && bb[95] == EMPTY && bb[91] == EMPTY && bb[94] == WHITE
            + ROOK);
        assert(ub[95] == b[95] && ub[93] == b[93] && ub[91] == b[91] && ub[94] == b[94]);
        assert(ub =~= b);
    } else if piece == WHITE + KING && from == 95 && to == 97 {
        let ub = unmake_board(bb, m, s, b[to]);
        assert(bb[97] == WHITE + KING && bb[95] == EMPTY && bb[98] == EMPTY && bb[96] == WHITE
            + ROOK);
        assert(ub[95] == b[95] && ub[97] == b[97] && ub[98] == b[98] && ub[96] == b[96]);
        assert(ub =~= b);
    } else if piece == BLACK + KING && from == 25 && to == 23 {
        let ub = unmake_board(bb, m, s, b[to]);
        assert(bb[23] == BLACK + KING && bb[25] == EMPTY && bb[21] == EMPTY && bb[24] == BLACK
            + ROOK);
        assert(ub[25] == b[25] && ub[23] == b[23] && ub[21] == b[21] && ub[24] == b[24]);
        assert(ub =~= b);
    } else if piece == BLACK + KING && from == 25 && to == 27 {
        let ub = unmake_board(bb, m, s, b[to]);
        assert(bb[27] == BLACK + KING && bb[25] == EMPTY && bb[28] == EMPTY && bb[26] == BLACK
            + ROOK);
        assert(ub[25] == b[25] && ub[27] == b[27] && ub[28] == b[28] && ub[26] == b[26]);
        assert(ub =~= b);
    } else {
        assert(unmake_board(bb, m, s, b[to]) =~= b);
    }
}

/// After a successful `make_move` from `pre`, the resulting position
/// `mid` is well-formed, satisfies `unmake_move`'s precondition for the
/// same move, and undoing restores every field of `pre`.
pub proof fn lemma_mid_unmake_pre(pre: Game, mid: Game, m: Move)
    requires
        pre.wf(),
        pre.move_plausible(m),
        mid.board@ == make_board(pre.board@, pre.state, m),
        mid.state == make_state_word(pre.board@, pre.state, m),
        mid.king_white == make_king_white(pre.board@, m, pre.king_white as int),
        mid.king_black == make_king_black(pre.board@, m, pre.king_black as int),
        mid.history@ == pre.history@.push(pre.undo_record(m)),
        mid.piece_hashes@.len() == 768,
        mid.castling_hashes@.len() == 16,
        mid.ep_hashes@.len() == 8,
    ensures
        mid.wf(),
        mid.unmake_pre(m),
        undo_state(mid.history@.last().unmove) == pre.state,
        undo_captured(mid.history@.last().unmove) == pre.board@[mv_to(m) as int],
        mid.history@.last().hash == pre.hash,
        mid.history@.drop_last() == pre.history@,
        unmake_board(
            mid.board@,
            m,
            undo_state(mid.history@.last().unmove),
            undo_captured(mid.history@.last().unmove),
        ) == pre.board@,
        unmake_king_white(mid.board@, m, undo_state(mid.history@.last().unmove), mid.king_white as int)
            == pre.king_white,
        unmake_king_black(mid.board@, m, undo_state(mid.history@.last().unmove), mid.king_black as int)
            == pre.king_black,
{
    lemma_make_wf(pre.board@, pre.state, m, pre.king_white as int, pre.king_black as int);
    lemma_unmake_restores(pre.board@, pre.state, m);
    lemma_pack_undo(pre.board@[mv_to(m) as int], pre.state);
    lemma_make_unmake_roundtrip(pre, m);
    assert(mid.history@.last() == pre.undo_record(m));
    assert(mid.history@.drop_last() =~= pre.history@);
    assert(mid.unmake_pre(m));
}

/// Make then unmake restores the position exactly. Together with the
/// contracts of `make_move` and `unmake_move` — which pin their results to
/// the transforms this lemma relates — it says: a successful `make_move`
/// followed by `unmake_move` of the same move yields a position equal to
/// the original in board, state, king caches, hash and history.
pub proof fn lemma_make_unmake_roundtrip(g: Game, m: Move)
    requires
        g.wf(),
        g.move_plausible(m),
    ensures
        undo_state(g.undo_record(m).unmove) == g.state,
        g.undo_record(m).hash == g.hash,
        unmake_board(
            make_board(g.board@, g.state, m),
            m,
            undo_state(g.undo_record(m).unmove),
            undo_captured(g.undo_record(m).unmove),
        ) == g.board@,
        unmake_king_white(
            make_board(g.board@, g.state, m),
            m,
            g.state,
            make_king_white(g.board@, m, g.king_white as int),
        ) == g.king_white,
        unmake_king_black(
            make_board(g.board@, g.state, m),
            m,
            g.state,
            make_king_black(g.board@, m, g.king_black as int),
        ) == g.king_black,
        g.history@.push(g.undo_record(m)).drop_last() == g.history@,
{
    let b = g.board@;
    let s = g.state;
    let from = mv_from(m) as int;
    let piece = b[from];
    lemma_pack_undo(b[mv_to(m) as int], s);
    lemma_unmake_restores(b, s, m);
    assert(unmake_piece(make_board(b, s, m), m, s) == piece);
    if piece == WHITE + KING {
        assert(g.king_white == from);
    }
    if piece == BLACK + KING {
        assert(g.king_black == from);
    }
    assert(g.history@.push(g.undo_record(m)).drop_last() =~= g.history@);
}

impl Game {
    /// Undoes the move that produced the top undo record: restores the
    /// prior state and hash, returns the mover (demoting a promotion back
    /// to a pawn), puts the captured piece back, and reverses en-passant
    /// and castling side effects. The resulting position is exactly the
    /// one the matching `make_move` started from.
    pub fn unmake_move(&mut self, mv: Move)
        requires
            old(self).wf(),
            old(self).unmake_pre(mv),
        ensures
            final(self).board@ == unmake_board(
                old(self).board@,
                mv,
                undo_state(old(self).history@.last().unmove),
                undo_captured(old(self).history@.last().unmove),
            ),
            final(self).state == undo_state(old(self).history@.last().unmove),
            final(self).hash == old(self).history@.last().hash,
            final(self).history@ == old(self).history@.drop_last(),
            final(self).king_white == unmake_king_white(
                old(self).board@,
                mv,
                undo_state(old(self).history@.last().unmove),
                old(self).king_white as int,
            ),
            final(self).king_black == unmake_king_black(
                old(self).board@,
                mv,
                undo_state(old(self).history@.last().unmove),
                old(self).king_black as int,
            ),
            final(self).piece_hashes@ == old(self).piece_hashes@,
            final(self).black_hash == old(self).black_hash,
            final(self).castling_hashes@ == old(self).castling_hashes@,
            final(self).ep_hashes@ == old(self).ep_hashes@,
            final(self).wf(),
    {
        proof {
            lemma_unmake_wf(
                self.board@,
                undo_state(self.history@.last().unmove),
                undo_captured(self.history@.last().unmove),
                mv,
                self.king_white as int,
                self.king_black as int,
            );
        }
        let item = self.history.pop().unwrap();
        let from = crate::moves::MoveTrait::from(mv);
        let to = crate::moves::MoveTrait::to(mv);
        let promoted = crate::moves::MoveTrait::promotion(mv);
        let captured = (item.unmove / 0x100000000 % 0x100) as u8;
        self.state = (item.unmove % 0x100000000) as u32;
        let side = crate::defs::state_side(self.state);
        let ep = crate::defs::state_ep(self.state) as usize;
        let piece = if promoted != 0 {
            PAWN + side
        } else {
            self.board[to]
        };
        self.board[from] = piece;
        self.board[to] = captured;
        self.hash = item.hash;
        if piece == WHITE + PAWN {
            if to == ep {
                self.board[to + 10] = BLACK + PAWN;
            }
        } else if piece == BLACK + PAWN {
            if to == ep {
                self.board[to - 10] = WHITE + PAWN;
            }
        } else if piece == WHITE + KING {
            self.king_white = from;
            if from == 95 && to == 93 {
                self.board[91] = WHITE + ROOK;
                self.board[94] = EMPTY;
            } else if from == 95 && to == 97 {
                self.board[98] = WHITE + ROOK;
                self.board[96] = EMPTY;
            }
        } else if piece == BLACK + KING {
            self.king_black = from;
            if from == 25 && to == 23 {
                self.board[21] = BLACK + ROOK;
                self.board[24] = EMPTY;
            } else if from == 25 && to == 27 {
                self.board[28] = BLACK + ROOK;
                self.board[26] = EMPTY;
            }
        }
        proof {
            assert(self.board@ =~= unmake_board(
                old(self).board@,
                mv,
                undo_state(old(self).history@.last().unmove),
                undo_captured(old(self).history@.last().unmove),
            ));
        }
    }

    /// A move `make_move` accepts from this position.
    pub open spec fn move_plausible(&self, m: Move) -> bool {
        plausible_on(self.board@, self.state, m)
    }

    /// The cell of the mover's king after the move.
    pub open spec fn king_after(&self, m: Move) -> int {
        let piece = self.board@[mv_from(m) as int];
        if piece == (self.side() + KING) as u8 {
            mv_to(m) as int
        } else {
            self.own_king()
        }
    }

    /// `make_move` succeeds on this move: applying it does not leave the
    /// mover's king attacked.
    pub open spec fn move_succeeds(&self, m: Move) -> bool {
        !attacks(make_board(self.board@, self.state, m), self.king_after(m), opposite(self.side()))
    }

    /// The undo record `make_move` pushes for this move.
    pub open spec fn undo_record(&self, m: Move) -> HistoryItem {
        HistoryItem { unmove: pack_undo(self.board@[mv_to(m) as int], self.state), hash: self.hash }
    }

    /// Applies a plausible move. This is the only legality gate: it
    /// succeeds if and only if the move does not leave the mover's king
    /// attacked. On success the board, state, king caches and hash are
    /// advanced, an undo record is pushed, and the resulting position is
    /// well-formed and coherent. On failure the position is unchanged.
    pub fn make_move(&mut self, mv: Move) -> (r: bool)
        requires
            old(self).wf(),
            old(self).move_plausible(mv),
        ensures
            r == old(self).move_succeeds(mv),
            final(self).piece_hashes@ == old(self).piece_hashes@,
            final(self).black_hash == old(self).black_hash,
            final(self).castling_hashes@ == old(self).castling_hashes@,
            final(self).ep_hashes@ == old(self).ep_hashes@,
            final(self).wf(),
            r ==> final(self).board@ == make_board(old(self).board@, old(self).state, mv),
            r ==> final(self).state == make_state_word(old(self).board@, old(self).state, mv),
            r ==> final(self).king_white == make_king_white(
                old(self).board@,
                mv,
                old(self).king_white as int,
            ),
            r ==> final(self).king_black == make_king_black(
                old(self).board@,
                mv,
                old(self).king_black as int,
            ),
            r ==> final(self).history@ == old(self).history@.push(old(self).undo_record(mv)),
            r ==> final(self).hash == final(self).spec_hash(),
            r ==> final(self).ep_coherent(),
            r ==> (old(self).castling_coherent() ==> final(self).castling_coherent()),
            r ==> final(self).opponent_king_safe(),
            !r ==> final(self).board@ == old(self).board@ && final(self).state == old(self).state
                && final(self).king_white == old(self).king_white && final(self).king_black == old(
                self,
            ).king_black && final(self).hash == old(self).hash && final(self).history@ == old(
                self,
            ).history@,
    {
        proof {
            lemma_make_wf(
                self.board@,
                self.state,
                mv,
                self.king_white as int,
                self.king_black as int,
            );
            lemma_unmake_restores(self.board@, self.state, mv);
        }
        let ghost b0 = self.board@;
        let ghost s0 = self.state;
        let from = crate::moves::MoveTrait::from(mv);
        let to = crate::moves::MoveTrait::to(mv);
        let promoted = crate::moves::MoveTrait::promotion(mv);
        let piece = self.board[from];
        let captured = self.board[to];
        let from_state = self.state;
        let from_ep = crate::defs::state_ep(from_state) as usize;
        let mut to_ep: u32 = 0;
        let from_draw_ply = crate::defs::state_draw_ply(from_state);
        let mut to_draw_ply: u32 = if captured == EMPTY {
            from_draw_ply + 1
        } else {
            0
        };
        let from_castling = crate::defs::state_castling(from_state);
        let to_castling = from_castling & castle_mask_at(from) & castle_mask_at(to);
        proof {
            lemma_and4(castling_of(s0), castle_mask(from as int));
            lemma_and4(castling_of(s0) & castle_mask(from as int), castle_mask(to as int));
        }
        let side = crate::defs::state_side(from_state);
        let xside = if side == WHITE {
            BLACK
        } else {
            WHITE
        };
        self.board[to] = if promoted != 0 {
            promoted as u8 + side
        } else {
            piece
        };
        self.board[from] = EMPTY;
        if piece == WHITE + PAWN {
            if to == from_ep {
                self.board[to + 10] = EMPTY;
            } else if to == from - 20 {
                to_ep = (from - 10) as u32;
            }
            to_draw_ply = 0;
        } else if piece == BLACK + PAWN {
            if to == from_ep {
                self.board[to - 10] = EMPTY;
            } else if to == from + 20 {
                to_ep = (from + 10) as u32;
            }
            to_draw_ply = 0;
        } else if piece == WHITE + KING {
            self.king_white = to;
            if from == 95 {
                if to == 93 {
                    self.board[91] = EMPTY;
                    self.board[94] = ROOK + WHITE;
                } else if to == 97 {
                    self.board[98] = EMPTY;
                    self.board[96] = ROOK + WHITE;
                }
            }
        } else if piece == BLACK + KING {
            self.king_black = to;
            if from == 25 {
                if to == 23 {
                    self.board[21] = EMPTY;
                    self.board[24] = ROOK + BLACK;
                } else if to == 27 {
                    self.board[28] = EMPTY;
                    self.board[26] = ROOK + BLACK;
                }
            }
        }
        proof {
            assert(self.board@ =~= make_board(b0, s0, mv));
            crate::defs::lemma_piece_decompose(piece);
            assert(to_draw_ply == make_draw_ply(b0, s0, mv));
            assert(to_ep == make_ep(b0, s0, mv));
        }
        self.state = crate::defs::make_state(to_draw_ply, to_ep, to_castling, xside as u32);
        proof {
            lemma_pack_undo(captured, from_state);
        }
        self.history.push(
            HistoryItem {
                unmove: (captured as u64) * 0x100000000 + (from_state as u64),
                hash: self.hash,
            },
        );
        let king_pos = if side == WHITE {
            self.king_white
        } else {
            self.king_black
        };
        if attacked(&self.board, king_pos, xside) {
            proof {
                assert(self.unmake_pre(mv));
            }
            self.unmake_move(mv);
            proof {
                assert(self.board@ =~= b0);
                assert(self.history@ =~= old(self).history@);
            }
            return false;
        }
        self.set_hash();
        true
    }
}

} // verus!
