//! The position: mailbox board, packed state, king caches, Zobrist keys,
//! hash and undo history.

use vstd::prelude::*;
use crate::attack::{attacks, attacked, board_wf};
use crate::defs::{EMPTY, PAWN, KING, WHITE, BLACK, OFF_BOARD, opposite, side_of, draw_ply_of,
    ep_of, castling_of, state_wf};
use crate::square::{sq_on_board, map8x8};

verus! {

/// One undo record: the captured piece code beside the packed state before
/// the move (bits 32.. and 0..32), and the hash before the move.
pub struct HistoryItem {
    pub unmove: u64,
    pub hash: u64,
}

/// The captured piece code of an undo record.
pub open spec fn undo_captured(unmove: u64) -> u8 {
    (unmove / 0x100000000 % 0x100) as u8
}

/// The packed pre-move state of an undo record.
pub open spec fn undo_state(unmove: u64) -> u32 {
    (unmove % 0x100000000) as u32
}

/// Packs a captured piece code and a pre-move state into an undo record.
pub open spec fn pack_undo(captured: u8, state: u32) -> u64 {
    (captured * 0x100000000 + state) as u64
}

pub proof fn lemma_pack_undo(captured: u8, state: u32)
    ensures
        undo_captured(pack_undo(captured, state)) == captured,
        undo_state(pack_undo(captured, state)) == state,
        captured * 0x100000000 + state < 0x10000000000000000,
{
    let v: int = captured * 0x100000000 + state;
    assert(v / 0x100000000 == captured && v % 0x100000000 == state) by {
        assert(v == captured * 0x100000000 + state);
    }
}

/// King caches consistent with a board: each cache is the unique on-board
/// cell that holds its king.
pub open spec fn kings_wf_on(b: Seq<u8>, kw: int, kb: int) -> bool {
    &&& sq_on_board(kw)
    &&& b[kw] == WHITE + KING
    &&& (forall|i: int| sq_on_board(i) && #[trigger] b[i] == WHITE + KING ==> i == kw)
    &&& sq_on_board(kb)
    &&& b[kb] == BLACK + KING
    &&& (forall|i: int| sq_on_board(i) && #[trigger] b[i] == BLACK + KING ==> i == kb)
}

/// A castling right is only set while the king and the rook it names still
/// stand on their home squares.
pub open spec fn castling_coherent_on(b: Seq<u8>, s: u32) -> bool {
    let c = castling_of(s);
    &&& (c / 1 % 2 == 1 ==> b[95] == WHITE + KING && b[98] == WHITE + crate::defs::ROOK)
    &&& (c / 2 % 2 == 1 ==> b[95] == WHITE + KING && b[91] == WHITE + crate::defs::ROOK)
    &&& (c / 4 % 2 == 1 ==> b[25] == BLACK + KING && b[28] == BLACK + crate::defs::ROOK)
    &&& (c / 8 % 2 == 1 ==> b[25] == BLACK + KING && b[21] == BLACK + crate::defs::ROOK)
}

/// A non-zero en-passant cell lies on the rank a double push just crossed,
/// is empty, and has the double-pushed enemy pawn behind it.
pub open spec fn ep_coherent_on(b: Seq<u8>, s: u32) -> bool {
    let ep = ep_of(s) as int;
    ||| ep == 0
    ||| (side_of(s) == WHITE && 41 <= ep <= 48 && b[ep] == EMPTY && b[ep + 10] == BLACK + PAWN)
    ||| (side_of(s) == BLACK && 71 <= ep <= 78 && b[ep] == EMPTY && b[ep - 10] == WHITE + PAWN)
}

/// A chess position.
pub struct Game {
    /// The 10x12 mailbox board.
    pub board: Vec<u8>,
    /// The packed state: side to move, castling rights, en-passant cell,
    /// half-move clock.
    pub state: u32,
    /// The cell of the white king; always consistent with `board`.
    pub king_white: usize,
    /// The cell of the black king; always consistent with `board`.
    pub king_black: usize,
    /// Zobrist keys: one per (piece, 8x8 square).
    pub piece_hashes: Vec<u64>,
    /// Zobrist key folded in when Black is to move.
    pub black_hash: u64,
    /// Zobrist keys: one per castling-rights mask.
    pub castling_hashes: Vec<u64>,
    /// Zobrist keys: one per en-passant file.
    pub ep_hashes: Vec<u64>,
    /// The Zobrist fingerprint of the position.
    pub hash: u64,
    /// One record per successful `make_move`, popped by `unmake_move`.
    pub history: Vec<HistoryItem>,
}

impl Game {
    /// Zobrist key tables of the right sizes.
    pub open spec fn tables_wf(&self) -> bool {
        &&& self.piece_hashes@.len() == 768
        &&& self.castling_hashes@.len() == 16
        &&& self.ep_hashes@.len() == 8
    }

    /// Structural well-formedness: a well-formed board, king caches that
    /// point at the unique king of each color, a well-formed state word,
    /// and Zobrist tables of the right size.
    pub open spec fn wf(&self) -> bool {
        &&& board_wf(self.board@)
        &&& kings_wf_on(self.board@, self.king_white as int, self.king_black as int)
        &&& state_wf(self.state)
        &&& self.tables_wf()
    }

    /// The side to move.
    pub open spec fn side(&self) -> u8 {
        side_of(self.state)
    }

    /// The cell of the side to move's king.
    pub open spec fn own_king(&self) -> int {
        if self.side() == WHITE {
            self.king_white as int
        } else {
            self.king_black as int
        }
    }

    /// The cell of the opponent's king.
    pub open spec fn opponent_king(&self) -> int {
        if self.side() == WHITE {
            self.king_black as int
        } else {
            self.king_white as int
        }
    }

    /// A castling right is only set while the king and the rook it names
    /// still stand on their home squares.
    pub open spec fn castling_coherent(&self) -> bool {
        castling_coherent_on(self.board@, self.state)
    }

    /// A non-zero en-passant cell lies on the rank a double push just
    /// crossed, is empty, and has the double-pushed enemy pawn behind it.
    pub open spec fn ep_coherent(&self) -> bool {
        ep_coherent_on(self.board@, self.state)
    }

    /// The side to move cannot capture the opponent's king. This holds of
    /// every position reached through a successful `make_move`.
    pub open spec fn opponent_king_safe(&self) -> bool {
        !attacks(self.board@, self.opponent_king(), self.side())
    }

    /// A position fit to generate moves from and search: well-formed and
    /// coherent, as every position reached from a coherent parsed position
    /// through successful moves is.
    pub open spec fn coherent(&self) -> bool {
        &&& self.wf()
        &&& self.castling_coherent()
        &&& self.ep_coherent()
        &&& self.opponent_king_safe()
    }

    /// Reports whether this position satisfies every condition
    /// (`coherent`) that move generation and search rely on:
    /// well-formedness of the board, king caches and state, castling and
    /// en-passant coherence, and the opponent's king not already being
    /// capturable. `from_fen` accepts placements these conditions reject
    /// (say, two kings of one color), so a caller gates a freshly parsed
    /// position with this.
    pub fn is_coherent(&self) -> (r: bool)
        ensures
            r == self.coherent(),
    {
        if self.board.len() != 120 || self.piece_hashes.len() != 768 || self.castling_hashes.len()
            != 16 || self.ep_hashes.len() != 8 {
            return false;
        }
        if self.king_white >= 120 || self.king_black >= 120 {
            return false;
        }
        let mut i: usize = 0;
        while i < 120
            invariant
                self.board@.len() == 120,
                i <= 120,
                forall|j: int|
                    0 <= j < i && !sq_on_board(j) ==> self.board@[j] == OFF_BOARD,
                forall|j: int|
                    #![trigger self.board@[j]]
                    0 <= j < i && sq_on_board(j) ==> self.board@[j] == EMPTY || crate::defs::is_piece(
                        self.board@[j],
                    ),
                forall|j: int|
                    0 <= j < i && sq_on_board(j) && #[trigger] self.board@[j] == WHITE + KING ==> j
                        == self.king_white,
                forall|j: int|
                    0 <= j < i && sq_on_board(j) && #[trigger] self.board@[j] == BLACK + KING ==> j
                        == self.king_black,
            decreases 120 - i,
        {
            let p = self.board[i];
            let on = 21 <= i && i <= 98 && 1 <= i % 10 && i % 10 <= 8;
            if on {
                let piece_ok = (WHITE < p && p <= WHITE + KING) || (BLACK < p && p <= BLACK
                    + KING);
                if p != EMPTY && !piece_ok {
                    return false;
                }
                if p == WHITE + KING && i != self.king_white {
                    return false;
                }
                if p == BLACK + KING && i != self.king_black {
                    return false;
                }
            } else {
                if p != OFF_BOARD {
                    return false;
                }
            }
            i += 1;
        }
        if !(21 <= self.king_white && self.king_white <= 98 && 1 <= self.king_white % 10
            && self.king_white % 10 <= 8 && self.board[self.king_white] == WHITE + KING) {
            return false;
        }
        if !(21 <= self.king_black && self.king_black <= 98 && 1 <= self.king_black % 10
            && self.king_black % 10 <= 8 && self.board[self.king_black] == BLACK + KING) {
            return false;
        }
        let side = crate::defs::state_side(self.state);
        if side != WHITE && side != BLACK {
            return false;
        }
        if crate::defs::state_castling(self.state) >= 16 {
            return false;
        }
        let ep0 = crate::defs::state_ep(self.state) as usize;
        if !(ep0 == 0 || (21 <= ep0 && ep0 <= 98 && 1 <= ep0 % 10 && ep0 % 10 <= 8)) {
            return false;
        }
        if self.state / 0x1000000 > 128 {
            return false;
        }
        proof {
            assert(self.wf());
        }
        let c = crate::defs::state_castling(self.state);
        if c / 1 % 2 == 1 && !(self.board[95] == WHITE + KING && self.board[98] == WHITE
            + crate::defs::ROOK) {
            return false;
        }
        if c / 2 % 2 == 1 && !(self.board[95] == WHITE + KING && self.board[91] == WHITE
            + crate::defs::ROOK) {
            return false;
        }
        if c / 4 % 2 == 1 && !(self.board[25] == BLACK + KING && self.board[28] == BLACK
            + crate::defs::ROOK) {
            return false;
        }
        if c / 8 % 2 == 1 && !(self.board[25] == BLACK + KING && self.board[21] == BLACK
            + crate::defs::ROOK) {
            return false;
        }
        let ep = crate::defs::state_ep(self.state) as usize;
        let side = crate::defs::state_side(self.state);
        if ep != 0 {
            if side == WHITE {
                if !(41 <= ep && ep <= 48 && self.board[ep] == EMPTY && self.board[ep + 10]
                    == BLACK + PAWN) {
                    return false;
                }
            } else {
                if !(71 <= ep && ep <= 78 && self.board[ep] == EMPTY && self.board[ep - 10]
                    == WHITE + PAWN) {
                    return false;
                }
            }
        }
        let ok = if side == WHITE {
            attacked(&self.board, self.king_black, WHITE)
        } else {
            attacked(&self.board, self.king_white, BLACK)
        };
        !ok
    }

    /// Equality of positions, field for field: board, state, king caches,
    /// hash, history, and Zobrist key tables.
    pub open spec fn same_as(&self, other: &Game) -> bool {
        &&& self.board@ == other.board@
        &&& self.state == other.state
        &&& self.king_white == other.king_white
        &&& self.king_black == other.king_black
        &&& self.hash == other.hash
        &&& self.history@ == other.history@
        &&& self.piece_hashes@ == other.piece_hashes@
        &&& self.black_hash == other.black_hash
        &&& self.castling_hashes@ == other.castling_hashes@
        &&& self.ep_hashes@ == other.ep_hashes@
    }

    /// Reports whether White is to move.
    pub fn white_to_move(&self) -> (r: bool)
        ensures
            r == (self.side() == WHITE),
    {
        crate::defs::state_side(self.state) == WHITE
    }

    /// Reports whether the half-move clock has reached the fifty-move
    /// draw threshold of 100 plies.
    pub fn fifty_move_draw(&self) -> (r: bool)
        ensures
            r == (draw_ply_of(self.state) >= 100),
    {
        crate::defs::state_draw_ply(self.state) >= 100
    }

    /// Reports whether the side to move's king is attacked by the
    /// opponent.
    pub fn in_check(&self) -> (r: bool)
        requires
            self.wf(),
        ensures
            r == attacks(self.board@, self.own_king(), opposite(self.side())),
    {
        let side = crate::defs::state_side(self.state);
        if side == WHITE {
            attacked(&self.board, self.king_white, BLACK)
        } else {
            attacked(&self.board, self.king_black, WHITE)
        }
    }

    /// The number of positions among the last `halfmove_clock` undo
    /// records whose pre-move hash equals the current hash.
    pub open spec fn spec_repetitions(&self) -> int {
        let len = self.history@.len() as int;
        let fifty = draw_ply_of(self.state) as int;
        if fifty > len {
            0
        } else {
            count_hash_matches(self.history@, self.hash, len - fifty, len)
        }
    }

    /// Counts how often `make_move` has already recorded the current
    /// position's hash within the fifty-move window: repetitions of the
    /// current position under the draw rules.
    pub fn repetitions(&self) -> (r: usize)
        ensures
            r == self.spec_repetitions(),
    {
        let mut reps: usize = 0;
        let length = self.history.len();
        let fifty = crate::defs::state_draw_ply(self.state) as usize;
        if fifty > length {
            return 0;
        }
        let mut k = length - fifty;
        while k < length
            invariant
                length - fifty <= k <= length,
                length == self.history@.len(),
                reps == count_hash_matches(self.history@, self.hash, length - fifty, k as int),
                reps <= k,
            decreases length - k,
        {
            if self.history[k].hash == self.hash {
                reps += 1;
            }
            k += 1;
            proof {
                lemma_count_hash_matches_step(
                    self.history@,
                    self.hash,
                    length - fifty,
                    k as int,
                );
            }
        }
        reps
    }
}

/// The number of indices in `lo..hi` whose record carries the hash `h`.
pub open spec fn count_hash_matches(hist: Seq<HistoryItem>, h: u64, lo: int, hi: int) -> int
    decreases hi - lo,
{
    if lo >= hi {
        0
    } else {
        count_hash_matches(hist, h, lo, hi - 1) + (if hist[hi - 1].hash == h {
            1int
        } else {
            0int
        })
    }
}

proof fn lemma_count_hash_matches_step(hist: Seq<HistoryItem>, h: u64, lo: int, hi: int)
    requires
        lo < hi,
    ensures
        count_hash_matches(hist, h, lo, hi) == count_hash_matches(hist, h, lo, hi - 1) + (
        if hist[hi - 1].hash == h {
            1int
        } else {
            0int
        }),
{
}

/// Relies on rand::random::<u64>: a fresh pseudo-random 64-bit value.
/// Nothing is promised of it; the Zobrist contracts speak only of the keys
/// a position has stored.
#[verifier::external_body]
fn random_u64() -> u64 {
    rand::random::<u64>()
}

impl Game {
    /// An empty position: a well-formed board with no pieces, zeroed
    /// state, and freshly drawn Zobrist key tables.
    pub(crate) fn new() -> (g: Game)
        ensures
            g.board@.len() == 120,
            forall|i: int|
                0 <= i < 120 ==> g.board@[i] == (if sq_on_board(i) {
                    EMPTY
                } else {
                    OFF_BOARD
                }),
            g.state == 0,
            g.king_white == 0,
            g.king_black == 0,
            g.piece_hashes@.len() == 768,
            g.castling_hashes@.len() == 16,
            g.ep_hashes@.len() == 8,
            g.hash == 0,
            g.history@.len() == 0,
    {
        let mut board: Vec<u8> = Vec::new();
        let mut i: usize = 0;
        while i < 120
            invariant
                i <= 120,
                board@.len() == i,
                forall|j: int| 0 <= j < i ==> board@[j] == OFF_BOARD,
            decreases 120 - i,
        {
            board.push(OFF_BOARD);
            i += 1;
        }
        let mut k: usize = 0;
        while k < 64
            invariant
                k <= 64,
                board@.len() == 120,
                forall|j: int|
                    0 <= j < 120 ==> board@[j] == (if exists|q: int|
                        0 <= q < k && crate::square::m8(q) == j {
                        EMPTY
                    } else {
                        OFF_BOARD
                    }),
            decreases 64 - k,
        {
            let cell = map8x8(k);
            board[cell] = EMPTY;
            k += 1;
        }
        proof {
            assert forall|i: int| 0 <= i < 120 implies board@[i] == (if sq_on_board(i) {
                EMPTY
            } else {
                OFF_BOARD
            }) by {
                if sq_on_board(i) {
                    crate::square::lemma_r8_on_board(i);
                    assert(crate::square::m8(crate::square::r8(i)) == i);
                }
                if exists|q: int| 0 <= q < 64 && crate::square::m8(q) == i {
                    let q = choose|q: int| 0 <= q < 64 && crate::square::m8(q) == i;
                    crate::square::lemma_m8_on_board(q);
                }
            }
        }
        let mut piece_hashes: Vec<u64> = Vec::new();
        let mut k: usize = 0;
        while k < 768
            invariant
                piece_hashes@.len() == k,
                k <= 768,
            decreases 768 - k,
        {
            piece_hashes.push(random_u64());
            k += 1;
        }
        let mut castling_hashes: Vec<u64> = Vec::new();
        let mut k: usize = 0;
        while k < 16
            invariant
                castling_hashes@.len() == k,
                k <= 16,
            decreases 16 - k,
        {
            castling_hashes.push(random_u64());
            k += 1;
        }
        let mut ep_hashes: Vec<u64> = Vec::new();
        let mut k: usize = 0;
        while k < 8
            invariant
                ep_hashes@.len() == k,
                k <= 8,
            decreases 8 - k,
        {
            ep_hashes.push(random_u64());
            k += 1;
        }
        Game {
            board,
            state: 0,
            king_white: 0,
            king_black: 0,
            piece_hashes,
            black_hash: random_u64(),
            castling_hashes,
            ep_hashes,
            hash: 0,
            history: Vec::new(),
        }
    }
}

} // verus!
