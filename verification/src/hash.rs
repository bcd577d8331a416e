//! Zobrist hashing: the 64-bit fingerprint of a position is the XOR of one
//! key per occupied square, a side-to-move key when Black moves, one key
//! per castling-rights mask, and one key per en-passant file.

use vstd::prelude::*;
use crate::defs::{EMPTY, WHITE, BLACK, kind_of, color_of, side_of, castling_of, ep_of};
use crate::game::Game;
use crate::square::{m8, map8x8, lemma_m8_on_board};

verus! {

/// The row of a piece in the piece-key table: kinds 1..=6 for White, then
/// kinds 1..=6 for Black.
pub open spec fn piece_index(p: u8) -> int {
    kind_of(p) - 1 + (if color_of(p) == BLACK {
        6int
    } else {
        0int
    })
}

/// The key a square contributes to the board hash: the key of its piece,
/// or 0 if the square is empty.
pub open spec fn square_key(b: Seq<u8>, ph: Seq<u64>, i: int) -> u64 {
    if b[m8(i)] == EMPTY {
        0u64
    } else {
        ph[piece_index(b[m8(i)]) * 64 + i]
    }
}

/// The XOR of the keys of the 8x8 squares with index below `i`.
pub open spec fn board_hash_to(b: Seq<u8>, ph: Seq<u64>, i: int) -> u64
    decreases i,
{
    if i <= 0 {
        0u64
    } else {
        board_hash_to(b, ph, i - 1) ^ square_key(b, ph, i - 1)
    }
}

pub proof fn lemma_xor_zero(x: u64)
    by (bit_vector)
    ensures
        x ^ 0u64 == x,
{
}

proof fn lemma_board_hash_step(b: Seq<u8>, ph: Seq<u64>, i: int)
    requires
        i > 0,
    ensures
        board_hash_to(b, ph, i) == board_hash_to(b, ph, i - 1) ^ square_key(b, ph, i - 1),
{
}

impl Game {
    /// The XOR of all applicable Zobrist keys of this position: the keys
    /// of the occupied squares, the side key when Black is to move, the
    /// key of the castling mask, and the key of the en-passant file when
    /// an en-passant cell is set.
    pub open spec fn spec_hash(&self) -> u64 {
        let h0 = board_hash_to(self.board@, self.piece_hashes@, 64);
        let h1 = if side_of(self.state) != WHITE {
            h0 ^ self.black_hash
        } else {
            h0
        };
        let h2 = h1 ^ self.castling_hashes@[castling_of(self.state) as int];
        if ep_of(self.state) != 0 {
            h2 ^ self.ep_hashes@[ep_of(self.state) as int % 10 - 1]
        } else {
            h2
        }
    }

    /// Recomputes the hash from scratch, establishing that it equals the
    /// XOR of the specified Zobrist contributions.
    pub(crate) fn set_hash(&mut self)
        requires
            crate::attack::board_wf(old(self).board@),
            crate::defs::state_wf(old(self).state),
            old(self).tables_wf(),
        ensures
            final(self).board@ == old(self).board@,
            final(self).state == old(self).state,
            final(self).king_white == old(self).king_white,
            final(self).king_black == old(self).king_black,
            final(self).piece_hashes@ == old(self).piece_hashes@,
            final(self).black_hash == old(self).black_hash,
            final(self).castling_hashes@ == old(self).castling_hashes@,
            final(self).ep_hashes@ == old(self).ep_hashes@,
            final(self).history@ == old(self).history@,
            final(self).hash == old(self).spec_hash(),
            final(self).hash == final(self).spec_hash(),
    {
        let mut hash: u64 = 0;
        let mut i: usize = 0;
        while i < 64
            invariant
                crate::attack::board_wf(self.board@),
                crate::defs::state_wf(self.state),
                self.tables_wf(),
                i <= 64,
                hash == board_hash_to(self.board@, self.piece_hashes@, i as int),
            decreases 64 - i,
        {
            let cell = map8x8(i);
            let piece = self.board[cell];
            if piece != EMPTY {
                let mut n: usize = (crate::defs::piece_kind(piece) - 1) as usize;
                if crate::defs::piece_color(piece) == BLACK {
                    n += 6;
                }
                proof {
                    crate::defs::lemma_piece_decompose(piece);
                    assert(n == piece_index(piece));
                }
                hash = hash ^ self.piece_hashes[n * 64 + i];
            }
            i += 1;
            proof {
                lemma_board_hash_step(self.board@, self.piece_hashes@, i as int);
                lemma_xor_zero(hash);
            }
        }
        if !self.white_to_move() {
            hash = hash ^ self.black_hash;
        }
        let castling = crate::defs::state_castling(self.state) as usize;
        hash = hash ^ self.castling_hashes[castling];
        let ep = crate::defs::state_ep(self.state) as usize;
        if ep != 0 {
            hash = hash ^ self.ep_hashes[ep % 10 - 1];
        }
        self.hash = hash;
    }
}

} // verus!
