//! Piece codes and the packed game-state word.
//!
//! A piece code packs a kind (low three bits) and a color (bit 6 for White,
//! bit 7 for Black). The off-board sentinel carries both color bits, so it
//! matches neither side and is never empty. Because the kind and color bits
//! are disjoint, packing is written as addition and unpacking as division
//! and remainder by powers of two.

use vstd::prelude::*;

verus! {

pub const EMPTY: u8 = 0;

pub const PAWN: u8 = 1;

pub const BISHOP: u8 = 2;

pub const KNIGHT: u8 = 3;

pub const ROOK: u8 = 4;

pub const QUEEN: u8 = 5;

pub const KING: u8 = 6;

pub const WHITE: u8 = 64;

pub const BLACK: u8 = 128;

pub const OFF_BOARD: u8 = 192;

pub const CASTLING_KING_WHITE: u8 = 1;

pub const CASTLING_QUEEN_WHITE: u8 = 2;

pub const CASTLING_KING_BLACK: u8 = 4;

pub const CASTLING_QUEEN_BLACK: u8 = 8;

/// The kind bits of a piece code.
pub open spec fn kind_of(p: u8) -> u8 {
    p % 8
}

/// The color bits of a piece code.
pub open spec fn color_of(p: u8) -> u8 {
    (p / 64 * 64) as u8
}

/// True for the twelve real piece codes: a side color plus a kind 1..=6.
pub open spec fn is_piece(p: u8) -> bool {
    (WHITE < p <= WHITE + KING) || (BLACK < p <= BLACK + KING)
}

/// The other side's color bits.
pub open spec fn opposite(c: u8) -> u8 {
    if c == WHITE {
        BLACK
    } else {
        WHITE
    }
}

pub proof fn lemma_piece_decompose(p: u8)
    requires
        is_piece(p),
    ensures
        color_of(p) == WHITE || color_of(p) == BLACK,
        1 <= kind_of(p) <= 6,
        p == color_of(p) + kind_of(p),
{
}

/// The kind bits of a piece code (`piece & PIECE_MASK`).
pub fn piece_kind(p: u8) -> (r: u8)
    ensures
        r == kind_of(p),
{
    p % 8
}

/// The color bits of a piece code (`piece & COLOR_MASK`).
pub fn piece_color(p: u8) -> (r: u8)
    ensures
        r == color_of(p),
{
    p / 64 * 64
}

// ---------------------------------------------------------------------------
// The packed game-state word:
// bits 0..8 side to move, bits 8..16 castling rights, bits 16..24 the
// en-passant target cell (0 if none), bits 24.. the half-move clock.
// ---------------------------------------------------------------------------

/// Packs the four state fields into one word.
pub open spec fn pack_state(draw_ply: u32, ep: u32, castling: u32, side: u32) -> u32 {
    (draw_ply * 0x1000000 + ep * 0x10000 + castling * 0x100 + side) as u32
}

/// The side to move (bits 0..8).
pub open spec fn side_of(s: u32) -> u8 {
    (s % 0x100) as u8
}

/// The castling-rights mask (bits 8..16).
pub open spec fn castling_of(s: u32) -> u32 {
    s / 0x100 % 0x100
}

/// The en-passant target cell (bits 16..24), 0 if none.
pub open spec fn ep_of(s: u32) -> u32 {
    s / 0x10000 % 0x100
}

/// The stored half-move clock field (bits 24..).
pub open spec fn draw_ply_raw(s: u32) -> u32 {
    s / 0x1000000
}

/// The half-move clock as read back: the low seven bits of the stored field.
pub open spec fn draw_ply_of(s: u32) -> u32 {
    draw_ply_raw(s) % 128
}

/// Well-formedness of a packed state word.
pub open spec fn state_wf(s: u32) -> bool {
    &&& (side_of(s) == WHITE || side_of(s) == BLACK)
    &&& castling_of(s) < 16
    &&& (ep_of(s) == 0 || crate::square::sq_on_board(ep_of(s) as int))
    &&& draw_ply_raw(s) <= 128
}

pub proof fn lemma_pack_state(draw_ply: u32, ep: u32, castling: u32, side: u32)
    requires
        draw_ply <= 128,
        ep < 0x100,
        castling < 0x100,
        side < 0x100,
    ensures
        side_of(pack_state(draw_ply, ep, castling, side)) == side,
        castling_of(pack_state(draw_ply, ep, castling, side)) == castling,
        ep_of(pack_state(draw_ply, ep, castling, side)) == ep,
        draw_ply_raw(pack_state(draw_ply, ep, castling, side)) == draw_ply,
        draw_ply * 0x1000000 + ep * 0x10000 + castling * 0x100 + side < 0x100000000,
{
    let v: int = draw_ply * 0x1000000 + ep * 0x10000 + castling * 0x100 + side;
    assert(v < 0x100000000);
    let s = pack_state(draw_ply, ep, castling, side);
    assert(s == v);
    assert(v % 0x100 == side) by {
        assert(v == (draw_ply * 0x10000 + ep * 0x100 + castling) * 0x100 + side);
    }
    assert(v / 0x100 == draw_ply * 0x10000 + ep * 0x100 + castling) by {
        assert(v == (draw_ply * 0x10000 + ep * 0x100 + castling) * 0x100 + side);
    }
    assert((draw_ply * 0x10000 + ep * 0x100 + castling) % 0x100 == castling) by {
        assert(draw_ply * 0x10000 + ep * 0x100 + castling == (draw_ply * 0x100 + ep) * 0x100
            + castling);
    }
    assert(v / 0x10000 == draw_ply * 0x100 + ep) by {
        assert(v == (draw_ply * 0x100 + ep) * 0x10000 + (castling * 0x100 + side));
        assert(castling * 0x100 + side < 0x10000);
    }
    assert((draw_ply * 0x100 + ep) % 0x100 == ep);
    assert(v / 0x1000000 == draw_ply) by {
        assert(v == draw_ply * 0x1000000 + (ep * 0x10000 + castling * 0x100 + side));
        assert(ep * 0x10000 + castling * 0x100 + side < 0x1000000);
    }
}

/// Packs the four state fields into one word.
pub fn make_state(draw_ply: u32, ep: u32, castling: u32, side: u32) -> (s: u32)
    requires
        draw_ply <= 128,
        ep < 0x100,
        castling < 0x100,
        side < 0x100,
    ensures
        s == pack_state(draw_ply, ep, castling, side),
        side_of(s) == side,
        castling_of(s) == castling,
        ep_of(s) == ep,
        draw_ply_raw(s) == draw_ply,
{
    proof {
        lemma_pack_state(draw_ply, ep, castling, side);
    }
    draw_ply * 0x1000000 + ep * 0x10000 + castling * 0x100 + side
}

/// The side to move of a packed state word.
pub fn state_side(s: u32) -> (r: u8)
    ensures
        r == side_of(s),
{
    (s % 0x100) as u8
}

/// The castling-rights mask of a packed state word.
pub fn state_castling(s: u32) -> (r: u32)
    ensures
        r == castling_of(s),
{
    s / 0x100 % 0x100
}

/// The en-passant target cell of a packed state word.
pub fn state_ep(s: u32) -> (r: u32)
    ensures
        r == ep_of(s),
{
    s / 0x10000 % 0x100
}

/// The half-move clock of a packed state word.
pub fn state_draw_ply(s: u32) -> (r: u32)
    ensures
        r == draw_ply_of(s),
{
    s / 0x1000000 % 128
}

} // verus!
