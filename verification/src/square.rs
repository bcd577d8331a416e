//! Geometry of the 10x12 mailbox board.
//!
//! The board is a one-dimensional array of 120 cells. Cells whose index is
//! between 21 and 98 and whose file digit (index mod 10) is between 1 and 8
//! form the real 8x8 board; every other cell is an off-board sentinel, so
//! knight jumps and sliding rays terminate without bounds checks.

use vstd::prelude::*;

verus! {

/// True for the 64 cells of the real 8x8 board.
pub open spec fn sq_on_board(p: int) -> bool {
    21 <= p <= 98 && 1 <= p % 10 <= 8
}

/// Maps an 8x8 square index (0..64, rank-major from Black's back rank)
/// to its 10x12 cell.
pub open spec fn m8(i: int) -> int {
    21 + 10 * (i / 8) + i % 8
}

/// Inverse of `m8` on the on-board cells.
pub open spec fn r8(p: int) -> int {
    8 * (p / 10) + p % 10 - 17
}

pub proof fn lemma_m8_on_board(i: int)
    requires
        0 <= i < 64,
    ensures
        sq_on_board(m8(i)),
        r8(m8(i)) == i,
        0 <= m8(i) < 120,
{
    let r = i / 8;
    let f = i % 8;
    assert(0 <= r < 8 && 0 <= f < 8);
    assert((21 + 10 * r + f) % 10 == f + 1) by {
        assert((21 + 10 * r + f) == 10 * (2 + r) + (f + 1));
    }
    assert((21 + 10 * r + f) / 10 == 2 + r) by {
        assert((21 + 10 * r + f) == 10 * (2 + r) + (f + 1));
    }
}

pub proof fn lemma_r8_on_board(p: int)
    requires
        sq_on_board(p),
    ensures
        0 <= r8(p) < 64,
        m8(r8(p)) == p,
{
    let r = p / 10;
    let f = p % 10;
    assert(2 <= r <= 9);
    assert(p == 10 * r + f);
    assert(r8(p) == 8 * (r - 2) + (f - 1));
    assert(r8(p) / 8 == r - 2 && r8(p) % 8 == f - 1) by {
        assert(r8(p) == 8 * (r - 2) + (f - 1));
    }
}

/// Maps an 8x8 square index to its 10x12 cell (`MAP8X8` table).
pub fn map8x8(i: usize) -> (r: usize)
    requires
        i < 64,
    ensures
        r == m8(i as int),
        sq_on_board(r as int),
{
    proof {
        lemma_m8_on_board(i as int);
    }
    21 + 10 * (i / 8) + i % 8
}

/// Maps an on-board 10x12 cell back to its 8x8 square index (`REV8X8` table).
pub fn rev8x8(p: usize) -> (r: usize)
    requires
        sq_on_board(p as int),
    ensures
        r == r8(p as int),
        r < 64,
{
    proof {
        lemma_r8_on_board(p as int);
    }
    8 * (p / 10) + p % 10 - 17
}

/// Mirrors an 8x8 square index across the horizontal axis (`FLIP` table).
pub open spec fn flip(i: int) -> int {
    8 * (7 - i / 8) + i % 8
}

pub proof fn lemma_flip(i: int)
    requires
        0 <= i < 64,
    ensures
        0 <= flip(i) < 64,
        flip(flip(i)) == i,
{
    let r = i / 8;
    let f = i % 8;
    assert(flip(i) == 8 * (7 - r) + f);
    assert(flip(i) / 8 == 7 - r && flip(i) % 8 == f) by {
        assert(flip(i) == 8 * (7 - r) + f);
    }
}

/// Mirrors an 8x8 square index across the horizontal axis.
pub fn flip_square(i: usize) -> (r: usize)
    requires
        i < 64,
    ensures
        r == flip(i as int),
        r < 64,
{
    proof {
        lemma_flip(i as int);
    }
    8 * (7 - i / 8) + i % 8
}

/// The file letter of a square string, as an 8x8 file index, or -1.
pub open spec fn spec_file_of(c: char) -> int {
    if 'a' <= c <= 'h' {
        c as int - 'a' as int
    } else if 'A' <= c <= 'H' {
        c as int - 'A' as int
    } else {
        -1
    }
}

/// The rank digit of a square string, as a digit 1..=8, or -1.
pub open spec fn spec_rank_of(c: char) -> int {
    if '1' <= c <= '8' {
        c as int - '0' as int
    } else {
        -1
    }
}

/// The 8x8 square index denoted by a two-character algebraic square
/// such as "e4", or None.
pub open spec fn spec_algebraic_to_pos(s: Seq<char>) -> Option<int> {
    if s.len() == 2 && spec_file_of(s[0]) >= 0 && spec_rank_of(s[1]) >= 0 {
        Some(8 * (8 - spec_rank_of(s[1])) + spec_file_of(s[0]))
    } else {
        None
    }
}

/// Parses an algebraic square name ("a1".."h8", case-insensitive file)
/// into its 8x8 square index.
pub fn algebraic_to_pos(s: &str) -> (r: Option<usize>)
    ensures
        match r {
            Some(p) => spec_algebraic_to_pos(s@) == Some(p as int) && p < 64,
            None => spec_algebraic_to_pos(s@) is None,
        },
{
    if s.unicode_len() != 2 {
        return None;
    }
    let c = s.get_char(0);
    let f: usize = if 'a' <= c && c <= 'h' {
        (c as usize) - ('a' as usize)
    } else if 'A' <= c && c <= 'H' {
        (c as usize) - ('A' as usize)
    } else {
        return None;
    };
    let d = s.get_char(1);
    if '1' <= d && d <= '8' {
        let rank: usize = (d as usize) - ('0' as usize);
        Some(8 * (8 - rank) + f)
    } else {
        None
    }
}

} // verus!
