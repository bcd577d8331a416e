//! The compact move encoding.
//!
//! A move packs the from-cell (bits 0..8), the to-cell (bits 8..16) and the
//! promotion kind (bits 16..24, `EMPTY` for a non-promotion) into one
//! integer. Bits 32.. carry a transient sort key for move ordering; the low
//! 32 bits are the move proper.

use vstd::prelude::*;
use crate::defs::{EMPTY, BISHOP, KNIGHT, ROOK, QUEEN};
use crate::square::{sq_on_board, spec_algebraic_to_pos, m8};

verus! {

pub type Move = u64;

/// A move that exists in no position; used as a "no principal variation
/// move" sentinel for move ordering.
pub const DUMMY_MOVE: Move = 0;

/// The from-cell of a move.
pub open spec fn mv_from(m: Move) -> u64 {
    m % 0x100
}

/// The to-cell of a move.
pub open spec fn mv_to(m: Move) -> u64 {
    m / 0x100 % 0x100
}

/// The promotion kind of a move; `EMPTY` for a non-promotion.
pub open spec fn mv_prom(m: Move) -> u64 {
    m / 0x10000 % 0x100
}

/// The move proper: the low 32 bits, with any sort key stripped.
pub open spec fn mv_core(m: Move) -> u64 {
    m % 0x100000000
}

/// The transient sort key in the high 32 bits.
pub open spec fn mv_score(m: Move) -> u64 {
    m / 0x100000000
}

/// Packs a from-cell, a to-cell and a promotion kind into a move.
pub open spec fn pack_move(from: u64, to: u64, prom: u64) -> Move {
    (prom * 0x10000 + to * 0x100 + from) as u64
}

/// Packs a sort key beside a (32-bit) move.
pub open spec fn pack_scored(score: u64, core: u64) -> u64 {
    (score * 0x100000000 + core) as u64
}

pub proof fn lemma_pack_move(from: u64, to: u64, prom: u64)
    requires
        from < 0x100,
        to < 0x100,
        prom < 0x100,
    ensures
        mv_from(pack_move(from, to, prom)) == from,
        mv_to(pack_move(from, to, prom)) == to,
        mv_prom(pack_move(from, to, prom)) == prom,
        mv_core(pack_move(from, to, prom)) == pack_move(from, to, prom),
        mv_score(pack_move(from, to, prom)) == 0,
        pack_move(from, to, prom) < 0x1000000,
{
    let v: int = prom * 0x10000 + to * 0x100 + from;
    assert(v < 0x1000000);
    assert(v % 0x100 == from) by {
        assert(v == (prom * 0x100 + to) * 0x100 + from);
    }
    assert(v / 0x100 == prom * 0x100 + to) by {
        assert(v == (prom * 0x100 + to) * 0x100 + from);
    }
    assert((prom * 0x100 + to) % 0x100 == to);
    assert(v / 0x10000 == prom) by {
        assert(v == prom * 0x10000 + (to * 0x100 + from));
        assert(to * 0x100 + from < 0x10000);
    }
}

pub proof fn lemma_pack_scored(score: u64, core: u64)
    requires
        score < 0x100000000,
        core < 0x100000000,
    ensures
        mv_core(pack_scored(score, core)) == core,
        mv_score(pack_scored(score, core)) == score,
        mv_from(pack_scored(score, core)) == mv_from(core),
        mv_to(pack_scored(score, core)) == mv_to(core),
        mv_prom(pack_scored(score, core)) == mv_prom(core),
        score * 0x100000000 + core < 0x10000000000000000,
{
    let v: int = score * 0x100000000 + core;
    assert(v % 0x100000000 == core && v / 0x100000000 == score) by {
        assert(v == score * 0x100000000 + core);
    }
    lemma_core_fields(pack_scored(score, core));
    lemma_core_fields(core);
    assert(core % 0x100 == v % 0x100) by {
        assert(v == (score * 0x1000000) * 0x100 + core);
        assert(core == (core / 0x100) * 0x100 + core % 0x100);
        assert(v == (score * 0x1000000 + core / 0x100) * 0x100 + core % 0x100);
    }
    assert(v / 0x100 % 0x100 == core / 0x100 % 0x100 && v / 0x10000 % 0x100 == core / 0x10000
        % 0x100) by {
        assert(v == (score * 0x1000000) * 0x100 + core);
        assert(v / 0x100 == score * 0x1000000 + core / 0x100) by {
            assert(v == (score * 0x1000000 + core / 0x100) * 0x100 + core % 0x100);
        }
        assert((score * 0x1000000 + core / 0x100) % 0x100 == core / 0x100 % 0x100) by {
            assert(score * 0x1000000 + core / 0x100 == (score * 0x10000 + core / 0x100 / 0x100)
                * 0x100 + core / 0x100 % 0x100);
        }
        assert(v / 0x10000 == score * 0x10000 + core / 0x10000) by {
            assert(v == (score * 0x10000 + core / 0x10000) * 0x10000 + core % 0x10000);
        }
        assert((score * 0x10000 + core / 0x10000) % 0x100 == core / 0x10000 % 0x100) by {
            assert(score * 0x10000 + core / 0x10000 == (score * 0x100 + core / 0x10000 / 0x100)
                * 0x100 + core / 0x10000 % 0x100);
        }
    }
}

/// The field extractors only look at the low 24 bits.
pub proof fn lemma_core_fields(m: u64)
    ensures
        mv_from(m) == mv_from(mv_core(m)),
        mv_to(m) == mv_to(mv_core(m)),
        mv_prom(m) == mv_prom(mv_core(m)),
        mv_from(m) < 0x100,
        mv_to(m) < 0x100,
        mv_prom(m) < 0x100,
        mv_core(m) < 0x100000000,
{
    let c = mv_core(m);
    let hi = m / 0x100000000;
    assert(m == hi * 0x100000000 + c);
    assert(m % 0x100 == c % 0x100) by {
        assert(m == (hi * 0x1000000 + c / 0x100) * 0x100 + c % 0x100);
        assert(c == (c / 0x100) * 0x100 + c % 0x100);
    }
    assert(m / 0x100 % 0x100 == c / 0x100 % 0x100) by {
        assert(m / 0x100 == hi * 0x1000000 + c / 0x100) by {
            assert(m == (hi * 0x1000000 + c / 0x100) * 0x100 + c % 0x100);
        }
        assert((hi * 0x1000000 + c / 0x100) % 0x100 == c / 0x100 % 0x100) by {
            assert(hi * 0x1000000 + c / 0x100 == (hi * 0x10000 + c / 0x100 / 0x100) * 0x100 + c
                / 0x100 % 0x100);
        }
    }
    assert(m / 0x10000 % 0x100 == c / 0x10000 % 0x100) by {
        assert(m / 0x10000 == hi * 0x10000 + c / 0x10000) by {
            assert(m == (hi * 0x10000 + c / 0x10000) * 0x10000 + c % 0x10000);
        }
        assert((hi * 0x10000 + c / 0x10000) % 0x100 == c / 0x10000 % 0x100) by {
            assert(hi * 0x10000 + c / 0x10000 == (hi * 0x100 + c / 0x10000 / 0x100) * 0x100 + c
                / 0x10000 % 0x100);
        }
    }
}

/// A promotion field that `to_algebraic` accepts: none, or one of the four
/// pieces a pawn may become.
pub open spec fn prom_field_ok(m: Move) -> bool {
    mv_prom(m) == EMPTY || mv_prom(m) == BISHOP as u64 || mv_prom(m) == KNIGHT as u64 || mv_prom(
        m,
    ) == ROOK as u64 || mv_prom(m) == QUEEN as u64
}

/// The file letter of an on-board cell.
pub open spec fn spec_file_char(p: int) -> char {
    if p % 10 == 1 {
        'a'
    } else if p % 10 == 2 {
        'b'
    } else if p % 10 == 3 {
        'c'
    } else if p % 10 == 4 {
        'd'
    } else if p % 10 == 5 {
        'e'
    } else if p % 10 == 6 {
        'f'
    } else if p % 10 == 7 {
        'g'
    } else {
        'h'
    }
}

/// The rank digit of an on-board cell.
pub open spec fn spec_rank_char(p: int) -> char {
    if p / 10 == 2 {
        '8'
    } else if p / 10 == 3 {
        '7'
    } else if p / 10 == 4 {
        '6'
    } else if p / 10 == 5 {
        '5'
    } else if p / 10 == 6 {
        '4'
    } else if p / 10 == 7 {
        '3'
    } else if p / 10 == 8 {
        '2'
    } else {
        '1'
    }
}

/// The two-character algebraic name of an on-board cell.
pub open spec fn spec_pos_algebraic(p: int) -> Seq<char> {
    seq![spec_file_char(p), spec_rank_char(p)]
}

/// The promotion letter: empty for a non-promotion.
pub open spec fn spec_prom_chars(prom: u64) -> Seq<char> {
    if prom == BISHOP as u64 {
        seq!['b']
    } else if prom == KNIGHT as u64 {
        seq!['n']
    } else if prom == ROOK as u64 {
        seq!['r']
    } else if prom == QUEEN as u64 {
        seq!['q']
    } else {
        Seq::empty()
    }
}

/// The long-algebraic string of a move: from-square, to-square, and the
/// promotion letter if any.
pub open spec fn spec_move_algebraic(m: Move) -> Seq<char> {
    spec_pos_algebraic(mv_from(m) as int) + spec_pos_algebraic(mv_to(m) as int) + spec_prom_chars(
        mv_prom(m),
    )
}

/// Packs a from-cell, a to-cell and a promotion kind into a move value.
pub fn encode_move(from: usize, to: usize, promotion: usize) -> (r: Move)
    requires
        from < 0x100,
        to < 0x100,
        promotion < 0x100,
    ensures
        r == pack_move(from as u64, to as u64, promotion as u64),
        mv_from(r) == from,
        mv_to(r) == to,
        mv_prom(r) == promotion,
        mv_core(r) == r,
{
    proof {
        lemma_pack_move(from as u64, to as u64, promotion as u64);
    }
    (promotion as u64) * 0x10000 + (to as u64) * 0x100 + (from as u64)
}

/// Appends the algebraic name of an on-board cell to a string.
fn push_square(s: &mut String, p: usize)
    requires
        sq_on_board(p as int),
    ensures
        final(s)@ == old(s)@ + spec_pos_algebraic(p as int),
{
    proof {
        reveal_strlit("a");
        reveal_strlit("b");
        reveal_strlit("c");
        reveal_strlit("d");
        reveal_strlit("e");
        reveal_strlit("f");
        reveal_strlit("g");
        reveal_strlit("h");
        reveal_strlit("1");
        reveal_strlit("2");
        reveal_strlit("3");
        reveal_strlit("4");
        reveal_strlit("5");
        reveal_strlit("6");
        reveal_strlit("7");
        reveal_strlit("8");
    }
    let f = p % 10;
    if f == 1 {
        s.append("a");
    } else if f == 2 {
        s.append("b");
    } else if f == 3 {
        s.append("c");
    } else if f == 4 {
        s.append("d");
    } else if f == 5 {
        s.append("e");
    } else if f == 6 {
        s.append("f");
    } else if f == 7 {
        s.append("g");
    } else {
        s.append("h");
    }
    let r = p / 10;
    if r == 2 {
        s.append("8");
    } else if r == 3 {
        s.append("7");
    } else if r == 4 {
        s.append("6");
    } else if r == 5 {
        s.append("5");
    } else if r == 6 {
        s.append("4");
    } else if r == 7 {
        s.append("3");
    } else if r == 8 {
        s.append("2");
    } else {
        s.append("1");
    }
    proof {
        assert(final(s)@ =~= old(s)@ + spec_pos_algebraic(p as int));
    }
}

/// Construction and decoding of the compact move encoding.
pub trait MoveTrait: Sized + Copy {
    /// The from-cell, as this type encodes it.
    spec fn spec_from(self) -> u64;

    /// The to-cell, as this type encodes it.
    spec fn spec_to(self) -> u64;

    /// The promotion kind, as this type encodes it.
    spec fn spec_promotion(self) -> u64;

    /// The long-algebraic string, as this type encodes it.
    spec fn spec_algebraic(self) -> Seq<char>;

    /// The underlying encoded value.
    spec fn spec_value(self) -> u64;

    /// A non-promotion move.
    fn new_basic(from: usize, to: usize) -> (r: Self)
        requires
            from < 0x100,
            to < 0x100,
        ensures
            r.spec_from() == from,
            r.spec_to() == to,
            r.spec_promotion() == EMPTY,
            r.spec_value() == pack_move(from as u64, to as u64, EMPTY as u64),
    ;

    /// A move carrying a promotion kind.
    fn new_promotion(from: usize, to: usize, promotion: usize) -> (r: Self)
        requires
            from < 0x100,
            to < 0x100,
            promotion < 0x100,
        ensures
            r.spec_from() == from,
            r.spec_to() == to,
            r.spec_promotion() == promotion,
            r.spec_value() == pack_move(from as u64, to as u64, promotion as u64),
    ;

    /// The from-cell.
    fn from(self) -> (r: usize)
        ensures
            r == self.spec_from(),
            r < 0x100,
    ;

    /// The to-cell.
    fn to(self) -> (r: usize)
        ensures
            r == self.spec_to(),
            r < 0x100,
    ;

    /// The promotion kind, `EMPTY` for a non-promotion.
    fn promotion(self) -> (r: usize)
        ensures
            r == self.spec_promotion(),
            r < 0x100,
    ;

    /// The long-algebraic string of the move.
    fn to_algebraic(self) -> (r: String)
        requires
            sq_on_board(self.spec_from() as int),
            sq_on_board(self.spec_to() as int),
            self.spec_promotion() == EMPTY || self.spec_promotion() == BISHOP as u64
                || self.spec_promotion() == KNIGHT as u64 || self.spec_promotion() == ROOK as u64
                || self.spec_promotion() == QUEEN as u64,
        ensures
            r@ == self.spec_algebraic(),
    ;
}

impl MoveTrait for Move {
    open spec fn spec_from(self) -> u64 {
        mv_from(self)
    }

    open spec fn spec_to(self) -> u64 {
        mv_to(self)
    }

    open spec fn spec_promotion(self) -> u64 {
        mv_prom(self)
    }

    open spec fn spec_algebraic(self) -> Seq<char> {
        spec_move_algebraic(self)
    }

    open spec fn spec_value(self) -> u64 {
        self
    }

    fn new_basic(from: usize, to: usize) -> (r: Move)
    {
        encode_move(from, to, EMPTY as usize)
    }

    fn new_promotion(from: usize, to: usize, promotion: usize) -> (r: Move)
    {
        encode_move(from, to, promotion)
    }

    fn from(self) -> (r: usize)
    {
        (self % 0x100) as usize
    }

    fn to(self) -> (r: usize)
    {
        (self / 0x100 % 0x100) as usize
    }

    fn promotion(self) -> (r: usize)
    {
        (self / 0x10000 % 0x100) as usize
    }

    fn to_algebraic(self) -> (r: String)
    {
        let mut s = String::new();
        push_square(&mut s, self.from());
        push_square(&mut s, self.to());
        let prom = self.promotion();
        proof {
            reveal_strlit("b");
            reveal_strlit("n");
            reveal_strlit("r");
            reveal_strlit("q");
        }
        if prom == BISHOP as usize {
            s.append("b");
        } else if prom == KNIGHT as usize {
            s.append("n");
        } else if prom == ROOK as usize {
            s.append("r");
        } else if prom == QUEEN as usize {
            s.append("q");
        }
        proof {
            assert(s@ =~= spec_move_algebraic(self));
        }
        s
    }
}

/// The move denoted by a long-algebraic string, with cells as 10x12 indices.
pub open spec fn spec_algebraic_to_move(s: Seq<char>) -> Move {
    let from8 = spec_algebraic_to_pos(s.subrange(0, 2)).unwrap();
    let to8 = spec_algebraic_to_pos(s.subrange(2, 4)).unwrap();
    let prom: u64 = if s.len() == 4 {
        EMPTY as u64
    } else if s[4] == 'b' {
        BISHOP as u64
    } else if s[4] == 'n' {
        KNIGHT as u64
    } else if s[4] == 'r' {
        ROOK as u64
    } else {
        QUEEN as u64
    };
    pack_move(m8(from8) as u64, m8(to8) as u64, prom)
}

/// True when a string is a well-formed long-algebraic move: two square
/// names, optionally followed by a promotion letter.
pub open spec fn algebraic_move_ok(s: Seq<char>) -> bool {
    &&& (s.len() == 4 || s.len() == 5)
    &&& spec_algebraic_to_pos(s.subrange(0, 2)) is Some
    &&& spec_algebraic_to_pos(s.subrange(2, 4)) is Some
    &&& (s.len() == 5 ==> (s[4] == 'b' || s[4] == 'n' || s[4] == 'r' || s[4] == 'q'))
}

/// Parses a long-algebraic move string such as "e2e4" or "e7e8q".
///
/// A malformed string is a caller error (the protocol adapter validates its
/// input), so it is excluded by precondition rather than reported.
pub fn algebraic_to_move(s: &str) -> (r: Move)
    requires
        algebraic_move_ok(s@),
    ensures
        r == spec_algebraic_to_move(s@),
        sq_on_board(mv_from(r) as int),
        sq_on_board(mv_to(r) as int),
        prom_field_ok(r),
        mv_core(r) == r,
{
    let len = s.unicode_len();
    let from_str = s.substring_char(0, 2);
    let to_str = s.substring_char(2, 4);
    let from8 = match crate::square::algebraic_to_pos(from_str) {
        Some(p) => p,
        None => {
            proof {
                assert(false);
            }
            0
        },
    };
    let to8 = match crate::square::algebraic_to_pos(to_str) {
        Some(p) => p,
        None => {
            proof {
                assert(false);
            }
            0
        },
    };
    let prom: usize = if len == 4 {
        EMPTY as usize
    } else {
        let c = s.get_char(4);
        if c == 'b' {
            BISHOP as usize
        } else if c == 'n' {
            KNIGHT as usize
        } else if c == 'r' {
            ROOK as usize
        } else {
            QUEEN as usize
        }
    };
    let from = crate::square::map8x8(from8);
    let to = crate::square::map8x8(to8);
    encode_move(from, to, prom)
}

} // verus!
