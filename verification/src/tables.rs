//! The piece-square tables of the static evaluator.

use vstd::prelude::*;

verus! {

/// The `PAWN_PCSQ` piece-square table.
pub open spec fn spec_pawn_pcsq(i: int) -> int {
    if i == 0 {
        0
    } else if i == 1 {
        0
    } else if i == 2 {
        0
    } else if i == 3 {
        0
    } else if i == 4 {
        0
    } else if i == 5 {
        0
    } else if i == 6 {
        0
    } else if i == 7 {
        0
    } else if i == 8 {
        5
    } else if i == 9 {
        10
    } else if i == 10 {
        15
    } else if i == 11 {
        20
    } else if i == 12 {
        20
    } else if i == 13 {
        15
    } else if i == 14 {
        10
    } else if i == 15 {
        5
    } else if i == 16 {
        4
    } else if i == 17 {
        8
    } else if i == 18 {
        12
    } else if i == 19 {
        16
    } else if i == 20 {
        16
    } else if i == 21 {
        12
    } else if i == 22 {
        8
    } else if i == 23 {
        4
    } else if i == 24 {
        3
    } else if i == 25 {
        6
    } else if i == 26 {
        9
    } else if i == 27 {
        12
    } else if i == 28 {
        12
    } else if i == 29 {
        9
    } else if i == 30 {
        6
    } else if i == 31 {
        3
    } else if i == 32 {
        2
    } else if i == 33 {
        4
    } else if i == 34 {
        6
    } else if i == 35 {
        8
    } else if i == 36 {
        8
    } else if i == 37 {
        6
    } else if i == 38 {
        4
    } else if i == 39 {
        2
    } else if i == 40 {
        1
    } else if i == 41 {
        2
    } else if i == 42 {
        3
    } else if i == 43 {
        -10
    } else if i == 44 {
        -10
    } else if i == 45 {
        3
    } else if i == 46 {
        2
    } else if i == 47 {
        1
    } else if i == 48 {
        0
    } else if i == 49 {
        0
    } else if i == 50 {
        0
    } else if i == 51 {
        -40
    } else if i == 52 {
        -40
    } else if i == 53 {
        0
    } else if i == 54 {
        0
    } else if i == 55 {
        0
    } else if i == 56 {
        0
    } else if i == 57 {
        0
    } else if i == 58 {
        0
    } else if i == 59 {
        0
    } else if i == 60 {
        0
    } else if i == 61 {
        0
    } else if i == 62 {
        0
    } else     {
        0
    }
}

/// The `PAWN_PCSQ` piece-square table.
pub fn pawn_pcsq(i: usize) -> (r: i64)
    ensures
        r == spec_pawn_pcsq(i as int),
{
    if i == 0 {
        0
    } else if i == 1 {
        0
    } else if i == 2 {
        0
    } else if i == 3 {
        0
    } else if i == 4 {
        0
    } else if i == 5 {
        0
    } else if i == 6 {
        0
    } else if i == 7 {
        0
    } else if i == 8 {
        5
    } else if i == 9 {
        10
    } else if i == 10 {
        15
    } else if i == 11 {
        20
    } else if i == 12 {
        20
    } else if i == 13 {
        15
    } else if i == 14 {
        10
    } else if i == 15 {
        5
    } else if i == 16 {
        4
    } else if i == 17 {
        8
    } else if i == 18 {
        12
    } else if i == 19 {
        16
    } else if i == 20 {
        16
    } else if i == 21 {
        12
    } else if i == 22 {
        8
    } else if i == 23 {
        4
    } else if i == 24 {
        3
    } else if i == 25 {
        6
    } else if i == 26 {
        9
    } else if i == 27 {
        12
    } else if i == 28 {
        12
    } else if i == 29 {
        9
    } else if i == 30 {
        6
    } else if i == 31 {
        3
    } else if i == 32 {
        2
    } else if i == 33 {
        4
    } else if i == 34 {
        6
    } else if i == 35 {
        8
    } else if i == 36 {
        8
    } else if i == 37 {
        6
    } else if i == 38 {
        4
    } else if i == 39 {
        2
    } else if i == 40 {
        1
    } else if i == 41 {
        2
    } else if i == 42 {
        3
    } else if i == 43 {
        -10
    } else if i == 44 {
        -10
    } else if i == 45 {
        3
    } else if i == 46 {
        2
    } else if i == 47 {
        1
    } else if i == 48 {
        0
    } else if i == 49 {
        0
    } else if i == 50 {
        0
    } else if i == 51 {
        -40
    } else if i == 52 {
        -40
    } else if i == 53 {
        0
    } else if i == 54 {
        0
    } else if i == 55 {
        0
    } else if i == 56 {
        0
    } else if i == 57 {
        0
    } else if i == 58 {
        0
    } else if i == 59 {
        0
    } else if i == 60 {
        0
    } else if i == 61 {
        0
    } else if i == 62 {
        0
    } else     {
        0
    }
}

/// The `BISHOP_PCSQ` piece-square table.
pub open spec fn spec_bishop_pcsq(i: int) -> int {
    if i == 0 {
        -10
    } else if i == 1 {
        -10
    } else if i == 2 {
        -10
    } else if i == 3 {
        -10
    } else if i == 4 {
        -10
    } else if i == 5 {
        -10
    } else if i == 6 {
        -10
    } else if i == 7 {
        -10
    } else if i == 8 {
        -10
    } else if i == 9 {
        0
    } else if i == 10 {
        0
    } else if i == 11 {
        0
    } else if i == 12 {
        0
    } else if i == 13 {
        0
    } else if i == 14 {
        0
    } else if i == 15 {
        -10
    } else if i == 16 {
        -10
    } else if i == 17 {
        0
    } else if i == 18 {
        5
    } else if i == 19 {
        5
    } else if i == 20 {
        5
    } else if i == 21 {
        5
    } else if i == 22 {
        0
    } else if i == 23 {
        -10
    } else if i == 24 {
        -10
    } else if i == 25 {
        0
    } else if i == 26 {
        5
    } else if i == 27 {
        10
    } else if i == 28 {
        10
    } else if i == 29 {
        5
    } else if i == 30 {
        0
    } else if i == 31 {
        -10
    } else if i == 32 {
        -10
    } else if i == 33 {
        0
    } else if i == 34 {
        5
    } else if i == 35 {
        10
    } else if i == 36 {
        10
    } else if i == 37 {
        5
    } else if i == 38 {
        0
    } else if i == 39 {
        -10
    } else if i == 40 {
        -10
    } else if i == 41 {
        0
    } else if i == 42 {
        5
    } else if i == 43 {
        5
    } else if i == 44 {
        5
    } else if i == 45 {
        5
    } else if i == 46 {
        0
    } else if i == 47 {
        -10
    } else if i == 48 {
        -10
    } else if i == 49 {
        0
    } else if i == 50 {
        0
    } else if i == 51 {
        0
    } else if i == 52 {
        0
    } else if i == 53 {
        0
    } else if i == 54 {
        0
    } else if i == 55 {
        -10
    } else if i == 56 {
        -10
    } else if i == 57 {
        -10
    } else if i == 58 {
        -20
    } else if i == 59 {
        -10
    } else if i == 60 {
        -10
    } else if i == 61 {
        -20
    } else if i == 62 {
        -10
    } else     {
        -10
    }
}

/// The `BISHOP_PCSQ` piece-square table.
pub fn bishop_pcsq(i: usize) -> (r: i64)
    ensures
        r == spec_bishop_pcsq(i as int),
{
    if i == 0 {
        -10
    } else if i == 1 {
        -10
    } else if i == 2 {
        -10
    } else if i == 3 {
        -10
    } else if i == 4 {
        -10
    } else if i == 5 {
        -10
    } else if i == 6 {
        -10
    } else if i == 7 {
        -10
    } else if i == 8 {
        -10
    } else if i == 9 {
        0
    } else if i == 10 {
        0
    } else if i == 11 {
        0
    } else if i == 12 {
        0
    } else if i == 13 {
        0
    } else if i == 14 {
        0
    } else if i == 15 {
        -10
    } else if i == 16 {
        -10
    } else if i == 17 {
        0
    } else if i == 18 {
        5
    } else if i == 19 {
        5
    } else if i == 20 {
        5
    } else if i == 21 {
        5
    } else if i == 22 {
        0
    } else if i == 23 {
        -10
    } else if i == 24 {
        -10
    } else if i == 25 {
        0
    } else if i == 26 {
        5
    } else if i == 27 {
        10
    } else if i == 28 {
        10
    } else if i == 29 {
        5
    } else if i == 30 {
        0
    } else if i == 31 {
        -10
    } else if i == 32 {
        -10
    } else if i == 33 {
        0
    } else if i == 34 {
        5
    } else if i == 35 {
        10
    } else if i == 36 {
        10
    } else if i == 37 {
        5
    } else if i == 38 {
        0
    } else if i == 39 {
        -10
    } else if i == 40 {
        -10
    } else if i == 41 {
        0
    } else if i == 42 {
        5
    } else if i == 43 {
        5
    } else if i == 44 {
        5
    } else if i == 45 {
        5
    } else if i == 46 {
        0
    } else if i == 47 {
        -10
    } else if i == 48 {
        -10
    } else if i == 49 {
        0
    } else if i == 50 {
        0
    } else if i == 51 {
        0
    } else if i == 52 {
        0
    } else if i == 53 {
        0
    } else if i == 54 {
        0
    } else if i == 55 {
        -10
    } else if i == 56 {
        -10
    } else if i == 57 {
        -10
    } else if i == 58 {
        -20
    } else if i == 59 {
        -10
    } else if i == 60 {
        -10
    } else if i == 61 {
        -20
    } else if i == 62 {
        -10
    } else     {
        -10
    }
}

/// The `KNIGHT_PCSQ` piece-square table.
pub open spec fn spec_knight_pcsq(i: int) -> int {
    if i == 0 {
        -10
    } else if i == 1 {
        -10
    } else if i == 2 {
        -10
    } else if i == 3 {
        -10
    } else if i == 4 {
        -10
    } else if i == 5 {
        -10
    } else if i == 6 {
        -10
    } else if i == 7 {
        -10
    } else if i == 8 {
        -10
    } else if i == 9 {
        0
    } else if i == 10 {
        0
    } else if i == 11 {
        0
    } else if i == 12 {
        0
    } else if i == 13 {
        0
    } else if i == 14 {
        0
    } else if i == 15 {
        -10
    } else if i == 16 {
        -10
    } else if i == 17 {
        0
    } else if i == 18 {
        5
    } else if i == 19 {
        5
    } else if i == 20 {
        5
    } else if i == 21 {
        5
    } else if i == 22 {
        0
    } else if i == 23 {
        -10
    } else if i == 24 {
        -10
    } else if i == 25 {
        0
    } else if i == 26 {
        5
    } else if i == 27 {
        10
    } else if i == 28 {
        10
    } else if i == 29 {
        5
    } else if i == 30 {
        0
    } else if i == 31 {
        -10
    } else if i == 32 {
        -10
    } else if i == 33 {
        0
    } else if i == 34 {
        5
    } else if i == 35 {
        10
    } else if i == 36 {
        10
    } else if i == 37 {
        5
    } else if i == 38 {
        0
    } else if i == 39 {
        -10
    } else if i == 40 {
        -10
    } else if i == 41 {
        0
    } else if i == 42 {
        5
    } else if i == 43 {
        5
    } else if i == 44 {
        5
    } else if i == 45 {
        5
    } else if i == 46 {
        0
    } else if i == 47 {
        -10
    } else if i == 48 {
        -10
    } else if i == 49 {
        0
    } else if i == 50 {
        0
    } else if i == 51 {
        0
    } else if i == 52 {
        0
    } else if i == 53 {
        0
    } else if i == 54 {
        0
    } else if i == 55 {
        -10
    } else if i == 56 {
        -10
    } else if i == 57 {
        -30
    } else if i == 58 {
        -10
    } else if i == 59 {
        -10
    } else if i == 60 {
        -10
    } else if i == 61 {
        -10
    } else if i == 62 {
        -30
    } else     {
        -10
    }
}

/// The `KNIGHT_PCSQ` piece-square table.
pub fn knight_pcsq(i: usize) -> (r: i64)
    ensures
        r == spec_knight_pcsq(i as int),
{
    if i == 0 {
        -10
    } else if i == 1 {
        -10
    } else if i == 2 {
        -10
    } else if i == 3 {
        -10
    } else if i == 4 {
        -10
    } else if i == 5 {
        -10
    } else if i == 6 {
        -10
    } else if i == 7 {
        -10
    } else if i == 8 {
        -10
    } else if i == 9 {
        0
    } else if i == 10 {
        0
    } else if i == 11 {
        0
    } else if i == 12 {
        0
    } else if i == 13 {
        0
    } else if i == 14 {
        0
    } else if i == 15 {
        -10
    } else if i == 16 {
        -10
    } else if i == 17 {
        0
    } else if i == 18 {
        5
    } else if i == 19 {
        5
    } else if i == 20 {
        5
    } else if i == 21 {
        5
    } else if i == 22 {
        0
    } else if i == 23 {
        -10
    } else if i == 24 {
        -10
    } else if i == 25 {
        0
    } else if i == 26 {
        5
    } else if i == 27 {
        10
    } else if i == 28 {
        10
    } else if i == 29 {
        5
    } else if i == 30 {
        0
    } else if i == 31 {
        -10
    } else if i == 32 {
        -10
    } else if i == 33 {
        0
    } else if i == 34 {
        5
    } else if i == 35 {
        10
    } else if i == 36 {
        10
    } else if i == 37 {
        5
    } else if i == 38 {
        0
    } else if i == 39 {
        -10
    } else if i == 40 {
        -10
    } else if i == 41 {
        0
    } else if i == 42 {
        5
    } else if i == 43 {
        5
    } else if i == 44 {
        5
    } else if i == 45 {
        5
    } else if i == 46 {
        0
    } else if i == 47 {
        -10
    } else if i == 48 {
        -10
    } else if i == 49 {
        0
    } else if i == 50 {
        0
    } else if i == 51 {
        0
    } else if i == 52 {
        0
    } else if i == 53 {
        0
    } else if i == 54 {
        0
    } else if i == 55 {
        -10
    } else if i == 56 {
        -10
    } else if i == 57 {
        -30
    } else if i == 58 {
        -10
    } else if i == 59 {
        -10
    } else if i == 60 {
        -10
    } else if i == 61 {
        -10
    } else if i == 62 {
        -30
    } else     {
        -10
    }
}

} // verus!
