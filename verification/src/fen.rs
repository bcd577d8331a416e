//! Forsyth-Edwards notation: parsing a position description.
//!
//! A FEN string holds whitespace-separated fields: piece placement, side
//! to move, castling rights, en-passant square, and half-move clock (a
//! trailing move number is ignored). `fen_result` is the mathematical
//! parse; `from_fen` is proved to return exactly its outcome, with the
//! exact error text for each failure.

use vstd::prelude::*;
use crate::defs::{EMPTY, PAWN, BISHOP, KNIGHT, ROOK, QUEEN, KING, WHITE, BLACK, pack_state,
    state_wf};
use crate::game::Game;
use crate::square::{sq_on_board, m8, spec_algebraic_to_pos};

verus! {

/// Whitespace separating FEN fields.
pub open spec fn is_ws(c: char) -> bool {
    c == ' ' || c == '\t' || c == '\n' || c == '\r'
}

/// The first index at or after `i` holding a non-whitespace character.
pub open spec fn skip_ws(s: Seq<char>, i: int) -> int
    decreases s.len() - i when 0 <= i <= s.len()
{
    if i >= s.len() || !is_ws(s[i]) {
        i
    } else {
        skip_ws(s, i + 1)
    }
}

/// The first index at or after `i` holding whitespace, or the end.
pub open spec fn tok_end(s: Seq<char>, i: int) -> int
    decreases s.len() - i when 0 <= i <= s.len()
{
    if i >= s.len() || is_ws(s[i]) {
        i
    } else {
        tok_end(s, i + 1)
    }
}

pub proof fn lemma_skip_ws(s: Seq<char>, i: int)
    requires
        0 <= i <= s.len(),
    ensures
        i <= skip_ws(s, i) <= s.len(),
        skip_ws(s, i) < s.len() ==> !is_ws(s[skip_ws(s, i)]),
        forall|j: int| i <= j < skip_ws(s, i) ==> is_ws(s[j]),
    decreases s.len() - i,
{
    if !(i >= s.len() || !is_ws(s[i])) {
        lemma_skip_ws(s, i + 1);
    }
}

pub proof fn lemma_tok_end(s: Seq<char>, i: int)
    requires
        0 <= i <= s.len(),
    ensures
        i <= tok_end(s, i) <= s.len(),
        tok_end(s, i) < s.len() ==> is_ws(s[tok_end(s, i)]),
        forall|j: int| i <= j < tok_end(s, i) ==> !is_ws(s[j]),
    decreases s.len() - i,
{
    if !(i >= s.len() || is_ws(s[i])) {
        lemma_tok_end(s, i + 1);
    }
}

/// The piece code a placement character denotes, or 0.
pub open spec fn piece_of_char(c: char) -> u8 {
    if c == 'P' {
        (WHITE + PAWN) as u8
    } else if c == 'B' {
        (WHITE + BISHOP) as u8
    } else if c == 'N' {
        (WHITE + KNIGHT) as u8
    } else if c == 'R' {
        (WHITE + ROOK) as u8
    } else if c == 'Q' {
        (WHITE + QUEEN) as u8
    } else if c == 'K' {
        (WHITE + KING) as u8
    } else if c == 'p' {
        (BLACK + PAWN) as u8
    } else if c == 'b' {
        (BLACK + BISHOP) as u8
    } else if c == 'n' {
        (BLACK + KNIGHT) as u8
    } else if c == 'r' {
        (BLACK + ROOK) as u8
    } else if c == 'q' {
        (BLACK + QUEEN) as u8
    } else if c == 'k' {
        (BLACK + KING) as u8
    } else {
        0
    }
}

/// Runs the placement field over the board from square `pos` on: digits
/// skip squares, `/` is ignored, piece letters place pieces in rank-major
/// order. `None` on any other character, or when a piece would land past
/// the 64th square. The square index saturates at 65, which preserves
/// every comparison the parse makes.
pub open spec fn place(t: Seq<char>, k: int, b: Seq<u8>, pos: int) -> Option<Seq<u8>>
    decreases t.len() - k when 0 <= k <= t.len()
{
    if k >= t.len() {
        Some(b)
    } else if t[k] == '/' {
        place(t, k + 1, b, pos)
    } else if '0' <= t[k] <= '9' {
        let d = t[k] as int - '0' as int;
        place(t, k + 1, b, if pos + d > 64 { 65 } else { pos + d })
    } else if piece_of_char(t[k]) != 0 {
        if pos >= 64 {
            None
        } else {
            place(t, k + 1, b.update(m8(pos), piece_of_char(t[k])), pos + 1)
        }
    } else {
        None
    }
}

/// The side to move a side field denotes, or 0.
pub open spec fn side_of_token(t: Seq<char>) -> u8 {
    if t =~= seq!['w'] || t =~= seq!['W'] {
        WHITE
    } else if t =~= seq!['b'] || t =~= seq!['B'] {
        BLACK
    } else {
        0
    }
}

/// Runs the castling field: `K Q k q` set rights, `-` is skipped.
/// `None` on any other character.
pub open spec fn castling_of_token(t: Seq<char>, k: int, acc: u32) -> Option<u32>
    decreases t.len() - k when 0 <= k <= t.len() && acc < 16
{
    if k >= t.len() {
        Some(acc)
    } else if t[k] == 'K' {
        castling_of_token(t, k + 1, if acc / 1 % 2 == 0 { (acc + 1) as u32 } else { acc })
    } else if t[k] == 'Q' {
        castling_of_token(t, k + 1, if acc / 2 % 2 == 0 { (acc + 2) as u32 } else { acc })
    } else if t[k] == 'k' {
        castling_of_token(t, k + 1, if acc / 4 % 2 == 0 { (acc + 4) as u32 } else { acc })
    } else if t[k] == 'q' {
        castling_of_token(t, k + 1, if acc / 8 % 2 == 0 { (acc + 8) as u32 } else { acc })
    } else if t[k] == '-' {
        castling_of_token(t, k + 1, acc)
    } else {
        None
    }
}

/// The en-passant field: `-` denotes no cell, a square name denotes its
/// 10x12 cell. `None` on anything else.
pub open spec fn ep_of_token(t: Seq<char>) -> Option<u32> {
    if t =~= seq!['-'] {
        Some(0)
    } else {
        match spec_algebraic_to_pos(t) {
            Some(p) => Some(m8(p) as u32),
            None => None,
        }
    }
}

/// The digits of the clock field folded into a value that saturates at
/// 1000 — every comparison the parse makes is below that. `None` on a
/// non-digit.
pub open spec fn clock_digits(t: Seq<char>, k: int, acc: u32) -> Option<u32>
    decreases t.len() - k when 0 <= k <= t.len() && acc <= 1000
{
    if k >= t.len() {
        Some(acc)
    } else if '0' <= t[k] <= '9' {
        let d = (t[k] as int - '0' as int) as u32;
        clock_digits(t, k + 1, if acc >= 100 { 1000 } else { (acc * 10 + d) as u32 })
    } else {
        None
    }
}

/// The half-move clock field: an optional `+` sign followed by at least
/// one digit, as `usize` parsing accepts it.
pub open spec fn clock_of_token(t: Seq<char>) -> Option<u32> {
    if t.len() > 0 && t[0] == '+' {
        if t.len() == 1 {
            None
        } else {
            clock_digits(t.skip(1), 0, 0)
        }
    } else if t.len() == 0 {
        None
    } else {
        clock_digits(t, 0, 0)
    }
}

/// The first board cell at or after `i` holding the piece `target`, or
/// 120 if none does.
pub open spec fn first_cell(b: Seq<u8>, target: u8, i: int) -> int
    decreases 120 - i when 0 <= i <= 120
{
    if i >= 120 {
        120
    } else if b[i] == target {
        i
    } else {
        first_cell(b, target, i + 1)
    }
}

/// The fields a well-formed FEN string denotes.
pub struct FenFields {
    /// The 10x12 board.
    pub board: Seq<u8>,
    /// The side to move.
    pub side: u8,
    /// The castling-rights mask.
    pub castling: u32,
    /// The en-passant cell, 0 if none.
    pub ep: u32,
    /// The half-move clock.
    pub clock: u32,
    /// The cell of the first white king found.
    pub king_white: int,
    /// The cell of the first black king found.
    pub king_black: int,
}

/// The board every parse starts from: empty on the real squares,
/// sentinels elsewhere.
pub open spec fn empty_board() -> Seq<u8> {
    Seq::new(120, |i: int| if sq_on_board(i) { EMPTY } else { crate::defs::OFF_BOARD })
}

/// The mathematical FEN parse: the fields denoted by the string, or the
/// exact error text. Fields after the side may be absent; a missing
/// castling field means no rights, a missing en-passant field means none,
/// a missing clock means zero. A clock of 100 or more is rejected.
pub open spec fn fen_result(s: Seq<char>) -> Result<FenFields, Seq<char>> {
    let i0 = skip_ws(s, 0);
    if i0 >= s.len() {
        Err("Empty FEN"@)
    } else {
        let e0 = tok_end(s, i0);
        match place(s.subrange(i0, e0), 0, empty_board(), 0) {
            None => Err("Illegal FEN character"@),
            Some(board) => {
                let i1 = skip_ws(s, e0);
                if i1 >= s.len() {
                    Err("Missing side"@)
                } else {
                    let e1 = tok_end(s, i1);
                    if side_of_token(s.subrange(i1, e1)) == 0 {
                        Err("Illegal side string"@)
                    } else {
                        let side = side_of_token(s.subrange(i1, e1));
                        let i2 = skip_ws(s, e1);
                        let e2 = tok_end(s, i2);
                        let castling = if i2 >= s.len() {
                            Some(0u32)
                        } else {
                            castling_of_token(s.subrange(i2, e2), 0, 0)
                        };
                        match castling {
                            None => Err("Illegal castling character"@),
                            Some(castling) => {
                                let i3 = skip_ws(s, e2);
                                let e3 = tok_end(s, i3);
                                let ep = if i3 >= s.len() {
                                    Some(0u32)
                                } else {
                                    ep_of_token(s.subrange(i3, e3))
                                };
                                match ep {
                                    None => Err("Illegal en passant string"@),
                                    Some(ep) => {
                                        let i4 = skip_ws(s, e3);
                                        let e4 = tok_end(s, i4);
                                        let clock = if i4 >= s.len() {
                                            Some(0u32)
                                        } else {
                                            clock_of_token(s.subrange(i4, e4))
                                        };
                                        match clock {
                                            None => Err("Illegal ply format"@),
                                            Some(clock) => {
                                                if clock >= 100 {
                                                    Err("Illegal ply value"@)
                                                } else if first_cell(
                                                    board,
                                                    (WHITE + KING) as u8,
                                                    0,
                                                ) == 120 {
                                                    Err("No white king"@)
                                                } else if first_cell(
                                                    board,
                                                    (BLACK + KING) as u8,
                                                    0,
                                                ) == 120 {
                                                    Err("No black king"@)
                                                } else {
                                                    Ok(
                                                        FenFields {
                                                            board,
                                                            side,
                                                            castling,
                                                            ep,
                                                            clock,
                                                            king_white: first_cell(
                                                                board,
                                                                (WHITE + KING) as u8,
                                                                0,
                                                            ),
                                                            king_black: first_cell(
                                                                board,
                                                                (BLACK + KING) as u8,
                                                                0,
                                                            ),
                                                        },
                                                    )
                                                }
                                            },
                                        }
                                    },
                                }
                            },
                        }
                    }
                }
            },
        }
    }
}

/// Advances past whitespace.
fn skip_ws_exec(s: &str, n: usize, start: usize) -> (r: usize)
    requires
        n == s@.len(),
        start <= n,
    ensures
        r == skip_ws(s@, start as int),
        start <= r <= n,
{
    proof {
        lemma_skip_ws(s@, start as int);
    }
    let mut i = start;
    loop
        invariant
            n == s@.len(),
            start <= i <= n,
            skip_ws(s@, start as int) == skip_ws(s@, i as int),
        decreases n - i,
    {
        if i >= n {
            return i;
        }
        let c = s.get_char(i);
        if !(c == ' ' || c == '\t' || c == '\n' || c == '\r') {
            return i;
        }
        i += 1;
    }
}

/// Advances to the end of the current field.
fn tok_end_exec(s: &str, n: usize, start: usize) -> (r: usize)
    requires
        n == s@.len(),
        start <= n,
    ensures
        r == tok_end(s@, start as int),
        start <= r <= n,
{
    proof {
        lemma_tok_end(s@, start as int);
    }
    let mut i = start;
    loop
        invariant
            n == s@.len(),
            start <= i <= n,
            tok_end(s@, start as int) == tok_end(s@, i as int),
        decreases n - i,
    {
        if i >= n {
            return i;
        }
        let c = s.get_char(i);
        if c == ' ' || c == '\t' || c == '\n' || c == '\r' {
            return i;
        }
        i += 1;
    }
}

/// The piece code a placement character denotes, or 0.
fn piece_char_exec(c: char) -> (r: u8)
    ensures
        r == piece_of_char(c),
{
    if c == 'P' {
        WHITE + PAWN
    } else if c == 'B' {
        WHITE + BISHOP
    } else if c == 'N' {
        WHITE + KNIGHT
    } else if c == 'R' {
        WHITE + ROOK
    } else if c == 'Q' {
        WHITE + QUEEN
    } else if c == 'K' {
        WHITE + KING
    } else if c == 'p' {
        BLACK + PAWN
    } else if c == 'b' {
        BLACK + BISHOP
    } else if c == 'n' {
        BLACK + KNIGHT
    } else if c == 'r' {
        BLACK + ROOK
    } else if c == 'q' {
        BLACK + QUEEN
    } else if c == 'k' {
        BLACK + KING
    } else {
        0
    }
}

impl Game {
    /// Parses a FEN string into a position: placement, side, castling,
    /// en-passant square and half-move clock, with the move number (and
    /// anything after it) ignored. Returns exactly what the mathematical
    /// parse `fen_result` denotes — the position with its hash set, or
    /// the error naming the first offending field. When the placement
    /// holds exactly one king of each color, the position is well-formed.
    #[verifier::rlimit(100)]
    #[verifier::loop_isolation(false)]
    pub fn from_fen(fen: &str) -> (r: Result<Game, &'static str>)
        ensures
            r is Ok <==> fen_result(fen@) is Ok,
            (r matches Ok(g) ==> (fen_result(fen@) matches Ok(f) && {
                &&& g.board@ == f.board
                &&& g.state == pack_state(f.clock, f.ep, f.castling, f.side as u32)
                &&& g.king_white == f.king_white
                &&& g.king_black == f.king_black
                &&& g.history@.len() == 0
                &&& crate::attack::board_wf(g.board@)
                &&& state_wf(g.state)
                &&& g.tables_wf()
                &&& g.hash == g.spec_hash()
                &&& (kings_unique(g.board@) ==> g.wf())
            })),
            (r matches Err(e) ==> (fen_result(fen@) matches Err(t) && e@ == t)),
    {
        let ghost s = fen@;
        let n = fen.unicode_len();
        let mut game = Game::new();
        proof {
            assert(game.board@ =~= empty_board());
        }
        let i0 = skip_ws_exec(fen, n, 0);
        if i0 >= n {
            proof {
                assert(fen_result(s) == Err::<FenFields, Seq<char>>("Empty FEN"@));
            }
            return Err("Empty FEN");
        }
        let e0 = tok_end_exec(fen, n, i0);
        let ghost t0 = s.subrange(i0 as int, e0 as int);
        let mut pos: usize = 0;
        let mut k = i0;
        while k < e0
            invariant
                i0 <= k <= e0,
                pos <= 65,
                crate::attack::board_wf(game.board@),
                game.state == 0,
                game.history@.len() == 0,
                game.tables_wf(),
                place(t0, 0, empty_board(), 0) == place(t0, k - i0, game.board@, pos as int),
            decreases e0 - k,
        {
            let c = fen.get_char(k);
            proof {
                assert(t0[k - i0] == s[k as int]);
            }
            if c == '/' {
                k += 1;
            } else if '0' <= c && c <= '9' {
                let d = (c as usize) - ('0' as usize);
                pos = if pos + d > 64 {
                    65
                } else {
                    pos + d
                };
                k += 1;
            } else {
                let p = piece_char_exec(c);
                if p == 0 {
                    return Err("Illegal FEN character");
                }
                if pos >= 64 {
                    return Err("Illegal FEN character");
                }
                let cell = crate::square::map8x8(pos);
                game.board[cell] = p;
                pos += 1;
                k += 1;
            }
        }
        let ghost parsed_board = game.board@;
        proof {
            assert(place(t0, 0, empty_board(), 0) == Some(parsed_board));
        }
        let i1 = skip_ws_exec(fen, n, e0);
        if i1 >= n {
            return Err("Missing side");
        }
        let e1 = tok_end_exec(fen, n, i1);
        let ghost t1 = s.subrange(i1 as int, e1 as int);
        let c = fen.get_char(i1);
        let side: u8 = if e1 - i1 == 1 && (c == 'w' || c == 'W') {
            proof {
                assert(t1 =~= seq![s[i1 as int]]);
            }
            WHITE
        } else if e1 - i1 == 1 && (c == 'b' || c == 'B') {
            proof {
                assert(t1 =~= seq![s[i1 as int]]);
            }
            BLACK
        } else {
            proof {
                assert(side_of_token(t1) == 0) by {
                    if t1 =~= seq!['w'] || t1 =~= seq!['W'] || t1 =~= seq!['b'] || t1
                        =~= seq!['B'] {
                        assert(e1 - i1 == 1 && t1[0] == s[i1 as int]);
                    }
                }
            }
            return Err("Illegal side string");
        };
        let i2 = skip_ws_exec(fen, n, e1);
        let e2 = tok_end_exec(fen, n, i2);
        let ghost t2 = s.subrange(i2 as int, e2 as int);
        let mut castling: u32 = 0;
        if i2 < n {
            let mut k = i2;
            while k < e2
                invariant
                    i2 <= k <= e2,
                    castling < 16,
                    castling_of_token(t2, 0, 0) == castling_of_token(t2, k - i2, castling),
                decreases e2 - k,
            {
                let c = fen.get_char(k);
                proof {
                    assert(t2[k - i2] == s[k as int]);
                }
                if c == 'K' {
                    if castling / 1 % 2 == 0 {
                        castling = castling + 1;
                    }
                } else if c == 'Q' {
                    if castling / 2 % 2 == 0 {
                        castling = castling + 2;
                    }
                } else if c == 'k' {
                    if castling / 4 % 2 == 0 {
                        castling = castling + 4;
                    }
                } else if c == 'q' {
                    if castling / 8 % 2 == 0 {
                        castling = castling + 8;
                    }
                } else if c == '-' {
                } else {
                    return Err("Illegal castling character");
                }
                k += 1;
            }
        }
        let i3 = skip_ws_exec(fen, n, e2);
        let e3 = tok_end_exec(fen, n, i3);
        let ghost t3 = s.subrange(i3 as int, e3 as int);
        let mut ep: u32 = 0;
        if i3 < n {
            let c = fen.get_char(i3);
            if e3 - i3 == 1 && c == '-' {
                proof {
                    assert(t3 =~= seq!['-']);
                }
            } else {
                proof {
                    assert(!(t3 =~= seq!['-'])) by {
                        if t3 =~= seq!['-'] {
                            assert(e3 - i3 == 1 && t3[0] == s[i3 as int]);
                        }
                    }
                }
                let tok = fen.substring_char(i3, e3);
                match crate::square::algebraic_to_pos(tok) {
                    Some(p) => {
                        proof {
                            crate::square::lemma_m8_on_board(p as int);
                        }
                        ep = crate::square::map8x8(p) as u32;
                    },
                    None => {
                        return Err("Illegal en passant string");
                    },
                }
            }
        }
        let i4 = skip_ws_exec(fen, n, e3);
        let e4 = tok_end_exec(fen, n, i4);
        let ghost t4 = s.subrange(i4 as int, e4 as int);
        let mut clock: u32 = 0;
        if i4 < n {
            let c = fen.get_char(i4);
            let mut k = i4;
            let ghost td: Seq<char> = if s[i4 as int] == '+' {
                t4.skip(1)
            } else {
                t4
            };
            proof {
                lemma_skip_ws(s, e3 as int);
                lemma_tok_end(s, i4 + 1);
                assert(e4 > i4);
            }
            if c == '+' {
                if e4 - i4 == 1 {
                    return Err("Illegal ply format");
                }
                k = i4 + 1;
                proof {
                    assert(td =~= s.subrange(i4 + 1, e4 as int));
                }
            }
            let ghost kd0 = k;
            while k < e4
                invariant
                    kd0 <= k <= e4,
                    td =~= s.subrange(kd0 as int, e4 as int),
                    clock <= 1000,
                    clock_digits(td, 0, 0) == clock_digits(td, k - kd0, clock),
                decreases e4 - k,
            {
                let c = fen.get_char(k);
                proof {
                    assert(td[k - kd0] == s[k as int]);
                }
                if '0' <= c && c <= '9' {
                    let d = (c as u32) - ('0' as u32);
                    clock = if clock >= 100 {
                        1000
                    } else {
                        clock * 10 + d
                    };
                    k += 1;
                } else {
                    return Err("Illegal ply format");
                }
            }
            if clock >= 100 {
                return Err("Illegal ply value");
            }
        }
        let mut kw: usize = 0;
        while kw < 120 && game.board[kw] != WHITE + KING
            invariant
                kw <= 120,
                first_cell(parsed_board, (WHITE + KING) as u8, 0) == first_cell(
                    parsed_board,
                    (WHITE + KING) as u8,
                    kw as int,
                ),
            decreases 120 - kw,
        {
            kw += 1;
        }
        if kw >= 120 {
            return Err("No white king");
        }
        let mut kb: usize = 0;
        while kb < 120 && game.board[kb] != BLACK + KING
            invariant
                kb <= 120,
                first_cell(parsed_board, (BLACK + KING) as u8, 0) == first_cell(
                    parsed_board,
                    (BLACK + KING) as u8,
                    kb as int,
                ),
            decreases 120 - kb,
        {
            kb += 1;
        }
        if kb >= 120 {
            return Err("No black king");
        }
        game.king_white = kw;
        game.king_black = kb;
        proof {
            assert(sq_on_board(kw as int)) by {
                assert(parsed_board[kw as int] != crate::defs::OFF_BOARD);
            }
            assert(sq_on_board(kb as int)) by {
                assert(parsed_board[kb as int] != crate::defs::OFF_BOARD);
            }
        }
        game.state = crate::defs::make_state(clock, ep, castling, side as u32);
        game.set_hash();
        proof {
            if kings_unique(game.board@) {
                assert(crate::game::kings_wf_on(game.board@, kw as int, kb as int));
            }
        }
        Ok(game)
    }
}

/// Exactly one king of each color stands on the board.
pub open spec fn kings_unique(b: Seq<u8>) -> bool {
    &&& (exists|i: int| sq_on_board(i) && b[i] == WHITE + KING)
    &&& (exists|i: int| sq_on_board(i) && b[i] == BLACK + KING)
    &&& (forall|i: int, j: int|
        sq_on_board(i) && sq_on_board(j) && #[trigger] b[i] == WHITE + KING && #[trigger] b[j]
            == WHITE + KING ==> i == j)
    &&& (forall|i: int, j: int|
        sq_on_board(i) && sq_on_board(j) && #[trigger] b[i] == BLACK + KING && #[trigger] b[j]
            == BLACK + KING ==> i == j)
}

} // verus!
