//! Iterative-deepening alpha-beta search with principal variation,
//! quiescence, history-based move ordering, and draw detection.
//!
//! The search mutates one position in place down the recursion and is
//! proved to restore it exactly on the way out. Scores stay within the
//! mate window. Soundness of the scores themselves is anchored by the
//! move-ordering and evaluation contracts and by perft-style testing.

use vstd::prelude::*;
use vstd::assert_multisets_equal;
use std::time::Instant;
use crate::defs::{EMPTY, WHITE, BLACK, kind_of};
use crate::game::Game;
use crate::movegen::emits;
use crate::moves::{Move, MoveTrait, mv_from, mv_to, mv_prom, mv_core, mv_score, pack_scored,
    lemma_pack_scored, lemma_core_fields, DUMMY_MOVE};
use crate::square::{sq_on_board, rev8x8, r8};

verus! {

pub const MAX_DEPTH: usize = 32;

pub const MATE_VALUE: i64 = 100000;

/// The sort key move ordering assigns: the principal-variation move
/// first, then captures by most-valuable-victim least-valuable-attacker,
/// then quiet moves by their history-heuristic score.
pub open spec fn spec_move_score(b: Seq<u8>, m: Move, cutoff: Seq<u32>, top: Move) -> u64 {
    if mv_core(m) == mv_core(top) {
        1000000000
    } else {
        let captured = kind_of(b[mv_to(m) as int]);
        if captured != 0 {
            (1000000 + captured * 10 - kind_of(b[mv_from(m) as int])) as u64
        } else {
            cutoff[r8(mv_from(m) as int) * 64 + r8(mv_to(m) as int)] as u64
        }
    }
}

impl Game {
    /// Writes each move's sort key into its high 32 bits: the
    /// principal-variation move ranks first, then captures by victim
    /// value less attacker value, then quiet moves by history score. The
    /// low 32 bits — the moves proper — are unchanged.
    #[verifier::loop_isolation(false)]
    pub fn score_moves(&self, move_list: &mut Vec<Move>, cutoff_moves: &Vec<u32>, top_move: Move)
        requires
            self.board@.len() == 120,
            cutoff_moves@.len() == 4096,
            forall|k: int|
                0 <= k < old(move_list)@.len() ==> sq_on_board(
                    mv_from(#[trigger] old(move_list)@[k]) as int,
                ) && sq_on_board(mv_to(old(move_list)@[k]) as int),
        ensures
            final(move_list)@.len() == old(move_list)@.len(),
            forall|k: int|
                0 <= k < final(move_list)@.len() ==> mv_core(#[trigger] final(move_list)@[k])
                    == mv_core(old(move_list)@[k]) && mv_score(final(move_list)@[k])
                    == spec_move_score(self.board@, old(move_list)@[k], cutoff_moves@, top_move),
    {
        let tm = top_move % 0x100000000;
        let len = move_list.len();
        let mut k: usize = 0;
        while k < len
            invariant
                len == move_list@.len(),
                k <= len,
                cutoff_moves@.len() == 4096,
                self.board@.len() == 120,
                forall|j: int|
                    0 <= j < len ==> sq_on_board(mv_from(#[trigger] old(move_list)@[j]) as int)
                        && sq_on_board(mv_to(old(move_list)@[j]) as int),
                forall|j: int| k <= j < len ==> #[trigger] move_list@[j] == old(move_list)@[j],
                forall|j: int|
                    0 <= j < k ==> mv_core(#[trigger] move_list@[j]) == mv_core(old(move_list)@[j])
                        && mv_score(move_list@[j]) == spec_move_score(
                        self.board@,
                        old(move_list)@[j],
                        cutoff_moves@,
                        top_move,
                    ),
            decreases len - k,
        {
            let mv = move_list[k];
            let m = mv % 0x100000000;
            proof {
                lemma_core_fields(mv);
                lemma_core_fields(top_move);
            }
            let ghost sms = spec_move_score(self.board@, old(move_list)@[k as int], cutoff_moves@,
                top_move);
            let score: u64 = if m == tm {
                proof {
                    assert(sms == 1000000000);
                }
                1000000000
            } else {
                let from = (m % 0x100) as usize;
                let to = (m / 0x100 % 0x100) as usize;
                proof {
                    crate::square::lemma_r8_on_board(mv_from(mv) as int);
                    crate::square::lemma_r8_on_board(mv_to(mv) as int);
                    assert(from == mv_from(mv) && to == mv_to(mv));
                }
                let captured = crate::defs::piece_kind(self.board[to]);
                if captured != EMPTY {
                    let piece = crate::defs::piece_kind(self.board[from]);
                    proof {
                        assert(sms == 1000000 + kind_of(self.board@[to as int]) * 10 - kind_of(
                            self.board@[from as int],
                        ));
                    }
                    1000000u64 + (captured as u64) * 10 - (piece as u64)
                } else {
                    proof {
                        assert(sms == cutoff_moves@[r8(from as int) * 64 + r8(to as int)] as u64);
                    }
                    cutoff_moves[rev8x8(from) * 64 + rev8x8(to)] as u64
                }
            };
            proof {
                lemma_pack_scored(score, m);
                assert(score == sms);
            }
            move_list[k] = score * 0x100000000 + m;
            k += 1;
        }
    }
}

/// Swapping two adjacent elements keeps a sequence's multiset.
proof fn lemma_adjacent_swap_multiset(s: Seq<u64>, j: int)
    requires
        1 <= j < s.len(),
    ensures
        s.update(j - 1, s[j]).update(j, s[j - 1]).to_multiset() == s.to_multiset(),
{
    let s2 = s.update(j - 1, s[j]).update(j, s[j - 1]);
    let pre = s.take(j - 1);
    let mid = seq![s[j - 1], s[j]];
    let mid2 = seq![s[j], s[j - 1]];
    let post = s.skip(j + 1);
    assert(s =~= pre + mid + post);
    assert(s2 =~= pre + mid2 + post);
    vstd::seq_lib::lemma_multiset_commutative(pre + mid, post);
    vstd::seq_lib::lemma_multiset_commutative(pre, mid);
    vstd::seq_lib::lemma_multiset_commutative(pre + mid2, post);
    vstd::seq_lib::lemma_multiset_commutative(pre, mid2);
    assert(mid.to_multiset() == mid2.to_multiset()) by {
        assert(mid =~= seq![s[j - 1]].push(s[j]));
        assert(mid2 =~= seq![s[j]].push(s[j - 1]));
        assert(seq![s[j - 1]] =~= Seq::empty().push(s[j - 1]));
        assert(seq![s[j]] =~= Seq::empty().push(s[j]));
        broadcast use vstd::seq_lib::group_to_multiset_ensures;

        assert_multisets_equal!(mid.to_multiset(), mid2.to_multiset());
    }
}

/// Sorts a scored move list by sort key, highest first. The result is a
/// permutation of the input: same multiset of entries.
#[verifier::loop_isolation(false)]
pub fn sort_moves(list: &mut Vec<Move>)
    ensures
        final(list)@.len() == old(list)@.len(),
        final(list)@.to_multiset() == old(list)@.to_multiset(),
        forall|a: int, b: int|
            0 <= a < b < final(list)@.len() ==> mv_score(#[trigger] final(list)@[a]) >= mv_score(
                #[trigger] final(list)@[b],
            ),
        forall|k: int| 0 <= k < final(list)@.len() ==> old(list)@.contains(#[trigger] final(list)@[k]),
        forall|k: int| 0 <= k < old(list)@.len() ==> final(list)@.contains(#[trigger] old(list)@[k]),
{
    let len = list.len();
    let mut i: usize = 1;
    while i < len || len == 0
        invariant
            len == list@.len(),
            len > 0 ==> 1 <= i <= len,
            list@.to_multiset() == old(list)@.to_multiset(),
            forall|a: int, b: int|
                0 <= a < b < i ==> mv_score(#[trigger] list@[a]) >= mv_score(#[trigger] list@[b]),
        decreases len - i,
    {
        if len == 0 {
            break ;
        }
        let mut j = i;
        while j > 0 && list[j - 1] / 0x100000000 < list[j] / 0x100000000
            invariant
                0 < i < len,
                0 <= j <= i,
                len == list@.len(),
                list@.to_multiset() == old(list)@.to_multiset(),
                forall|a: int, b: int|
                    0 <= a < b <= i && b != j ==> mv_score(#[trigger] list@[a]) >= mv_score(
                        #[trigger] list@[b],
                    ),
                forall|a: int|
                    j < a <= i ==> mv_score(#[trigger] list@[a]) < mv_score(list@[j as int]),
            decreases j,
        {
            let hi = list[j - 1];
            let lo = list[j];
            proof {
                lemma_adjacent_swap_multiset(list@, j as int);
            }
            list[j - 1] = lo;
            list[j] = hi;
            j -= 1;
        }
        i += 1;
    }
    proof {
        broadcast use vstd::seq_lib::group_to_multiset_ensures;

        assert forall|k: int| 0 <= k < list@.len() implies old(list)@.contains(
            #[trigger] list@[k],
        ) by {
            assert(list@.contains(list@[k]));
            assert(list@.to_multiset().count(list@[k]) > 0);
        }
        assert forall|k: int| 0 <= k < old(list)@.len() implies list@.contains(
            #[trigger] old(list)@[k],
        ) by {
            assert(old(list)@.contains(old(list)@[k]));
            assert(old(list)@.to_multiset().count(old(list)@[k]) > 0);
        }
    }
}

/// A sink for search progress: invoked at the root each time the best
/// line improves, with the depth, score, mate distance, node count,
/// elapsed time and principal variation. Implementations belong to the
/// protocol adapter; nothing is assumed of them.
pub trait ThinkInfo {
    /// Reports one root-level improvement.
    fn think_info(
        &mut self,
        depth: usize,
        score: i64,
        mate_in: i64,
        node_count: usize,
        millis: u64,
        moves: &Vec<String>,
    );
}

/// A move whose squares are on the board and whose promotion field is
/// one a pawn may become: what rendering a move as text needs.
pub open spec fn renderable(m: Move) -> bool {
    &&& sq_on_board(mv_from(m) as int)
    &&& sq_on_board(mv_to(m) as int)
    &&& (mv_prom(m) == EMPTY as u64 || mv_prom(m) == crate::defs::BISHOP as u64 || mv_prom(m)
        == crate::defs::KNIGHT as u64 || mv_prom(m) == crate::defs::ROOK as u64 || mv_prom(m)
        == crate::defs::QUEEN as u64)
}

/// Every move of a line is renderable.
pub open spec fn line_ok(s: Seq<Move>) -> bool {
    forall|k: int| 0 <= k < s.len() ==> renderable(#[trigger] s[k])
}

/// A non-empty line starts with a legal move of the position: one that is
/// pseudo-legal, plausible, and that `make_move` accepts.
pub open spec fn line_rooted(g: &Game, s: Seq<Move>) -> bool {
    s.len() > 0 ==> g.move_plausible(s[0]) && g.move_succeeds(s[0]) && g.pseudo_legal(
        mv_core(s[0]),
    )
}

/// One search: node counter, wall-clock budget, principal-variation
/// storage, the cooperative stop flag, and the history-heuristic table.
pub struct Search {
    /// Nodes visited so far.
    pub nodes: usize,
    /// When the search started.
    pub start_time: Instant,
    /// The wall-clock budget in milliseconds.
    pub max_millis: u64,
    /// `pv[ply]` is the best line found from that ply.
    pub pv: Vec<Vec<Move>>,
    /// Set when the budget runs out; every frame then unwinds.
    pub stop_thinking: bool,
    /// The history heuristic: one counter per (from, to) square pair,
    /// accumulating the depths at which a quiet move raised alpha.
    pub cutoff_moves: Vec<u32>,
}

impl Search {
    /// Well-formed search state: a principal-variation slot per ply, each
    /// holding renderable moves, and a full history table.
    pub open spec fn wf(&self) -> bool {
        &&& self.pv@.len() == MAX_DEPTH + 1
        &&& (forall|d: int| 0 <= d < self.pv@.len() ==> line_ok(#[trigger] self.pv@[d]@))
        &&& self.cutoff_moves@.len() == 4096
    }

    /// A fresh search with the given time budget: no nodes, empty
    /// principal variations, a zeroed history table, and the clock
    /// started.
    pub fn new(max_millis: u64) -> (s: Search)
        ensures
            s.wf(),
            s.max_millis == max_millis,
            s.nodes == 0,
            !s.stop_thinking,
            forall|d: int| 0 <= d < s.pv@.len() ==> (#[trigger] s.pv@[d]@).len() == 0,
    {
        let mut pv: Vec<Vec<Move>> = Vec::with_capacity(MAX_DEPTH + 1);
        let mut d: usize = 0;
        while d < MAX_DEPTH + 1
            invariant
                d <= MAX_DEPTH + 1,
                pv@.len() == d,
                forall|k: int| 0 <= k < d ==> (#[trigger] pv@[k]@).len() == 0,
            decreases MAX_DEPTH + 1 - d,
        {
            pv.push(Vec::with_capacity(MAX_DEPTH + 1));
            d += 1;
        }
        let mut cutoff_moves: Vec<u32> = Vec::with_capacity(4096);
        let mut k: usize = 0;
        while k < 4096
            invariant
                k <= 4096,
                cutoff_moves@.len() == k,
            decreases 4096 - k,
        {
            cutoff_moves.push(0);
            k += 1;
        }
        Search {
            nodes: 0,
            start_time: crate::clock::now(),
            max_millis,
            pv,
            stop_thinking: false,
            cutoff_moves,
        }
    }

    /// Replaces `pv[ply]` with the move followed by the line at
    /// `pv[ply + 1]`.
    fn rebuild_pv(&mut self, ply: usize, mv: Move)
        requires
            old(self).wf(),
            ply + 1 < old(self).pv@.len(),
            renderable(mv),
        ensures
            final(self).wf(),
            final(self).nodes == old(self).nodes,
            final(self).max_millis == old(self).max_millis,
            final(self).stop_thinking == old(self).stop_thinking,
            final(self).cutoff_moves@ == old(self).cutoff_moves@,
            final(self).start_time == old(self).start_time,
            final(self).pv@.len() == old(self).pv@.len(),
            final(self).pv@[ply as int]@ == seq![mv] + old(self).pv@[ply as int + 1]@,
            forall|d: int|
                0 <= d < old(self).pv@.len() && d != ply ==> final(self).pv@[d] == #[trigger] old(
                    self,
                ).pv@[d],
    {
        let mut line: Vec<Move> = Vec::new();
        line.push(mv);
        let child_len = self.pv[ply + 1].len();
        let mut j: usize = 0;
        while j < child_len
            invariant
                self == old(self),
                j <= child_len,
                child_len == self.pv@[ply as int + 1]@.len(),
                ply < MAX_DEPTH,
                ply + 1 < self.pv@.len(),
                line@ == seq![mv] + self.pv@[ply as int + 1]@.take(j as int),
            decreases child_len - j,
        {
            let m = self.pv[ply + 1][j];
            line.push(m);
            proof {
                assert(line@ =~= seq![mv] + self.pv@[ply as int + 1]@.take(j as int + 1));
            }
            j += 1;
        }
        proof {
            assert(self.pv@[ply as int + 1]@.take(child_len as int) =~= self.pv@[ply as int
                + 1]@);
        }
        self.pv[ply] = line;
    }

    /// Quiescence search: extends only capturing lines. The static
    /// evaluation stands as a lower bound unless it already fails high;
    /// captures are tried in sorted order through the make/unmake gate.
    /// The position is restored exactly; unless the clock raised the stop
    /// flag, the result is fail-hard — `beta` when the stand-pat
    /// evaluation fails high, otherwise at least the evaluation and the
    /// given `alpha` and at most `beta` — the raw evaluation at the depth
    /// cap, and strictly inside the mate window.
    #[verifier::rlimit(100)]
    #[verifier::loop_isolation(false)]
    pub fn quiesce(&mut self, game: &mut Game, alpha: i64, beta: i64, ply: usize, follow_pv: bool)
        -> (r: i64)
        requires
            old(self).wf(),
            old(game).coherent(),
            ply < MAX_DEPTH,
            -MATE_VALUE <= alpha < beta <= MATE_VALUE,
        ensures
            final(self).wf(),
            final(game).same_as(old(game)),
            final(game).coherent(),
            -MATE_VALUE <= r <= MATE_VALUE,
            ply > 0 ==> final(self).pv@[0] == old(self).pv@[0],
            ply == 0 ==> final(self).pv@[0] == old(self).pv@[0] || line_rooted(
                old(game),
                final(self).pv@[0]@,
            ),
            !final(self).stop_thinking ==> -MATE_VALUE < r < MATE_VALUE,
            !final(self).stop_thinking && ply == MAX_DEPTH - 1 ==> r
                == crate::eval::spec_evaluate(old(game).board@, crate::defs::side_of(
                old(game).state,
            )),
            !final(self).stop_thinking && ply < MAX_DEPTH - 1 ==> ({
                let ev = crate::eval::spec_evaluate(old(game).board@, crate::defs::side_of(
                    old(game).state,
                ));
                &&& (ev >= beta ==> r == beta)
                &&& (ev < beta ==> alpha <= r && ev <= r && r <= beta)
            }),
        decreases MAX_DEPTH - ply,
    {
        if self.nodes != usize::MAX {
            self.nodes += 1;
        }
        if self.nodes % 1024 == 0 && crate::clock::millis_since(&self.start_time)
            >= self.max_millis {
            self.stop_thinking = true;
            return 0;
        }
        let mut score = game.evaluate();
        let ghost ev = score as int;
        let ghost alpha0 = alpha;
        let mut alpha = alpha;
        if ply == MAX_DEPTH - 1 {
            return score;
        }
        if score >= beta {
            return beta;
        }
        if score > alpha {
            alpha = score;
        }
        let mut moves = game.capture_moves();
        let mut follow_pv = follow_pv && ply < self.pv[0].len();
        let top = if follow_pv {
            self.pv[0][ply]
        } else {
            DUMMY_MOVE
        };
        proof {
            assert forall|k: int| 0 <= k < moves@.len() implies sq_on_board(
                mv_from(#[trigger] moves@[k]) as int,
            ) && sq_on_board(mv_to(moves@[k]) as int) by {}
        }
        let ghost before_score = moves@;
        game.score_moves(&mut moves, &self.cutoff_moves, top);
        proof {
            assert forall|k: int| 0 <= k < moves@.len() implies game.move_plausible(
                #[trigger] moves@[k],
            ) && emits(game.board@, game.state, mv_core(moves@[k]), true) by {
                lemma_core_fields(moves@[k]);
                lemma_core_fields(before_score[k]);
            }
        }
        let ghost scored = moves@;
        sort_moves(&mut moves);
        let ghost entry = *game;
        proof {
            assert forall|j: int| 0 <= j < moves@.len() implies game.move_plausible(
                #[trigger] moves@[j],
            ) && emits(game.board@, game.state, mv_core(moves@[j]), true) by {
                assert(scored.contains(moves@[j]));
                let i = choose|i: int| 0 <= i < scored.len() && scored[i] == moves@[j];
            }
        }
        let len = moves.len();
        let mut k: usize = 0;
        while k < len
            invariant
                self.wf(),
                game.same_as(&entry),
                game.coherent(),
                entry.same_as(old(game)),
                entry.coherent(),
                len == moves@.len(),
                k <= len,
                forall|j: int| 0 <= j < len ==> game.move_plausible(#[trigger] moves@[j]),
                forall|j: int|
                    0 <= j < len ==> emits(entry.board@, entry.state, mv_core(#[trigger] moves@[j]),
                        true),
                -MATE_VALUE <= alpha0 < beta <= MATE_VALUE,
                alpha0 <= alpha,
                ev <= alpha,
                -MATE_VALUE < ev < MATE_VALUE,
                ev < beta,
                alpha < beta,
                ply < MAX_DEPTH - 1,
                ply > 0 ==> self.pv@[0] == old(self).pv@[0],
                ply == 0 ==> self.pv@[0] == old(self).pv@[0] || line_rooted(
                    old(game),
                    self.pv@[0]@,
                ),
            decreases len - k,
        {
            let mv = moves[k];
            let ghost pre = *game;
            if !game.make_move(mv) {
                k += 1;
                continue ;
            }
            proof {
                crate::makemove::lemma_mid_unmake_pre(pre, *game, mv);
            }
            self.pv[ply + 1] = Vec::new();
            score = -self.quiesce(game, -beta, -alpha, ply + 1, follow_pv);
            proof {
                crate::makemove::lemma_mid_unmake_pre(pre, *game, mv);
            }
            game.unmake_move(mv);
            proof {
                assert(game.same_as(&pre));
            }
            if self.stop_thinking {
                return 0;
            }
            if score > alpha {
                if score >= beta {
                    return beta;
                }
                alpha = score;
                self.rebuild_pv(ply, mv);
                proof {
                    if ply == 0 {
                        assert(self.pv@[0]@[0] == mv);
                        assert(old(game).move_plausible(mv) && old(game).move_succeeds(mv));
                        crate::movegen::lemma_emits_weaken(entry.board@, entry.state, mv_core(mv));
                        assert(old(game).pseudo_legal(mv_core(mv)));
                    }
                }
            }
            follow_pv = false;
            k += 1;
        }
        alpha
    }

    /// The current principal variation, rendered as long-algebraic
    /// strings.
    fn pv_strings(&self) -> (r: Vec<String>)
        requires
            self.wf(),
    {
        let mut out: Vec<String> = Vec::new();
        let len = self.pv[0].len();
        let mut j: usize = 0;
        while j < len
            invariant
                self.wf(),
                len == self.pv@[0]@.len(),
                j <= len,
            decreases len - j,
        {
            let m = self.pv[0][j];
            out.push(m.to_algebraic());
            j += 1;
        }
        out
    }

    /// Full-width negamax with fail-hard alpha-beta and principal
    /// variation. At the horizon it delegates to quiescence; every 1024
    /// nodes it checks the clock and may raise the stop flag; any
    /// repetition within the fifty-move window scores zero; in check,
    /// the depth extends by one. Unless the clock raised the stop flag:
    /// a position with no legal moves scores as mate or stalemate, a
    /// repetition or an expired fifty-move clock as a draw, an interior
    /// node strictly inside the mate window, a node with legal moves
    /// fail-hard within its window, and at the root a legal move exists
    /// exactly when a principal variation does. The position is restored
    /// exactly.
    #[verifier::rlimit(100)]
    #[verifier::loop_isolation(false)]
    pub fn search<T: ThinkInfo>(
        &mut self,
        game: &mut Game,
        comms: &mut T,
        alpha: i64,
        beta: i64,
        ply: usize,
        depth: usize,
        follow_pv: bool,
    ) -> (r: i64)
        requires
            old(self).wf(),
            old(game).coherent(),
            ply < MAX_DEPTH,
            depth <= MAX_DEPTH + ply,
            -MATE_VALUE <= alpha < beta <= MATE_VALUE,
        ensures
            final(self).wf(),
            final(game).same_as(old(game)),
            final(game).coherent(),
            -MATE_VALUE <= r <= MATE_VALUE,
            ply > 0 ==> final(self).pv@[0] == old(self).pv@[0],
            ply == 0 ==> final(self).pv@[0] == old(self).pv@[0] || line_rooted(
                old(game),
                final(self).pv@[0]@,
            ),
            !final(self).stop_thinking && ply >= 1 ==> -MATE_VALUE < r < MATE_VALUE,
            !final(self).stop_thinking && ply < depth && ply > 0 && old(game).spec_repetitions()
                > 0 ==> r == 0,
            !final(self).stop_thinking && ply < depth && (ply == 0 || old(
                game,
            ).spec_repetitions() == 0) && ply == MAX_DEPTH - 1 ==> r == crate::eval::spec_evaluate(
                old(game).board@,
                crate::defs::side_of(old(game).state),
            ),
            !final(self).stop_thinking && ply < depth && (ply == 0 || old(
                game,
            ).spec_repetitions() == 0) && ply < MAX_DEPTH - 1 && !old(game).has_legal_move() ==> r
                == (if crate::attack::attacks(
                old(game).board@,
                old(game).own_king(),
                crate::defs::opposite(old(game).side()),
            ) {
                -MATE_VALUE + ply
            } else {
                0
            }),
            !final(self).stop_thinking && ply < depth && (ply == 0 || old(
                game,
            ).spec_repetitions() == 0) && ply < MAX_DEPTH - 1 && old(game).has_legal_move()
                && crate::defs::draw_ply_of(old(game).state) < 100 ==> alpha <= r <= beta,
            !final(self).stop_thinking && ply < depth && (ply == 0 || old(
                game,
            ).spec_repetitions() == 0) && ply < MAX_DEPTH - 1 && old(game).has_legal_move()
                && crate::defs::draw_ply_of(old(game).state) >= 100 ==> r == 0 || r == beta,
            !final(self).stop_thinking && ply == 0 && 0 < depth && alpha == -MATE_VALUE && beta
                == MATE_VALUE && old(game).has_legal_move() ==> final(self).pv@[0]@.len() > 0,
        decreases MAX_DEPTH - ply,
    {
        if ply >= depth {
            return self.quiesce(game, alpha, beta, ply, follow_pv);
        }
        if self.nodes != usize::MAX {
            self.nodes += 1;
        }
        if self.nodes % 1024 == 0 && crate::clock::millis_since(&self.start_time)
            >= self.max_millis {
            self.stop_thinking = true;
            return 0;
        }
        if ply > 0 && game.repetitions() > 0 {
            // A single repetition within the window already scores as a
            // draw: repeating a position is looking for one.
            return 0;
        }
        if ply == MAX_DEPTH - 1 {
            return game.evaluate();
        }
        let mut moves = game.generate_moves();
        let ghost gen = moves@;
        let mut any_legal_moves = false;
        let ghost alpha0 = alpha;
        let mut alpha = alpha;
        let mut depth = depth;
        let in_check = game.in_check();
        if in_check {
            depth += 1;
        }
        let mut follow_pv = follow_pv && ply < self.pv[0].len();
        let top = if follow_pv {
            self.pv[0][ply]
        } else {
            DUMMY_MOVE
        };
        proof {
            assert forall|k: int| 0 <= k < moves@.len() implies sq_on_board(
                mv_from(#[trigger] moves@[k]) as int,
            ) && sq_on_board(mv_to(moves@[k]) as int) by {}
        }
        let ghost before_score = moves@;
        game.score_moves(&mut moves, &self.cutoff_moves, top);
        proof {
            assert forall|k: int| 0 <= k < moves@.len() implies game.move_plausible(
                #[trigger] moves@[k],
            ) && emits(game.board@, game.state, mv_core(moves@[k]), false) by {
                lemma_core_fields(moves@[k]);
                lemma_core_fields(before_score[k]);
            }
        }
        let ghost scored = moves@;
        sort_moves(&mut moves);
        let ghost entry = *game;
        proof {
            assert forall|j: int| 0 <= j < moves@.len() implies game.move_plausible(
                #[trigger] moves@[j],
            ) && emits(game.board@, game.state, mv_core(moves@[j]), false) by {
                assert(scored.contains(moves@[j]));
                let i = choose|i: int| 0 <= i < scored.len() && scored[i] == moves@[j];
            }
            assert forall|m: Move| entry.pseudo_legal(m) implies exists|j: int|
                0 <= j < moves@.len() && mv_core(#[trigger] moves@[j]) == m by {
                assert(gen.contains(m));
                let i = choose|i: int| 0 <= i < gen.len() && gen[i] == m;
                assert(mv_core(scored[i]) == mv_core(gen[i]));
                assert(mv_core(m) == m);
                assert(moves@.contains(scored[i]));
                let j = choose|j: int| 0 <= j < moves@.len() && moves@[j] == scored[i];
                assert(mv_core(moves@[j]) == m);
            }
        }
        let len = moves.len();
        let mut k: usize = 0;
        while k < len
            invariant
                self.wf(),
                game.same_as(&entry),
                game.coherent(),
                entry.same_as(old(game)),
                entry.coherent(),
                len == moves@.len(),
                k <= len,
                forall|j: int| 0 <= j < len ==> game.move_plausible(#[trigger] moves@[j]),
                forall|j: int|
                    0 <= j < len ==> emits(entry.board@, entry.state, mv_core(#[trigger] moves@[j]),
                        false),
                alpha0 <= alpha,
                alpha < beta,
                ply < MAX_DEPTH - 1,
                depth <= MAX_DEPTH + ply + 1,
                !any_legal_moves ==> alpha == alpha0,
                !any_legal_moves ==> (forall|j: int|
                    0 <= j < k ==> !entry.move_succeeds(#[trigger] moves@[j])),
                any_legal_moves ==> alpha > -MATE_VALUE,
                any_legal_moves ==> entry.has_legal_move(),
                ply > 0 ==> self.pv@[0] == old(self).pv@[0],
                ply == 0 ==> self.pv@[0] == old(self).pv@[0] || line_rooted(
                    old(game),
                    self.pv@[0]@,
                ),
                ply == 0 && alpha > alpha0 ==> self.pv@[0]@.len() > 0,
                ply == 0 && alpha0 == -MATE_VALUE && any_legal_moves ==> self.pv@[0]@.len() > 0,
            decreases len - k,
        {
            let mv = moves[k];
            let ghost pre = *game;
            if !game.make_move(mv) {
                proof {
                    assert(!entry.move_succeeds(mv));
                }
                k += 1;
                continue ;
            }
            proof {
                assert(entry.move_succeeds(mv));
                lemma_core_fields(mv);
                assert(entry.move_plausible(mv_core(mv)) && entry.move_succeeds(mv_core(mv)));
                assert(entry.legal(mv_core(mv)));
                assert(entry.has_legal_move());
                crate::makemove::lemma_mid_unmake_pre(pre, *game, mv);
            }
            any_legal_moves = true;
            self.pv[ply + 1] = Vec::new();
            let score = -self.search(game, comms, -beta, -alpha, ply + 1, depth, follow_pv);
            proof {
                crate::makemove::lemma_mid_unmake_pre(pre, *game, mv);
            }
            game.unmake_move(mv);
            proof {
                assert(game.same_as(&pre));
            }
            if self.stop_thinking {
                return 0;
            }
            proof {
                assert(-MATE_VALUE < score < MATE_VALUE);
            }
            if score >= beta {
                return beta;
            }
            if score > alpha {
                alpha = score;
                let from = MoveTrait::from(mv);
                let to = MoveTrait::to(mv);
                let idx = rev8x8(from) * 64 + rev8x8(to);
                let entry_count = self.cutoff_moves[idx];
                if entry_count <= u32::MAX - 32 {
                    self.cutoff_moves[idx] = entry_count + (MAX_DEPTH - ply) as u32;
                }
                self.rebuild_pv(ply, mv);
                proof {
                    if ply == 0 {
                        assert(self.pv@[0]@[0] == mv);
                        assert(old(game).move_plausible(mv) && old(game).move_succeeds(mv));
                        assert(old(game).pseudo_legal(mv_core(mv)));
                    }
                }
                if ply == 0 {
                    let mate_in: i64 = if score <= -(MATE_VALUE - MAX_DEPTH as i64) {
                        let away = (MATE_VALUE + score) as u64;
                        -((away / 2) as i64)
                    } else if score >= MATE_VALUE - MAX_DEPTH as i64 {
                        let away = (MATE_VALUE - score) as u64;
                        (away / 2) as i64
                    } else {
                        0
                    };
                    let millis = crate::clock::millis_since(&self.start_time);
                    let pv_moves = self.pv_strings();
                    comms.think_info(depth, score, mate_in, self.nodes, millis, &pv_moves);
                }
            }
            follow_pv = false;
            k += 1;
        }
        proof {
            if entry.has_legal_move() && !any_legal_moves {
                let m = choose|m: Move| entry.legal(m);
                let j = choose|j: int| 0 <= j < moves@.len() && mv_core(moves@[j]) == m;
                lemma_core_fields(moves@[j]);
                assert(entry.move_succeeds(moves@[j]));
                assert(false);
            }
        }
        if !any_legal_moves {
            if in_check {
                return -MATE_VALUE + ply as i64;
            } else {
                return 0;
            }
        }
        if game.fifty_move_draw() {
            return 0;
        }
        alpha
    }
}

impl Search {
    /// Runs iterative deepening to `search_depth` on this fresh search:
    /// after each completed depth it stops if the budget ran out or a
    /// forced mate was found, and returns the first move of the last
    /// completed depth's principal variation. The position is restored
    /// exactly; the move, when one comes back, is a legal move of the
    /// position; and `None` comes back only when the position has no
    /// legal move, the clock raised the stop flag, or no depth was asked
    /// for.
    pub fn think<T: ThinkInfo>(
        &mut self,
        game: &mut Game,
        comms: &mut T,
        search_depth: usize,
    ) -> (r: Option<Move>)
        requires
            old(self).wf(),
            !old(self).stop_thinking,
            forall|d: int| 0 <= d < old(self).pv@.len() ==> (#[trigger] old(self).pv@[d]@).len()
                == 0,
            old(game).coherent(),
            search_depth <= MAX_DEPTH,
        ensures
            final(self).wf(),
            final(game).same_as(old(game)),
            final(game).coherent(),
            r matches Some(m) ==> renderable(m) && old(game).move_plausible(m) && old(
                game,
            ).move_succeeds(m) && old(game).pseudo_legal(mv_core(m)),
            r matches Some(m) ==> old(game).has_legal_move(),
            r is None ==> !old(game).has_legal_move() || final(self).stop_thinking
                || search_depth == 0,
    {
        if search_depth == 0 {
            return None;
        }
        let mut depth: usize = 1;
        let ghost mut searched = false;
        while depth <= search_depth
            invariant
                self.wf(),
                game.same_as(old(game)),
                game.coherent(),
                depth >= 1,
                1 <= search_depth <= MAX_DEPTH,
                self.pv@[0]@.len() == 0 || line_rooted(old(game), self.pv@[0]@),
                searched ==> (self.stop_thinking || !old(game).has_legal_move()
                    || self.pv@[0]@.len() > 0),
                !searched ==> self.pv@[0]@.len() == 0 && !self.stop_thinking && depth == 1,
            ensures
                searched,
            decreases search_depth + 1 - depth,
        {
            let ghost at_call = *game;
            let score = self.search(game, comms, -MATE_VALUE, MATE_VALUE, 0, depth, true);
            proof {
                searched = true;
                assert(at_call.has_legal_move() == old(game).has_legal_move()) by {
                    if at_call.has_legal_move() {
                        let m = choose|m: Move| at_call.legal(m);
                        assert(old(game).legal(m));
                    }
                    if old(game).has_legal_move() {
                        let m = choose|m: Move| old(game).legal(m);
                        assert(at_call.legal(m));
                    }
                }
                assert(self.pv@[0]@.len() == 0 || line_rooted(old(game), self.pv@[0]@)) by {
                    if self.pv@[0]@.len() > 0 && line_rooted(&at_call, self.pv@[0]@) {
                        assert(old(game).move_plausible(self.pv@[0]@[0]));
                        assert(old(game).move_succeeds(self.pv@[0]@[0]));
                        assert(old(game).pseudo_legal(mv_core(self.pv@[0]@[0])));
                    }
                }
                if !self.stop_thinking && old(game).has_legal_move() {
                    assert(self.pv@[0]@.len() > 0);
                }
            }
            if self.stop_thinking {
                break ;
            }
            if score >= MATE_VALUE - MAX_DEPTH as i64 {
                break ;
            }
            depth += 1;
        }
        if self.pv[0].len() > 0 {
            proof {
                assert(line_rooted(old(game), self.pv@[0]@));
                if old(game).move_succeeds(self.pv@[0]@[0]) && old(game).move_plausible(
                    self.pv@[0]@[0],
                ) && old(game).pseudo_legal(mv_core(self.pv@[0]@[0])) {
                    lemma_core_fields(self.pv@[0]@[0]);
                    assert(old(game).legal(mv_core(self.pv@[0]@[0])));
                }
            }
            Some(self.pv[0][0])
        } else {
            proof {
                if !self.stop_thinking {
                    assert(!old(game).has_legal_move());
                }
            }
            None
        }
    }
}

/// Runs iterative deepening within the time budget, capping the depth at
/// `MAX_DEPTH`, and returns the best move found — a legal move of the
/// position — or `None` when there is none to return. The position is
/// restored exactly. (`Search::think` carries the full account of when
/// `None` can come back.)
pub fn think<T: ThinkInfo>(
    game: &mut Game,
    millis_to_think: u64,
    search_depth: usize,
    comms: &mut T,
) -> (r: Option<Move>)
    requires
        old(game).coherent(),
    ensures
        final(game).same_as(old(game)),
        final(game).coherent(),
        r matches Some(m) ==> renderable(m) && old(game).move_plausible(m) && old(
            game,
        ).move_succeeds(m) && old(game).pseudo_legal(mv_core(m)),
        !old(game).has_legal_move() ==> r is None,
{
    let capped = if search_depth > MAX_DEPTH {
        MAX_DEPTH
    } else {
        search_depth
    };
    let mut search = Search::new(millis_to_think);
    search.think(game, comms, capped)
}

/// The legal moves of a position: exactly the pseudo-legal moves that
/// `make_move` accepts. The position is restored exactly.
fn legal_moves(game: &mut Game) -> (r: Vec<Move>)
    requires
        old(game).coherent(),
    ensures
        final(game).same_as(old(game)),
        final(game).coherent(),
        forall|k: int| 0 <= k < r@.len() ==> final(game).legal(#[trigger] r@[k]),
        forall|m: Move| final(game).legal(m) ==> r@.contains(m),
{
    let mut result: Vec<Move> = Vec::new();
    let move_list = game.generate_moves();
    let ghost entry = *game;
    let len = move_list.len();
    let mut k: usize = 0;
    while k < len
        invariant
            game.same_as(&entry),
            game.coherent(),
            entry.same_as(old(game)),
            entry.coherent(),
            len == move_list@.len(),
            k <= len,
            forall|j: int|
                0 <= j < len ==> game.move_plausible(#[trigger] move_list@[j])
                    && game.pseudo_legal(move_list@[j]) && mv_core(move_list@[j])
                    == move_list@[j],
            forall|m: Move| game.pseudo_legal(m) ==> move_list@.contains(m),
            forall|j: int| 0 <= j < result@.len() ==> game.legal(#[trigger] result@[j]),
            forall|j: int|
                0 <= j < k && game.move_succeeds(#[trigger] move_list@[j]) ==> result@.contains(
                    move_list@[j],
                ),
        decreases len - k,
    {
        let mv = move_list[k];
        let ghost pre = *game;
        let ghost before = result@;
        if game.make_move(mv) {
            proof {
                crate::makemove::lemma_mid_unmake_pre(pre, *game, mv);
            }
            game.unmake_move(mv);
            proof {
                assert(game.same_as(&pre));
            }
            result.push(mv);
            proof {
                assert forall|x: Move| before.contains(x) implies result@.contains(x) by {
                    let i = choose|i: int| 0 <= i < before.len() && before[i] == x;
                    assert(result@[i] == x);
                }
                assert(result@[result@.len() - 1] == mv);
            }
        }
        k += 1;
    }
    proof {
        assert forall|m: Move| game.legal(m) implies result@.contains(m) by {
            assert(move_list@.contains(m));
            let j = choose|j: int| 0 <= j < move_list@.len() && move_list@[j] == m;
        }
    }
    result
}

/// Applies the move a long-algebraic string denotes when it is a legal
/// move of the position, and reports whether it was: `applied` holds
/// exactly when the string denotes a legal move, and then the position
/// has advanced by exactly that move. (The protocol adapter treats an
/// inapplicable move as a fatal protocol error.)
#[verifier::rlimit(100)]
#[verifier::loop_isolation(false)]
pub fn make_move_algebraic(game: &mut Game, input_move: &str) -> (applied: bool)
    requires
        old(game).coherent(),
        crate::moves::algebraic_move_ok(input_move@),
    ensures
        final(game).wf(),
        applied == old(game).legal(crate::moves::spec_algebraic_to_move(input_move@)),
        !applied ==> final(game).same_as(old(game)),
        applied ==> ({
            let m = crate::moves::spec_algebraic_to_move(input_move@);
            &&& final(game).board@ == crate::makemove::make_board(
                old(game).board@,
                old(game).state,
                m,
            )
            &&& final(game).state == crate::makemove::make_state_word(
                old(game).board@,
                old(game).state,
                m,
            )
            &&& final(game).history@ == old(game).history@.push(old(game).undo_record(m))
            &&& final(game).hash == final(game).spec_hash()
            &&& final(game).coherent()
        }),
{
    let parsed = crate::moves::algebraic_to_move(input_move);
    let moves = legal_moves(game);
    let len = moves.len();
    let mut k: usize = 0;
    while k < len
        invariant
            game.same_as(old(game)),
            game.coherent(),
            len == moves@.len(),
            k <= len,
            forall|j: int| 0 <= j < len ==> game.legal(#[trigger] moves@[j]),
            forall|m: Move| game.legal(m) ==> moves@.contains(m),
            forall|j: int| 0 <= j < k ==> moves@[j] != parsed,
        decreases len - k,
    {
        let mv = moves[k];
        if mv == parsed {
            let ghost at_call = *game;
            proof {
                assert(at_call.legal(mv));
                assert(old(game).pseudo_legal(mv));
                assert(old(game).move_plausible(mv));
                assert(old(game).move_succeeds(mv));
                assert(old(game).legal(mv));
                assert(mv == crate::moves::spec_algebraic_to_move(input_move@));
                assert(old(game).legal(crate::moves::spec_algebraic_to_move(input_move@)));
            }
            let ok = game.make_move(mv);
            proof {
                assert(ok);
                assert(game.board@ == crate::makemove::make_board(
                    old(game).board@,
                    old(game).state,
                    mv,
                ));
                assert(game.state == crate::makemove::make_state_word(
                    old(game).board@,
                    old(game).state,
                    mv,
                ));
                assert(at_call.undo_record(mv) == old(game).undo_record(mv));
            }
            return true;
        }
        k += 1;
    }
    proof {
        if old(game).legal(crate::moves::spec_algebraic_to_move(input_move@)) {
            assert(game.legal(parsed));
            assert(moves@.contains(parsed));
            let j = choose|j: int| 0 <= j < moves@.len() && moves@[j] == parsed;
            assert(false);
        }
    }
    false
}

} // verus!
