use vstd::prelude::*;

use rayon::iter::IntoParallelRefIterator;
use rayon::iter::ParallelIterator;

use crate::board::{spec_evaluate, spec_is_check, spec_legal_moves, spec_sq, Chess, Color};
use crate::board::{lemma_evaluate_bound, lemma_legal_moves_on_board};
use crate::position::{moves_on_board, Move};

verus! {

/// The widest search window. Negating any score in
/// [NEG_INFINITY, POS_INFINITY] stays in the same range, which keeps the
/// negamax identity free of overflow.
pub const POS_INFINITY: i32 = 2147483647;

pub const NEG_INFINITY: i32 = -2147483647;

/// The base of the forced-mate score: a side with no legal moves while in
/// check scores `MATE_SCORE - depth`, so a mate found with more depth
/// remaining (nearer the root) ranks strictly worse for the mated side.
pub const MATE_SCORE: i32 = -1073741824;

/// The deepest search the mate-score arithmetic supports without leaving
/// [NEG_INFINITY, POS_INFINITY].
pub const MAX_SEARCH_DEPTH: i32 = 1073741823;

/// The move-ordering score: ten times the captured piece's material minus
/// the mover's material for captures (most valuable victim, least
/// valuable aggressor), zero otherwise, plus the promotion piece's
/// material if the move promotes.
pub open spec fn spec_move_score(c: Chess, m: Move) -> int {
    (match spec_sq(c.board, m.to) {
        Some(victim) => 10 * victim.typ.spec_material() - (match spec_sq(c.board, m.from) {
            Some(mover) => mover.typ.spec_material(),
            None => 0,
        }),
        None => 0,
    }) + (match m.prom {
        Some(t) => t.spec_material(),
        None => 0,
    })
}

/// Stable descending insertion: `m` is placed after every element whose
/// score is at least its own, so equal scores keep generation order.
pub open spec fn spec_insert_desc(c: Chess, s: Seq<Move>, m: Move) -> Seq<Move>
    decreases s.len(),
{
    if s.len() == 0 {
        seq![m]
    } else if spec_move_score(c, s.last()) >= spec_move_score(c, m) {
        s + seq![m]
    } else {
        spec_insert_desc(c, s.drop_last(), m) + seq![s.last()]
    }
}

/// The stable descending sort of the first `i` moves of `s`.
pub open spec fn spec_sort_moves_from(c: Chess, s: Seq<Move>, i: int) -> Seq<Move>
    decreases i,
    when 0 <= i <= s.len()
{
    if i == 0 {
        Seq::empty()
    } else {
        spec_insert_desc(c, spec_sort_moves_from(c, s, i - 1), s[i - 1])
    }
}

/// The moves sorted by descending ordering score, stably.
pub open spec fn spec_sort_moves(c: Chess, s: Seq<Move>) -> Seq<Move> {
    spec_sort_moves_from(c, s, s.len() as int)
}

/// Inserting into a sequence whose tail from `j` on scores strictly below
/// `m` (and whose element before `j`, if any, scores at least `m`) places
/// `m` exactly at index `j`.
proof fn lemma_insert_desc_split(c: Chess, s: Seq<Move>, m: Move, j: int)
    requires
        0 <= j <= s.len(),
        forall|k: int| j <= k < s.len() ==> spec_move_score(c, #[trigger] s[k]) < spec_move_score(
            c,
            m,
        ),
        j > 0 ==> spec_move_score(c, s[j - 1]) >= spec_move_score(c, m),
    ensures
        spec_insert_desc(c, s, m) == s.subrange(0, j).push(m) + s.subrange(j, s.len() as int),
    decreases s.len(),
{
    if s.len() == 0 {
        assert(spec_insert_desc(c, s, m) =~= s.subrange(0, j).push(m) + s.subrange(
            j,
            s.len() as int,
        ));
    } else if j == s.len() {
        assert(spec_move_score(c, s.last()) >= spec_move_score(c, m));
        assert(spec_insert_desc(c, s, m) =~= s.subrange(0, j).push(m) + s.subrange(
            j,
            s.len() as int,
        ));
    } else {
        assert(spec_move_score(c, s.last()) < spec_move_score(c, m));
        lemma_insert_desc_split(c, s.drop_last(), m, j);
        assert(s.drop_last().subrange(0, j) =~= s.subrange(0, j));
        assert(s.drop_last().subrange(j, s.drop_last().len() as int) =~= s.subrange(
            j,
            s.len() as int - 1,
        ));
        assert(spec_insert_desc(c, s, m) =~= s.subrange(0, j).push(m) + s.subrange(
            j,
            s.len() as int,
        ));
    }
}

impl Chess {
    /// The move-ordering score of one move on this position.
    fn score_move(&self, m: Move) -> (s: i32)
        requires
            m.from.on_board(),
            m.to.on_board(),
        ensures
            s == spec_move_score(*self, m),
    {
        proof {
            broadcast use vstd::array::group_array_axioms;
        }
        let capture_score: i32 = match self.board[m.to.index()] {
            Some(victim) => {
                let mover_material: i32 = match self.board[m.from.index()] {
                    Some(mover) => mover.typ.evaluate_material(),
                    None => 0,
                };
                10 * victim.typ.evaluate_material() - mover_material
            },
            None => 0,
        };
        let promotion_score: i32 = match m.prom {
            Some(t) => t.evaluate_material(),
            None => 0,
        };
        capture_score + promotion_score
    }

    /// Sort moves by descending ordering score, stably (equal scores keep
    /// generation order), to maximize alpha-beta cutoffs.
    pub fn sort_moves(&self, moves: Vec<Move>) -> (r: Vec<Move>)
        requires
            moves_on_board(moves@),
        ensures
            r@ == spec_sort_moves(*self, moves@),
            moves_on_board(r@),
    {
        let mut out: Vec<Move> = Vec::new();
        let mut i: usize = 0;
        while i < moves.len()
            invariant
                i <= moves@.len(),
                moves_on_board(moves@),
                moves_on_board(out@),
                out@ == spec_sort_moves_from(*self, moves@, i as int),
            decreases moves@.len() - i,
        {
            let m = moves[i];
            let sc = self.score_move(m);
            let mut j: usize = out.len();
            while j > 0 && self.score_move(out[j - 1]) < sc
                invariant
                    j <= out@.len(),
                    moves_on_board(out@),
                    m.from.on_board(),
                    m.to.on_board(),
                    sc == spec_move_score(*self, m),
                    forall|k: int|
                        j <= k < out@.len() ==> spec_move_score(*self, #[trigger] out@[k]) < sc,
                decreases j,
            {
                j = j - 1;
            }
            proof {
                lemma_insert_desc_split(*self, out@, m, j as int);
            }
            let ghost prev = out@;
            out.insert(j, m);
            proof {
                assert(out@ == spec_sort_moves_from(*self, moves@, i as int + 1));
                assert forall|k: int|
                    0 <= k < out@.len() implies (#[trigger] out@[k]).from.on_board()
                    && out@[k].to.on_board() by {
                    if k < j {
                        assert(out@[k] == prev[k]);
                    } else if k == j {
                        assert(out@[k] == m);
                    } else {
                        assert(out@[k] == prev[k - 1]);
                    }
                }
            }
            i = i + 1;
        }
        out
    }
}

/// Fixed-depth negamax with alpha-beta pruning. At depth 0 the static
/// evaluation for `turn`; with no legal moves, 0 for stalemate or the
/// depth-adjusted mate score for checkmate; otherwise the alpha-beta scan
/// of the ordered legal moves.
pub open spec fn spec_negamax(c: Chess, alpha: int, beta: int, depth: int, turn: Color) -> int
    decreases depth, 1int, 0int,
    when depth >= 0
{
    if depth == 0 {
        spec_evaluate(c, turn)
    } else {
        let legal = spec_legal_moves(c);
        if legal.len() == 0 {
            if !spec_is_check(c) {
                0
            } else {
                MATE_SCORE - depth
            }
        } else {
            spec_negamax_loop(c, spec_sort_moves(c, legal), 0, alpha, beta, depth, turn)
        }
    }
}

/// The alpha-beta scan from move `i` on: each child is searched with the
/// negated, swapped window; a child score reaching `beta` cuts off, and
/// otherwise raises `alpha` toward it. The scan's value is the final
/// `alpha`. A move whose application fails is skipped (never the case for
/// legal moves).
pub open spec fn spec_negamax_loop(
    c: Chess,
    moves: Seq<Move>,
    i: int,
    alpha: int,
    beta: int,
    depth: int,
    turn: Color,
) -> int
    decreases depth, 0int, moves.len() - i,
    when depth >= 1 && 0 <= i
{
    if i >= moves.len() {
        alpha
    } else {
        match c.spec_apply_move(moves[i]) {
            None => spec_negamax_loop(c, moves, i + 1, alpha, beta, depth, turn),
            Some(after) => {
                let eval = -spec_negamax(
                    after.spec_invert_turn(),
                    -beta,
                    -alpha,
                    depth - 1,
                    turn.spec_opposite(),
                );
                if eval >= beta {
                    beta
                } else {
                    let raised = if eval > alpha {
                        eval
                    } else {
                        alpha
                    };
                    spec_negamax_loop(c, moves, i + 1, raised, beta, depth, turn)
                }
            },
        }
    }
}

/// The negamax value stays inside the search window's safe range.
pub proof fn lemma_negamax_bound(c: Chess, alpha: int, beta: int, depth: int, turn: Color)
    requires
        c.wf(),
        NEG_INFINITY <= alpha <= POS_INFINITY,
        NEG_INFINITY <= beta <= POS_INFINITY,
        0 <= depth <= MAX_SEARCH_DEPTH,
    ensures
        NEG_INFINITY <= spec_negamax(c, alpha, beta, depth, turn) <= POS_INFINITY,
    decreases depth, 1int, 0int,
{
    if depth == 0 {
        lemma_evaluate_bound(c, turn);
    } else {
        let legal = spec_legal_moves(c);
        if legal.len() != 0 {
            lemma_negamax_loop_bound(c, spec_sort_moves(c, legal), 0, alpha, beta, depth, turn);
        }
    }
}

proof fn lemma_negamax_loop_bound(
    c: Chess,
    moves: Seq<Move>,
    i: int,
    alpha: int,
    beta: int,
    depth: int,
    turn: Color,
)
    requires
        c.wf(),
        0 <= i,
        1 <= depth <= MAX_SEARCH_DEPTH,
        NEG_INFINITY <= alpha <= POS_INFINITY,
        NEG_INFINITY <= beta <= POS_INFINITY,
    ensures
        NEG_INFINITY <= spec_negamax_loop(c, moves, i, alpha, beta, depth, turn) <= POS_INFINITY,
    decreases depth, 0int, moves.len() - i,
{
    if i < moves.len() {
        match c.spec_apply_move(moves[i]) {
            None => {
                lemma_negamax_loop_bound(c, moves, i + 1, alpha, beta, depth, turn);
            },
            Some(after) => {
                c.lemma_apply_move_preserves_wf(moves[i]);
                lemma_negamax_bound(
                    after.spec_invert_turn(),
                    -beta,
                    -alpha,
                    depth - 1,
                    turn.spec_opposite(),
                );
                let eval = -spec_negamax(
                    after.spec_invert_turn(),
                    -beta,
                    -alpha,
                    depth - 1,
                    turn.spec_opposite(),
                );
                if eval < beta {
                    let raised = if eval > alpha {
                        eval
                    } else {
                        alpha
                    };
                    lemma_negamax_loop_bound(c, moves, i + 1, raised, beta, depth, turn);
                }
            },
        }
    }
}

/// Fixed-depth negamax with alpha-beta pruning and capture-based move
/// ordering.
pub fn negamax(chess: Chess, alpha: i32, beta: i32, depth: i32, turn: Color) -> (r: i32)
    requires
        chess.wf(),
        NEG_INFINITY <= alpha,
        NEG_INFINITY <= beta,
        0 <= depth <= MAX_SEARCH_DEPTH,
    ensures
        r == spec_negamax(chess, alpha as int, beta as int, depth as int, turn),
        NEG_INFINITY <= r <= POS_INFINITY,
    decreases depth,
{
    proof {
        lemma_negamax_bound(chess, alpha as int, beta as int, depth as int, turn);
    }
    if depth == 0 {
        return chess.evaluate(turn);
    }
    let legal = chess.gen_legal_moves();
    if legal.len() == 0 {
        if !chess.is_check() {
            return 0;
        } else {
            return MATE_SCORE - depth;
        }
    }
    proof {
        lemma_legal_moves_on_board(chess);
    }
    let ordered = chess.sort_moves(legal);
    let mut a = alpha;
    let mut i: usize = 0;
    while i < ordered.len()
        invariant
            chess.wf(),
            i <= ordered@.len(),
            1 <= depth <= MAX_SEARCH_DEPTH,
            NEG_INFINITY <= a <= POS_INFINITY,
            NEG_INFINITY <= beta,
            ordered@ == spec_sort_moves(chess, spec_legal_moves(chess)),
            spec_legal_moves(chess).len() != 0,
            spec_negamax_loop(chess, ordered@, i as int, a as int, beta as int, depth as int, turn)
                == spec_negamax(chess, alpha as int, beta as int, depth as int, turn),
        decreases ordered@.len() - i,
    {
        let m = ordered[i];
        match chess.set_move(m) {
            Ok(after) => {
                proof {
                    chess.lemma_apply_move_preserves_wf(m);
                    lemma_negamax_bound(
                        after.spec_invert_turn(),
                        -beta as int,
                        -a as int,
                        depth - 1 as int,
                        turn.spec_opposite(),
                    );
                }
                let eval = -negamax(after.invert_turn(), -beta, -a, depth - 1, turn.opposite());
                if eval >= beta {
                    return beta;
                }
                if eval > a {
                    a = eval;
                }
            },
            Err(_) => {},
        }
        i = i + 1;
    }
    a
}

} // verus!

verus! {

/// The root score of one candidate move: the negated negamax value of
/// the resulting position for the opponent, searched over the widest
/// window. A move whose application fails scores 0 (never the case for
/// legal moves).
pub open spec fn spec_root_score(c: Chess, m: Move, depth: int) -> int {
    match c.spec_apply_move(m) {
        Some(after) => -spec_negamax(
            after.spec_invert_turn(),
            NEG_INFINITY as int,
            POS_INFINITY as int,
            depth,
            c.turn.spec_opposite(),
        ),
        None => 0,
    }
}

/// Search one root move on its own board copy.
fn root_score(chess: &Chess, m: Move, depth: i32) -> (s: i32)
    requires
        chess.wf(),
        0 <= depth <= MAX_SEARCH_DEPTH,
    ensures
        s == spec_root_score(*chess, m, depth as int),
{
    match chess.set_move(m) {
        Ok(after) => {
            proof {
                chess.lemma_apply_move_preserves_wf(m);
            }
            -negamax(after.invert_turn(), NEG_INFINITY, POS_INFINITY, depth, chess.turn.opposite())
        },
        Err(_) => 0,
    }
}

/// Score every root move on an independent board copy, in parallel.
///
/// Relies on rayon: `par_iter` over a slice is an indexed parallel
/// iterator, `map` applies the closure to every element, and `collect`
/// into a `Vec` keeps the original element order, so slot i of the result
/// is the closure's value on move i. The closure only calls the verified
/// `root_score`, whose contract pins that value.
#[verifier::external_body]
fn par_root_scores(chess: &Chess, moves: &Vec<Move>, depth: i32) -> (scores: Vec<i32>)
    requires
        chess.wf(),
        0 <= depth <= MAX_SEARCH_DEPTH,
    ensures
        scores@.len() == moves@.len(),
        forall|i: int|
            0 <= i < moves@.len() ==> scores@[i] == spec_root_score(
                *chess,
                moves@[i],
                depth as int,
            ),
{
    moves.par_iter().map(|m| root_score(chess, *m, depth)).collect()
}

/// The scores of all moves, by index.
pub open spec fn spec_root_scores(c: Chess, moves: Seq<Move>, depth: int) -> Seq<int> {
    Seq::new(moves.len(), |i: int| spec_root_score(c, moves[i], depth))
}

/// The index of the maximum of `s[i..]`, given that `best` is the index
/// of the first maximum of the part already scanned; ties keep the
/// earlier index, so the first maximum in order wins.
pub open spec fn spec_best_from(s: Seq<int>, i: int, best: int) -> int
    decreases s.len() - i,
    when 0 <= i
{
    if i >= s.len() {
        best
    } else if 0 <= best < s.len() && s[i] > s[best] {
        spec_best_from(s, i + 1, i)
    } else {
        spec_best_from(s, i + 1, best)
    }
}

/// The move the search selects: none when no legal move exists
/// (checkmate or stalemate), otherwise the first legal move in
/// generation order whose root score is maximal.
pub open spec fn spec_best_move(c: Chess, depth: int) -> Option<Move> {
    let legal = spec_legal_moves(c);
    if legal.len() == 0 {
        None
    } else {
        Some(legal[spec_best_from(spec_root_scores(c, legal, depth), 1, 0)])
    }
}

/// The selected root index is a valid index.
proof fn lemma_best_from_in_range(s: Seq<int>, i: int, best: int)
    requires
        0 <= i,
        0 <= best < s.len(),
    ensures
        0 <= spec_best_from(s, i, best) < s.len(),
    decreases s.len() - i,
{
    if i < s.len() {
        if s[i] > s[best] {
            lemma_best_from_in_range(s, i + 1, i);
        } else {
            lemma_best_from_in_range(s, i + 1, best);
        }
    }
}

impl Chess {
    /// The best move for the side to move at the given search depth, or
    /// none when no legal move exists. Every legal root move is searched
    /// on its own board copy (in parallel); the reduction picks the first
    /// maximum in generation order, so the result is deterministic.
    pub fn get_best_move(&self, depth: i32) -> (r: Option<Move>)
        requires
            self.wf(),
            0 <= depth <= MAX_SEARCH_DEPTH,
        ensures
            r == spec_best_move(*self, depth as int),
            (r is None) == (spec_legal_moves(*self).len() == 0),
            match r {
                Some(m) => spec_legal_moves(*self).contains(m),
                None => true,
            },
    {
        proof {
            if spec_legal_moves(*self).len() > 0 {
                lemma_best_from_in_range(
                    spec_root_scores(*self, spec_legal_moves(*self), depth as int),
                    1,
                    0,
                );
            }
        }
        let legal = self.gen_legal_moves();
        if legal.len() == 0 {
            return None;
        }
        let scores = par_root_scores(self, &legal, depth);
        let ghost sseq = spec_root_scores(*self, legal@, depth as int);
        proof {
            assert(forall|k: int| 0 <= k < sseq.len() ==> sseq[k] == scores@[k]);
        }
        let mut best: usize = 0;
        let mut i: usize = 1;
        while i < scores.len()
            invariant
                1 <= i,
                i <= scores@.len(),
                best < scores@.len(),
                scores@.len() == legal@.len(),
                sseq == spec_root_scores(*self, legal@, depth as int),
                sseq.len() == scores@.len(),
                forall|k: int| 0 <= k < sseq.len() ==> sseq[k] == scores@[k],
                spec_best_from(sseq, i as int, best as int) == spec_best_from(sseq, 1, 0),
            decreases scores@.len() - i,
        {
            if scores[i] > scores[best] {
                best = i;
            }
            i = i + 1;
        }
        Some(legal[best])
    }
}

/// The search is deterministic: on equal positions searched to the same
/// depth it selects the identical move, although the root moves are
/// scored in parallel.
pub proof fn lemma_best_move_deterministic(c1: Chess, c2: Chess, depth: int)
    requires
        c1 == c2,
    ensures
        spec_best_move(c1, depth) == spec_best_move(c2, depth),
{
}

} // verus!

verus! {

use crate::position::spec_move_chars;

impl Chess {
    /// The best move encoded as move text, or none when no legal move
    /// exists.
    pub fn get_best_move_uci(&self, depth: i32) -> (r: Option<String>)
        requires
            self.wf(),
            0 <= depth <= MAX_SEARCH_DEPTH,
        ensures
            match spec_best_move(*self, depth as int) {
                Some(m) => r is Some && r->Some_0@ == spec_move_chars(m),
                None => r is None,
            },
    {
        match self.get_best_move(depth) {
            Some(m) => {
                proof {
                    lemma_legal_moves_on_board(*self);
                    let legal = spec_legal_moves(*self);
                    lemma_best_from_in_range(
                        spec_root_scores(*self, legal, depth as int),
                        1,
                        0,
                    );
                }
                Some(m.to_uci())
            },
            None => None,
        }
    }
}

} // verus!
