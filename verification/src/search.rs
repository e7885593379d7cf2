//! Depth-limited minimax search with alpha-beta pruning over a
//! memoization cache.

use vstd::prelude::*;
use crate::common::{Move, Score, BIG_INFINITY, INFINITY};
use crate::game_state::{all_of_mover, endgame, king_present, static_score, GameState};
use crate::piece::PieceColor;
use crate::search_cache::SearchCache;
use crate::search_laws::{lemma_search_keeps_sound, sound};

verus! {

/// What a cache holds: the score remembered for a state and a remaining
/// depth.
pub type Memo = Map<(GameState, int), int>;

/// The larger of two scores.
pub open spec fn max_score(a: int, b: int) -> int {
    if a >= b {
        a
    } else {
        b
    }
}

/// The smaller of two scores.
pub open spec fn min_score(a: int, b: int) -> int {
    if a <= b {
        a
    } else {
        b
    }
}

/// The score from which the mover's best score is built up: the worst
/// for the mover.
pub open spec fn start_score(mover: PieceColor) -> int {
    match mover {
        PieceColor::White => -(BIG_INFINITY as int),
        PieceColor::Black => BIG_INFINITY as int,
    }
}

/// The score of a state in which White's king is gone, at remaining depth
/// `level`: minus two kings, and a tenth of a point less for each ply
/// that remains, so that the earlier loss counts as the worse one.
pub open spec fn white_lost(level: int) -> int {
    -2 * INFINITY - level
}

/// The score of a state in which Black's king is gone.
pub open spec fn black_lost(level: int) -> int {
    2 * INFINITY + level
}

/// The score that the search gives a state at remaining depth `level`,
/// and the cache it leaves.
///
/// A score remembered for the state and the depth is returned as it is.
/// Otherwise the score is that of a lost king where a king is gone, the
/// static score at depth zero or below, and the outcome of trying the
/// moves of the color to move above that. The score found is remembered
/// where the cache keeps this depth.
pub open spec fn search(
    state: GameState,
    level: int,
    cache: Memo,
    alpha: int,
    beta: int,
    root: int,
) -> (int, Memo)
    decreases level, 1int, 0int,
{
    if cache.contains_key((state, level)) {
        (cache[(state, level)], cache)
    } else {
        let found = if !king_present(state.board, PieceColor::White) {
            (white_lost(level), cache)
        } else if !king_present(state.board, PieceColor::Black) {
            (black_lost(level), cache)
        } else if level > 0 {
            search_moves(
                state,
                state.legal_moves(),
                0,
                level,
                cache,
                alpha,
                beta,
                start_score(state.now_moves),
                root,
            )
        } else {
            (static_score(state.board, endgame(state.board)), cache)
        };
        if SearchCache::keeps(root, level) {
            (found.0, found.1.insert((state, level), found.0))
        } else {
            found
        }
    }
}

/// The outcome of trying `moves` from the `i`-th on, with `score` the
/// best found so far. Each move is made on a copy of the state and the
/// result searched one ply less deep, within the window as it then
/// stands. White keeps the largest score, stops once it exceeds `beta`,
/// and raises `alpha` to it otherwise; Black keeps the smallest, stops
/// once it falls below `alpha`, and lowers `beta` to it otherwise.
pub open spec fn search_moves(
    state: GameState,
    moves: Seq<Move>,
    i: int,
    level: int,
    cache: Memo,
    alpha: int,
    beta: int,
    score: int,
    root: int,
) -> (int, Memo)
    decreases level, 0int, moves.len() - i,
{
    if level <= 0 || i < 0 || i >= moves.len() {
        (score, cache)
    } else {
        let next = state.after_move(moves[i].0, moves[i].1, true);
        let (value, after) = search(next, level - 1, cache, alpha, beta, root);
        match state.now_moves {
            PieceColor::White => {
                let best = max_score(score, value);
                if best > beta {
                    (best, after)
                } else {
                    search_moves(
                        state,
                        moves,
                        i + 1,
                        level,
                        after,
                        max_score(alpha, best),
                        beta,
                        best,
                        root,
                    )
                }
            },
            PieceColor::Black => {
                let best = min_score(score, value);
                if best < alpha {
                    (best, after)
                } else {
                    search_moves(
                        state,
                        moves,
                        i + 1,
                        level,
                        after,
                        alpha,
                        min_score(beta, best),
                        best,
                        root,
                    )
                }
            },
        }
    }
}

impl GameState {
    fn cache_insert(&self, level: i32, cache: &mut SearchCache, value: Score)
        ensures
            final(cache)@ == if SearchCache::keeps(old(cache).root(), level as int) {
                old(cache)@.insert((*self, level as int), value as int)
            } else {
                old(cache)@
            },
            final(cache).root() == old(cache).root(),
    {
        if cache.remembers(level) {
            cache.insert(*self, level, value);
        }
    }

    /// Scores the state by searching `level` plies deep within the window
    /// from `alpha` to `beta`, reading and filling `cache`. The score and
    /// the cache left behind are those that `search` defines; a sound cache
    /// stays sound.
    pub fn evaluate(&self, level: i32, cache: &mut SearchCache, alpha: Score, beta: Score) -> (score:
        Score)
        requires
            self.wf(),
        ensures
            score == search(
                *self,
                level as int,
                old(cache)@,
                alpha as int,
                beta as int,
                old(cache).root(),
            ).0,
            final(cache)@ == search(
                *self,
                level as int,
                old(cache)@,
                alpha as int,
                beta as int,
                old(cache).root(),
            ).1,
            final(cache).root() == old(cache).root(),
            sound(old(cache)@, old(cache).root()) ==> sound(final(cache)@, old(cache).root()),
        decreases level,
    {
        proof {
            if sound(cache@, cache.root()) {
                lemma_search_keeps_sound(
                    *self,
                    level as int,
                    cache@,
                    alpha as int,
                    beta as int,
                    cache.root(),
                );
            }
        }
        if let Some(x) = cache.get(self, level) {
            return x;
        }
        let (white_king, black_king, is_endgame) = self.stats();
        if !white_king {
            let value: Score = -2 * INFINITY - level as i64;
            self.cache_insert(level, cache, value);
            return value;
        }
        if !black_king {
            let value: Score = 2 * INFINITY + level as i64;
            self.cache_insert(level, cache, value);
            return value;
        }
        let value = if level > 0 {
            let ghost root = cache.root();
            let ghost goal = search_moves(
                *self,
                self.legal_moves(),
                0,
                level as int,
                old(cache)@,
                alpha as int,
                beta as int,
                start_score(self.now_moves),
                root,
            );
            let mut alpha = alpha;
            let mut beta = beta;
            let mut score: Score = match self.now_moves {
                PieceColor::White => -BIG_INFINITY,
                PieceColor::Black => BIG_INFINITY,
            };
            let moves = self.generate_legal_moves();
            let mut i: usize = 0;
            let mut cut = false;
            while !cut && i < moves.len()
                invariant
                    self.wf(),
                    level > 0,
                    i <= moves.len(),
                    moves@ == self.legal_moves(),
                    all_of_mover(*self, moves@),
                    cache.root() == root,
                    !cut ==> goal == search_moves(
                        *self,
                        moves@,
                        i as int,
                        level as int,
                        cache@,
                        alpha as int,
                        beta as int,
                        score as int,
                        root,
                    ),
                    cut ==> goal == (score as int, cache@),
                decreases (if cut { 0int } else { 1int }), moves.len() - i,
            {
                let (from, to) = moves[i];
                let mut next_state = *self;
                proof {
                    self.lemma_move_of_mover_can_move(moves@[i as int]);
                }
                next_state.move_piece(from, to, true);
                let next_state_score = next_state.evaluate(level - 1, cache, alpha, beta);
                match self.now_moves {
                    PieceColor::White => {
                        if next_state_score > score {
                            score = next_state_score;
                        }
                        if score > beta {
                            cut = true;
                        } else if score > alpha {
                            alpha = score;
                        }
                    },
                    PieceColor::Black => {
                        if next_state_score < score {
                            score = next_state_score;
                        }
                        if score < alpha {
                            cut = true;
                        } else if score < beta {
                            beta = score;
                        }
                    },
                }
                if !cut {
                    i += 1;
                }
            }
            score
        } else {
            self.evaluate_static(is_endgame)
        };
        self.cache_insert(level, cache, value);
        value
    }
}

} // verus!
