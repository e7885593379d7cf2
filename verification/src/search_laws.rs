//! What holds of every search.

use vstd::prelude::*;
use crate::common::Move;
use crate::game_state::{endgame, king_present, static_score, GameState};
use crate::piece::PieceColor;
use crate::search::{black_lost, search, search_moves, start_score, white_lost, Memo};
use crate::search_cache::SearchCache;

verus! {

/// Whether `value` is a score that a search of `state` at remaining depth
/// `level` produced by computing it: a search whose cache held nothing for
/// this state and depth, within some window.
pub open spec fn recorded(state: GameState, level: int, value: int, root: int) -> bool {
    exists|cache: Memo, alpha: int, beta: int|
        !cache.contains_key((state, level)) && #[trigger] search(
            state,
            level,
            cache,
            alpha,
            beta,
            root,
        ).0 == value
}

/// Whether every score that the cache holds was produced by a search of
/// its state at its depth. An empty cache is sound, and searching keeps a
/// cache sound.
pub open spec fn sound(cache: Memo, root: int) -> bool {
    forall|state: GameState, level: int| #[trigger]
        cache.contains_key((state, level)) ==> recorded(
            state,
            level,
            cache[(state, level)],
            root,
        )
}

/// An empty cache is sound.
pub proof fn lemma_empty_sound(root: int)
    ensures
        sound(Map::<(GameState, int), int>::empty(), root),
{
}

/// Searching keeps a cache sound: whatever a search adds to the cache is
/// the score that this very search computed for that state and depth.
pub proof fn lemma_search_keeps_sound(
    state: GameState,
    level: int,
    cache: Memo,
    alpha: int,
    beta: int,
    root: int,
)
    requires
        sound(cache, root),
    ensures
        sound(search(state, level, cache, alpha, beta, root).1, root),
    decreases level, 1int, 0int,
{
    if !cache.contains_key((state, level)) {
        let result = search(state, level, cache, alpha, beta, root);
        if king_present(state.board, PieceColor::White) && king_present(
            state.board,
            PieceColor::Black,
        ) && level > 0 {
            lemma_search_moves_keeps_sound(
                state,
                state.legal_moves(),
                0,
                level,
                cache,
                alpha,
                beta,
                start_score(state.now_moves),
                root,
            );
        }
        if SearchCache::keeps(root, level) {
            assert(recorded(state, level, result.0, root));
            assert forall|s: GameState, l: int| #[trigger]
                result.1.contains_key((s, l)) implies recorded(s, l, result.1[(s, l)], root) by {
                if (s, l) != (state, level) {
                }
            }
        }
    }
}

/// Trying moves keeps a cache sound.
pub proof fn lemma_search_moves_keeps_sound(
    state: GameState,
    moves: Seq<Move>,
    i: int,
    level: int,
    cache: Memo,
    alpha: int,
    beta: int,
    score: int,
    root: int,
)
    requires
        sound(cache, root),
    ensures
        sound(search_moves(state, moves, i, level, cache, alpha, beta, score, root).1, root),
    decreases level, 0int, moves.len() - i,
{
    if !(level <= 0 || i < 0 || i >= moves.len()) {
        let next = state.after_move(moves[i].0, moves[i].1, true);
        lemma_search_keeps_sound(next, level - 1, cache, alpha, beta, root);
        let (value, after) = search(next, level - 1, cache, alpha, beta, root);
        match state.now_moves {
            PieceColor::White => {
                let best = crate::search::max_score(score, value);
                if best <= beta {
                    lemma_search_moves_keeps_sound(
                        state,
                        moves,
                        i + 1,
                        level,
                        after,
                        crate::search::max_score(alpha, best),
                        beta,
                        best,
                        root,
                    );
                }
            },
            PieceColor::Black => {
                let best = crate::search::min_score(score, value);
                if best >= alpha {
                    lemma_search_moves_keeps_sound(
                        state,
                        moves,
                        i + 1,
                        level,
                        after,
                        alpha,
                        crate::search::min_score(beta, best),
                        best,
                        root,
                    );
                }
            },
        }
    }
}

/// A search that finds a score in the cache returns that score and leaves
/// the cache as it was; in a sound cache that score is one that a search
/// of the same state at the same depth computed.
pub proof fn lemma_cache_hit(
    state: GameState,
    level: int,
    cache: Memo,
    alpha: int,
    beta: int,
    root: int,
)
    requires
        sound(cache, root),
        cache.contains_key((state, level)),
    ensures
        search(state, level, cache, alpha, beta, root) == (cache[(state, level)], cache),
        recorded(state, level, cache[(state, level)], root),
{
}

/// At a depth that the cache keeps, a score computed once is the score
/// that every later search of the same state at the same depth returns,
/// whatever its window: the first search leaves the score in the cache,
/// and the later one finds it there and leaves the cache as it was.
pub proof fn lemma_repeated_search_hits(
    state: GameState,
    level: int,
    cache: Memo,
    alpha: int,
    beta: int,
    later_alpha: int,
    later_beta: int,
    root: int,
)
    requires
        SearchCache::keeps(root, level),
    ensures
        search(
            state,
            level,
            search(state, level, cache, alpha, beta, root).1,
            later_alpha,
            later_beta,
            root,
        ) == search(state, level, cache, alpha, beta, root),
{
}

/// At depth zero the search of a state with both kings gives the static
/// score of its board, whatever a sound cache holds and whatever the
/// window is.
pub proof fn lemma_leaf_is_static(
    state: GameState,
    level: int,
    cache: Memo,
    alpha: int,
    beta: int,
    root: int,
)
    requires
        sound(cache, root),
        level <= 0,
        king_present(state.board, PieceColor::White),
        king_present(state.board, PieceColor::Black),
    ensures
        search(state, level, cache, alpha, beta, root).0 == static_score(
            state.board,
            endgame(state.board),
        ),
{
}

/// The search of a state without White's king gives minus two kings and
/// a tenth of a point less for each remaining ply; that of a state with
/// White's king and without Black's gives the opposite. This holds at
/// every depth, whatever a sound cache holds and whatever the window is.
pub proof fn lemma_lost_king(
    state: GameState,
    level: int,
    cache: Memo,
    alpha: int,
    beta: int,
    root: int,
)
    requires
        sound(cache, root),
    ensures
        !king_present(state.board, PieceColor::White) ==> search(
            state,
            level,
            cache,
            alpha,
            beta,
            root,
        ).0 == white_lost(level),
        king_present(state.board, PieceColor::White) && !king_present(
            state.board,
            PieceColor::Black,
        ) ==> search(state, level, cache, alpha, beta, root).0 == black_lost(level),
{
}

/// Where the score does not depend on the window, a score found in the
/// cache is the score that a search without that cache gives: at depth
/// zero, and where a king is gone, a search over one sound cache and a
/// search over any other, the empty one among them, agree.
pub proof fn lemma_hit_agrees_with_fresh_search(
    state: GameState,
    level: int,
    cache: Memo,
    alpha: int,
    beta: int,
    other: Memo,
    other_alpha: int,
    other_beta: int,
    root: int,
)
    requires
        sound(cache, root),
        sound(other, root),
        level <= 0 || !king_present(state.board, PieceColor::White) || !king_present(
            state.board,
            PieceColor::Black,
        ),
    ensures
        search(state, level, cache, alpha, beta, root).0 == search(
            state,
            level,
            other,
            other_alpha,
            other_beta,
            root,
        ).0,
{
    lemma_lost_king(state, level, cache, alpha, beta, root);
    lemma_lost_king(state, level, other, other_alpha, other_beta, root);
    if level <= 0 && king_present(state.board, PieceColor::White) && king_present(
        state.board,
        PieceColor::Black,
    ) {
        lemma_leaf_is_static(state, level, cache, alpha, beta, root);
        lemma_leaf_is_static(state, level, other, other_alpha, other_beta, root);
    }
}

} // verus!
