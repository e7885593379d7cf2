//! The computer's turn: the search for the best score, the moves that
//! reach it, and the choice among them.

use rand::seq::SliceRandom;
use vstd::prelude::*;
use crate::common::{Move, BIG_INFINITY};
use crate::game_state::{all_of_mover, king_present, GameState};
use crate::piece::PieceColor;
use crate::search::{search, Memo};
use crate::search_cache::SearchCache;
use crate::turn::{applied, AppliedMove};

verus! {

/// How a turn of the computer ended.
#[derive(Debug, Clone, Copy, PartialEq, Eq)]
pub enum TurnOutcome {
    /// White's king is gone: the game is over.
    BlackWins,
    /// Black's king is gone: the game is over.
    WhiteWins,
    /// The turn is the human player's: nothing was done.
    Waiting,
    /// The computer made this move.
    Moved(AppliedMove),
    /// The computer found no move to make: the game ends.
    NoMove,
}

/// The state after the `i`-th of `moves` is made and the turn passed on.
pub open spec fn reply_state(state: GameState, moves: Seq<Move>, i: int) -> GameState {
    state.after_move(moves[i].0, moves[i].1, true)
}

/// The cache as the selection finds it when it comes to the `i`-th move:
/// the cache it started from, filled by the searches of the states after
/// the moves before.
pub open spec fn cache_at(
    state: GameState,
    moves: Seq<Move>,
    i: int,
    depth: int,
    start: Memo,
) -> Memo
    decreases i,
{
    if i <= 0 {
        start
    } else {
        search(
            reply_state(state, moves, i - 1),
            depth - 1,
            cache_at(state, moves, i - 1, depth, start),
            -(BIG_INFINITY as int),
            BIG_INFINITY as int,
            depth,
        ).1
    }
}

/// The score of the state after the `i`-th move, searched one ply less
/// deep than the root within the full window.
pub open spec fn reply_score(
    state: GameState,
    moves: Seq<Move>,
    i: int,
    depth: int,
    start: Memo,
) -> int {
    search(
        reply_state(state, moves, i),
        depth - 1,
        cache_at(state, moves, i, depth, start),
        -(BIG_INFINITY as int),
        BIG_INFINITY as int,
        depth,
    ).0
}

/// Those of the first `n` moves whose reply score equals `score`, in the
/// order of the moves.
pub open spec fn ties(
    state: GameState,
    moves: Seq<Move>,
    n: int,
    depth: int,
    start: Memo,
    score: int,
) -> Seq<Move>
    decreases n,
{
    if n <= 0 {
        Seq::empty()
    } else {
        let before = ties(state, moves, n - 1, depth, start, score);
        if reply_score(state, moves, n - 1, depth, start) == score {
            before.push(moves[n - 1])
        } else {
            before
        }
    }
}

/// The outcome of the search of `state` at `depth` over an empty cache
/// within the full window: the root score, and the cache that the
/// selection starts from.
pub open spec fn root_search(state: GameState, depth: int) -> (int, Memo) {
    search(
        state,
        depth,
        Map::<(GameState, int), int>::empty(),
        -(BIG_INFINITY as int),
        BIG_INFINITY as int,
        depth,
    )
}

/// The moves among which the computer chooses: those moves of the color
/// to move whose reply score equals the root score.
pub open spec fn best_moves(state: GameState, depth: int) -> Seq<Move> {
    let root = root_search(state, depth);
    let moves = state.legal_moves();
    ties(state, moves, moves.len() as int, depth, root.1, root.0)
}

proof fn lemma_ties_members(
    state: GameState,
    moves: Seq<Move>,
    n: int,
    depth: int,
    start: Memo,
    score: int,
    m: Move,
)
    requires
        0 <= n <= moves.len(),
    ensures
        ties(state, moves, n, depth, start, score).contains(m) <==> exists|i: int|
            0 <= i < n && moves[i] == m && #[trigger] reply_score(state, moves, i, depth, start)
                == score,
    decreases n,
{
    if n > 0 {
        lemma_ties_members(state, moves, n - 1, depth, start, score, m);
        let before = ties(state, moves, n - 1, depth, start, score);
        let now = ties(state, moves, n, depth, start, score);
        if reply_score(state, moves, n - 1, depth, start) == score {
            assert(now == before.push(moves[n - 1]));
            if now.contains(m) {
                let j = choose|j: int| 0 <= j < now.len() && now[j] == m;
                if j < before.len() {
                    assert(before[j] == m);
                }
            }
            if before.contains(m) {
                let j = choose|j: int| 0 <= j < before.len() && before[j] == m;
                assert(now[j] == m);
            }
            if moves[n - 1] == m {
                assert(now[before.len() as int] == m);
            }
        }
    }
}

/// A move is among the best moves exactly when it is one of the moves of
/// the color to move and the score of the state after it, searched one
/// ply less deep, equals the root score.
pub proof fn lemma_best_moves_tie_root(state: GameState, depth: int, m: Move)
    ensures
        best_moves(state, depth).contains(m) <==> exists|i: int|
            0 <= i < state.legal_moves().len() && state.legal_moves()[i] == m
                && #[trigger] reply_score(
                state,
                state.legal_moves(),
                i,
                depth,
                root_search(state, depth).1,
            ) == root_search(state, depth).0,
{
    let root = root_search(state, depth);
    let moves = state.legal_moves();
    lemma_ties_members(state, moves, moves.len() as int, depth, root.1, root.0, m);
}

/// Lists the best moves of the color to move: the state is searched
/// `depth` plies deep over a fresh cache, and a move is kept where the
/// state after it, searched one ply less deep over the same cache, has
/// exactly the score of the root.
pub fn good_moves(game_state: &GameState, depth: i32) -> (r: Vec<Move>)
    requires
        game_state.wf(),
        depth > i32::MIN,
    ensures
        r@ == best_moves(*game_state, depth as int),
        forall|i: int| 0 <= i < r@.len() ==> game_state.allows(r@[i].0, r@[i].1),
{
    let mut cache = SearchCache::new(depth);
    let score = game_state.evaluate(depth, &mut cache, -BIG_INFINITY, BIG_INFINITY);
    let ghost start = cache@;
    let possible_moves = game_state.generate_legal_moves();
    let mut good: Vec<Move> = Vec::new();
    let mut i: usize = 0;
    while i < possible_moves.len()
        invariant
            i <= possible_moves.len(),
            game_state.wf(),
            depth > i32::MIN,
            possible_moves@ == game_state.legal_moves(),
            all_of_mover(*game_state, possible_moves@),
            cache.root() == depth,
            cache@ == cache_at(*game_state, possible_moves@, i as int, depth as int, start),
            good@ == ties(
                *game_state,
                possible_moves@,
                i as int,
                depth as int,
                start,
                score as int,
            ),
            forall|k: int| 0 <= k < good@.len() ==> game_state.allows(good@[k].0, good@[k].1),
        decreases possible_moves.len() - i,
    {
        let (from, to) = possible_moves[i];
        let mut next_state = *game_state;
        proof {
            game_state.lemma_move_of_mover_can_move(possible_moves@[i as int]);
        }
        next_state.move_piece(from, to, true);
        let next_state_score = next_state.evaluate(
            depth - 1,
            &mut cache,
            -BIG_INFINITY,
            BIG_INFINITY,
        );
        if score == next_state_score {
            good.push((from, to));
        }
        i += 1;
    }
    good
}

/// Calls `choose` of `rand::seq::SliceRandom` on the moves with the
/// generator of the thread, `rand::thread_rng`. Assumed of it: an empty
/// list gives nothing, and any other list gives one of its moves. Which
/// one is left open.
#[verifier::external_body]
fn choose_random(moves: &Vec<Move>) -> (r: Option<Move>)
    ensures
        moves@.len() == 0 ==> r is None,
        moves@.len() > 0 ==> r is Some && moves@.contains(r.unwrap()),
{
    moves.choose(&mut rand::thread_rng()).copied()
}

/// Ends the computer's turn with the move that was chosen: the move is
/// made for good, or, where none was chosen, the game ends.
pub fn finish_turn(game_state: &mut GameState, number_of_players: i32, chosen: Option<Move>) -> (r:
    TurnOutcome)
    requires
        old(game_state).wf(),
        !old(game_state).player_moves,
        chosen matches Some(m) ==> old(game_state).allows(m.0, m.1),
    ensures
        final(game_state).wf(),
        match chosen {
            Some(m) => r == TurnOutcome::Moved(applied(old(game_state).board, m.0, m.1))
                && *final(game_state) == old(game_state).played(
                m.0,
                m.1,
                number_of_players as int,
            ),
            None => r == TurnOutcome::NoMove && *final(game_state) == *old(game_state),
        },
{
    match chosen {
        Some((from, to)) => TurnOutcome::Moved(
            game_state.computer_move(number_of_players, from, to),
        ),
        None => TurnOutcome::NoMove,
    }
}

/// Takes the computer's turn. Where a king is gone the game is over and
/// the other side has won; where the turn is the human player's nothing
/// is done. Otherwise the computer makes one of the best moves, chosen at
/// random, and the game ends where there is none.
pub fn computer_moves_system(game_state: &mut GameState, number_of_players: i32, depth: i32) -> (r:
    TurnOutcome)
    requires
        old(game_state).wf(),
        depth > i32::MIN,
    ensures
        final(game_state).wf(),
        !king_present(old(game_state).board, PieceColor::White) ==> r == TurnOutcome::BlackWins,
        king_present(old(game_state).board, PieceColor::White) && !king_present(
            old(game_state).board,
            PieceColor::Black,
        ) ==> r == TurnOutcome::WhiteWins,
        king_present(old(game_state).board, PieceColor::White) && king_present(
            old(game_state).board,
            PieceColor::Black,
        ) ==> if old(game_state).player_moves {
            r == TurnOutcome::Waiting
        } else if best_moves(*old(game_state), depth as int).len() == 0 {
            r == TurnOutcome::NoMove
        } else {
            r matches TurnOutcome::Moved(shown) && best_moves(
                *old(game_state),
                depth as int,
            ).contains((shown.from, shown.to))
        },
        match r {
            TurnOutcome::Moved(shown) => shown == applied(
                old(game_state).board,
                shown.from,
                shown.to,
            ) && *final(game_state) == old(game_state).played(
                shown.from,
                shown.to,
                number_of_players as int,
            ),
            _ => *final(game_state) == *old(game_state),
        },
{
    let (white_king, black_king, _is_endgame) = game_state.stats();
    if !white_king {
        TurnOutcome::BlackWins
    } else if !black_king {
        TurnOutcome::WhiteWins
    } else if !game_state.player_moves {
        let good = good_moves(game_state, depth);
        let computer_move = choose_random(&good);
        proof {
            if let Some(m) = computer_move {
                let k = choose|k: int| 0 <= k < good@.len() && good@[k] == m;
                assert(game_state.allows(good@[k].0, good@[k].1));
            }
        }
        finish_turn(game_state, number_of_players, computer_move)
    } else {
        TurnOutcome::Waiting
    }
}

} // verus!
