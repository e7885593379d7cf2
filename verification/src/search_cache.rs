//! The memoization cache of one search: scores already found, by state and
//! remaining depth.

use std::collections::HashMap;
use vstd::prelude::*;
use crate::common::Score;
use crate::game_state::GameState;
use crate::piece::{Piece, PieceColor, PieceType};

verus! {

/// One remembered score.
struct CacheEntry {
    state: GameState,
    level: i32,
    score: Score,
}

/// The scores remembered during one search, together with the depth at
/// which that search started. A cache is made for one search and dropped
/// when the move is chosen.
///
/// Its view maps a state and a remaining depth to the score remembered
/// for them.
pub struct SearchCache {
    root_depth: i32,
    buckets: HashMap<u64, Vec<CacheEntry>>,
}

/// What a bucket of entries holds for a state and a depth: the score of
/// the entry added last for them.
spec fn find(entries: Seq<CacheEntry>, state: GameState, level: int) -> Option<int>
    decreases entries.len(),
{
    if entries.len() == 0 {
        None
    } else if entries.last().state == state && entries.last().level == level {
        Some(entries.last().score as int)
    } else {
        find(entries.drop_last(), state, level)
    }
}

/// One step of the hash: the value so far, taking in one more number.
spec fn mix(h: int, c: int) -> int {
    (h * 31 + c) % 1_000_000_007
}

/// The number that stands for the content of a square in the hash.
spec fn square_code(square: Option<Piece>) -> int {
    match square {
        None => 0,
        Some(piece) => 1 + 2 * (match piece.piece_type {
            PieceType::King => 0int,
            PieceType::Queen => 1,
            PieceType::Bishop => 2,
            PieceType::Knight => 3,
            PieceType::Rook => 4,
            PieceType::Pawn => 5,
        }) + (match piece.piece_color {
            PieceColor::White => 0int,
            PieceColor::Black => 1,
        }),
    }
}

/// The hash of the first `n` squares of a state, counted file by file.
spec fn hash_squares(state: GameState, n: int) -> int
    decreases n,
{
    if n <= 0 {
        7
    } else {
        mix(hash_squares(state, n - 1), square_code(state.board[(n - 1) / 8][(n - 1) % 8]))
    }
}

/// The hash of a state and a depth: the bucket in which their score is
/// kept.
spec fn hash_of(state: GameState, level: int) -> int {
    mix(
        mix(
            mix(
                hash_squares(state, 64),
                match state.now_moves {
                    PieceColor::White => 0,
                    PieceColor::Black => 1,
                },
            ),
            if state.player_moves {
                1
            } else {
                0
            },
        ),
        level + 0x8000_0000,
    )
}

fn mix_in(h: u64, c: u64) -> (r: u64)
    requires
        h < 1_000_000_007,
        c <= 0xffff_ffff,
    ensures
        r == mix(h as int, c as int),
        r < 1_000_000_007,
{
    (h * 31 + c) % 1_000_000_007
}

fn square_code_of(square: Option<Piece>) -> (r: u64)
    ensures
        r == square_code(square),
        r <= 12,
{
    match square {
        None => 0,
        Some(piece) => {
            let kind: u64 = match piece.piece_type {
                PieceType::King => 0,
                PieceType::Queen => 1,
                PieceType::Bishop => 2,
                PieceType::Knight => 3,
                PieceType::Rook => 4,
                PieceType::Pawn => 5,
            };
            let side: u64 = match piece.piece_color {
                PieceColor::White => 0,
                PieceColor::Black => 1,
            };
            1 + 2 * kind + side
        },
    }
}

fn hash_key(state: &GameState, level: i32) -> (r: u64)
    ensures
        r == hash_of(*state, level as int),
{
    let mut h: u64 = 7;
    let mut i: usize = 0;
    while i < 8
        invariant
            i <= 8,
            h < 1_000_000_007,
            h == hash_squares(*state, 8 * i),
        decreases 8 - i,
    {
        let mut j: usize = 0;
        while j < 8
            invariant
                i < 8,
                j <= 8,
                h < 1_000_000_007,
                h == hash_squares(*state, 8 * i + j),
            decreases 8 - j,
        {
            assert((8 * i + j) / 8 == i && (8 * i + j) % 8 == j);
            h = mix_in(h, square_code_of(state.board[i][j]));
            j += 1;
        }
        i += 1;
    }
    let side: u64 = match state.now_moves {
        PieceColor::White => 0,
        PieceColor::Black => 1,
    };
    let owner: u64 = if state.player_moves {
        1
    } else {
        0
    };
    h = mix_in(h, side);
    h = mix_in(h, owner);
    mix_in(h, (level as i64 + 0x8000_0000) as u64)
}

fn find_in(entries: &Vec<CacheEntry>, state: &GameState, level: i32) -> (r: Option<Score>)
    ensures
        match r {
            Some(score) => find(entries@, *state, level as int) == Some(score as int),
            None => find(entries@, *state, level as int) is None,
        },
{
    let mut i: usize = entries.len();
    proof {
        assert(entries@.take(i as int) =~= entries@);
    }
    while i > 0
        invariant
            i <= entries.len(),
            find(entries@, *state, level as int) == find(
                entries@.take(i as int),
                *state,
                level as int,
            ),
        decreases i,
    {
        i -= 1;
        proof {
            assert(entries@.take(i + 1).drop_last() =~= entries@.take(i as int));
        }
        if entries[i].level == level && entries[i].state.same_as(state) {
            return Some(entries[i].score);
        }
    }
    None
}

impl View for SearchCache {
    type V = Map<(GameState, int), int>;

    closed spec fn view(&self) -> Map<(GameState, int), int> {
        Map::new(
            |key: (GameState, int)| self.lookup(key.0, key.1) is Some,
            |key: (GameState, int)| self.lookup(key.0, key.1).unwrap(),
        )
    }
}

impl SearchCache {
    /// What the buckets hold for a state and a depth.
    pub closed spec fn lookup(&self, state: GameState, level: int) -> Option<int> {
        let h = hash_of(state, level) as u64;
        if self.buckets@.contains_key(h) {
            find(self.buckets@[h]@, state, level)
        } else {
            None
        }
    }

    /// The depth at which the search that owns this cache started.
    pub closed spec fn root(&self) -> int {
        self.root_depth as int
    }

    /// Whether a score found at remaining depth `level` is remembered: only
    /// one ply below the root, and four or more plies below it. The plies
    /// between, where positions are most numerous, are left out.
    pub open spec fn keeps(root: int, level: int) -> bool {
        level == root - 1 || level <= root - 4
    }

    /// An empty cache for a search that starts at depth `root_depth`.
    pub fn new(root_depth: i32) -> (r: SearchCache)
        ensures
            r@ == Map::<(GameState, int), int>::empty(),
            r.root() == root_depth,
    {
        let r = SearchCache { root_depth, buckets: HashMap::new() };
        assert(r@ =~= Map::<(GameState, int), int>::empty());
        r
    }

    /// The depth at which the search that owns this cache started.
    pub fn root_depth(&self) -> (r: i32)
        ensures
            r == self.root(),
    {
        self.root_depth
    }

    /// Tells whether a score found at remaining depth `level` is to be
    /// remembered.
    pub fn remembers(&self, level: i32) -> (r: bool)
        ensures
            r == Self::keeps(self.root(), level as int),
    {
        let root: i64 = self.root_depth as i64;
        let level: i64 = level as i64;
        level == root - 1 || level <= root - 4
    }

    /// The score remembered for a state and a depth, if there is one.
    pub fn get(&self, state: &GameState, level: i32) -> (r: Option<Score>)
        ensures
            match r {
                Some(score) => self@.contains_key((*state, level as int)) && self@[(
                    *state,
                    level as int,
                )] == score,
                None => !self@.contains_key((*state, level as int)),
            },
    {
        let h = hash_key(state, level);
        match self.buckets.get(&h) {
            Some(entries) => find_in(entries, state, level),
            None => None,
        }
    }

    /// Remembers a score for a state and a depth, in place of any score
    /// remembered for them before.
    pub fn insert(&mut self, state: GameState, level: i32, score: Score)
        ensures
            final(self)@ == old(self)@.insert((state, level as int), score as int),
            final(self).root() == old(self).root(),
    {
        let h = hash_key(&state, level);
        let ghost old_buckets = self.buckets@;
        let mut entries = match self.buckets.remove(&h) {
            Some(entries) => entries,
            None => Vec::new(),
        };
        let ghost before = entries@;
        proof {
            assert(self.buckets@ == old_buckets.remove(h));
            assert(old_buckets.contains_key(h) ==> old_buckets[h]@ == before);
            assert(!old_buckets.contains_key(h) ==> before.len() == 0);
        }
        entries.push(CacheEntry { state, level, score });
        proof {
            assert(entries@.drop_last() =~= before);
        }
        self.buckets.insert(h, entries);
        proof {
            let expected = old(self)@.insert((state, level as int), score as int);
            assert(self.buckets@ == old_buckets.remove(h).insert(h, entries));
            assert forall|key: (GameState, int)| #[trigger]
                self.lookup(key.0, key.1) == if key == (state, level as int) {
                    Some(score as int)
                } else {
                    old(self).lookup(key.0, key.1)
                } by {
                let hk = hash_of(key.0, key.1) as u64;
                if hk == h {
                    assert(self.buckets@[h]@ == entries@);
                    assert(self.lookup(key.0, key.1) == find(entries@, key.0, key.1));
                    assert(old(self).lookup(key.0, key.1) == find(before, key.0, key.1));
                } else {
                    assert(self.buckets@.contains_key(hk) == old_buckets.contains_key(hk));
                }
            }
            assert(self@ =~= expected);
        }
    }
}

} // verus!
