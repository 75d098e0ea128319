//! The transposition table: a cache from position hash to the best known
//! search result for that position.
//!
//! An entry is overwritten only by a result searched to strictly greater
//! depth, and sentinel win/loss scores are never stored, so a cached score
//! is always an ordinary evaluation.  A lookup asking for a minimum depth
//! never hands back a shallower entry.  Eviction drops entries whose age
//! lies outside a horizon below the current half-move count, bounding the
//! table across a game.

use std::collections::HashMap;
use vstd::prelude::*;

use crate::rules::{
    dest_of, legal_moves, move_dest, move_promotion, move_source, moves_of, promo_of, source_of,
    Position,
};
use crate::{SCORE_MAX, SCORE_MIN};

verus! {

broadcast use vstd::std_specs::hash::group_hash_axioms;

/// How entries older than the horizon relate to the current half-move
/// count before they are dropped.
pub const HALF_MOVE_CUTOFF: u16 = 10;

/// How a later probe may use a cached score.  An `Exact` entry answers
/// any probe; an `UpperBound` entry (stored on a beta cutoff) answers
/// probes whose `alpha` it does not exceed; a `Lowerbound` entry (stored
/// when no move improved the window) answers probes whose `beta` it
/// reaches.
#[derive(Clone, Copy, Debug, PartialEq, Eq, Structural)]
pub enum SearchFlag {
    Exact,
    Lowerbound,
    UpperBound,
}

/// A move, reduced to the plain values that identify it.
#[derive(Clone, Copy, Debug)]
pub struct MoveKey {
    /// Source square index.
    pub from: u8,
    /// Destination square index.
    pub to: u8,
    /// Promotion piece kind, if any.
    pub promotion: Option<u8>,
}

/// The key identifying a rules-engine move.
pub open spec fn spec_move_key(mv: chess::ChessMove) -> MoveKey {
    MoveKey { from: source_of(mv), to: dest_of(mv), promotion: promo_of(mv) }
}

/// The key identifying a rules-engine move.
pub fn move_key(mv: &chess::ChessMove) -> (r: MoveKey)
    ensures
        r == spec_move_key(*mv),
{
    MoveKey { from: move_source(mv), to: move_dest(mv), promotion: move_promotion(mv) }
}

/// Whether two move keys are equal.
pub fn same_move_key(a: &MoveKey, b: &MoveKey) -> (r: bool)
    ensures
        r <==> *a == *b,
{
    a.from == b.from && a.to == b.to && match (a.promotion, b.promotion) {
        (None, None) => true,
        (Some(x), Some(y)) => x == y,
        _ => false,
    }
}

/// One cached search result.
#[derive(Clone, Copy, Debug)]
pub struct SearchResult {
    /// The depth the position was searched to.
    pub depth: u32,
    /// The fixed-point score found.
    pub score: i64,
    /// How the score bounds the position's true value.
    pub flag: SearchFlag,
    /// The half-move count at insertion.
    pub age: u16,
    /// The move that achieved the score, if one did.
    pub best_move: Option<MoveKey>,
}

impl SearchResult {
    /// Bundles a search result.
    pub fn new(depth: u32, score: i64, flag: SearchFlag, age: u16, best_move: Option<MoveKey>) -> (r:
        SearchResult)
        ensures
            r == (SearchResult { depth, score, flag, age, best_move }),
    {
        SearchResult { depth, score, flag, age, best_move }
    }
}

/// Every cached entry has an ordinary (non-sentinel) score and was searched
/// to at least depth one.
pub open spec fn entries_ok(m: Map<u64, SearchResult>) -> bool {
    forall|h: u64|
        m.contains_key(h) ==> {
            let e = #[trigger] m[h];
            SCORE_MIN < e.score < SCORE_MAX && e.depth >= 1
        }
}

/// What the cache holds after an insert attempt: the entry is stored only
/// if it is deeper than what is already there (an absent entry counts as
/// depth zero) and its score is no sentinel.
pub open spec fn spec_add(m: Map<u64, SearchResult>, hash: u64, r: SearchResult) -> Map<
    u64,
    SearchResult,
> {
    let existing_depth: u32 = if m.contains_key(hash) {
        m[hash].depth
    } else {
        0
    };
    if existing_depth < r.depth && SCORE_MIN < r.score < SCORE_MAX {
        m.insert(hash, r)
    } else {
        m
    }
}

/// Whether an entry's age lies at or beyond the eviction threshold: the
/// absolute distance between the reference age and the horizon.
pub open spec fn spec_expired(e: SearchResult, reference_age: u16, horizon: u16) -> bool {
    e.age <= spec_cutoff(reference_age, horizon)
}

/// How eviction transforms the cache: exactly the unexpired entries stay,
/// untouched.
pub open spec fn spec_evicted(
    m_old: Map<u64, SearchResult>,
    m_new: Map<u64, SearchResult>,
    reference_age: u16,
    horizon: u16,
) -> bool {
    &&& forall|h: u64|
        m_new.contains_key(h) <==> (m_old.contains_key(h) && !spec_expired(
            #[trigger] m_old[h],
            reference_age,
            horizon,
        ))
    &&& forall|h: u64| #[trigger] m_new.contains_key(h) ==> m_new[h] == m_old[h]
}

/// The eviction threshold: the absolute distance between the reference age
/// and the horizon.
pub open spec fn spec_cutoff(reference_age: u16, horizon: u16) -> int {
    if reference_age >= horizon {
        reference_age - horizon
    } else {
        horizon - reference_age
    }
}

/// The first index at or after `i` whose move carries the key, if any.
pub open spec fn spec_find_key(moves: Seq<chess::ChessMove>, k: MoveKey, i: nat) -> Option<nat>
    decreases moves.len() - i,
{
    if i >= moves.len() {
        None
    } else if spec_move_key(moves[i as int]) == k {
        Some(i)
    } else {
        spec_find_key(moves, k, i + 1)
    }
}

/// The sequence with the element at `i` moved to the front and the rest
/// kept in order.
pub open spec fn spec_bring_front(s: Seq<chess::ChessMove>, i: int) -> Seq<chess::ChessMove> {
    seq![s[i]] + s.subrange(0, i) + s.subrange(i + 1, s.len() as int)
}

/// The move order the search sees: the rules engine's legal moves, with
/// the first move matching the cached best-move key (if the cache holds
/// one for the hash, and it is legal) brought to the front, the rest in
/// generator order.  A cached key matching no legal move changes nothing.
pub open spec fn spec_ordered_moves(
    m: Map<u64, SearchResult>,
    hash: u64,
    b: chess::Board,
) -> Seq<chess::ChessMove> {
    let moves = moves_of(b);
    if m.contains_key(hash) {
        match m[hash].best_move {
            Some(k) => match spec_find_key(moves, k, 0) {
                Some(i) => spec_bring_front(moves, i as int),
                None => moves,
            },
            None => moves,
        }
    } else {
        moves
    }
}

/// Finding stops at the first match.
proof fn lemma_find_key_hit(moves: Seq<chess::ChessMove>, k: MoveKey, i: nat, fi: nat)
    requires
        i <= fi < moves.len(),
        spec_move_key(moves[fi as int]) == k,
        forall|j: int| i <= j < fi ==> spec_move_key(#[trigger] moves[j]) != k,
    ensures
        spec_find_key(moves, k, i) == Some(fi),
    decreases fi - i,
{
    if i < fi {
        lemma_find_key_hit(moves, k, i + 1, fi);
    }
}

/// With no match from `i` on, finding fails.
proof fn lemma_find_key_miss(moves: Seq<chess::ChessMove>, k: MoveKey, i: nat)
    requires
        forall|j: int| i <= j < moves.len() ==> spec_move_key(#[trigger] moves[j]) != k,
    ensures
        spec_find_key(moves, k, i) is None,
    decreases moves.len() - i,
{
    if i < moves.len() {
        lemma_find_key_miss(moves, k, i + 1);
    }
}

/// The cache from position hash to best known search result.
pub struct TranspositionTable {
    map: HashMap<u64, SearchResult>,
    hashes: Vec<u64>,
}

impl View for TranspositionTable {
    type V = Map<u64, SearchResult>;

    closed spec fn view(&self) -> Map<u64, SearchResult> {
        self.map@
    }
}

impl TranspositionTable {
    /// The stored hash list mirrors the map's domain exactly.
    spec fn links_ok(self) -> bool {
        &&& self.hashes@.no_duplicates()
        &&& forall|h: u64| self.map@.contains_key(h) <==> self.hashes@.contains(h)
    }

    /// The representation is consistent and every entry is an ordinary,
    /// depth-searched result.
    pub closed spec fn wf(self) -> bool {
        self.links_ok() && entries_ok(self@)
    }

    /// An empty table.
    pub fn new() -> (r: TranspositionTable)
        ensures
            r.wf(),
            r@ == Map::<u64, SearchResult>::empty(),
    {
        TranspositionTable { map: HashMap::new(), hashes: Vec::new() }
    }

    /// Caches a search result, unless a result at least as deep is already
    /// stored for the hash or the score is a win/loss sentinel.
    pub fn add(&mut self, hash: u64, result: SearchResult)
        requires
            old(self).wf(),
        ensures
            final(self).wf(),
            final(self)@ == spec_add(old(self)@, hash, result),
    {
        let existing_depth: u32 = match self.map.get(&hash) {
            Some(e) => e.depth,
            None => 0,
        };
        if existing_depth < result.depth && SCORE_MIN < result.score && result.score < SCORE_MAX {
            let ghost hs0 = self.hashes@;
            let ghost m0 = self.map@;
            if !self.map.contains_key(&hash) {
                self.hashes.push(hash);
                proof {
                    assert(!hs0.contains(hash));
                    assert(self.hashes@ == hs0.push(hash));
                    assert(self.hashes@.no_duplicates()) by {
                        assert(forall|l: int| 0 <= l < hs0.len() ==> hs0[l] != hash);
                        assert(forall|l: int|
                            0 <= l < hs0.len() ==> self.hashes@[l] == hs0[l]);
                        assert(self.hashes@[hs0.len() as int] == hash);
                    }
                }
            }
            let ghost hs1 = self.hashes@;
            self.map.insert(hash, result);
            proof {
                assert(self.map@ == m0.insert(hash, result));
                assert forall|h: u64| self.map@.contains_key(h) implies hs1.contains(h) by {
                    if h == hash {
                        if m0.contains_key(hash) {
                            assert(hs1 == hs0);
                        } else {
                            assert(hs1[hs1.len() - 1] == hash);
                        }
                    } else {
                        assert(m0.contains_key(h));
                        assert(hs0.contains(h));
                        let l = choose|l: int| 0 <= l < hs0.len() && #[trigger] hs0[l] == h;
                        assert(hs1[l] == h);
                    }
                }
                assert forall|h: u64| hs1.contains(h) implies self.map@.contains_key(h) by {
                    let l = choose|l: int| 0 <= l < hs1.len() && #[trigger] hs1[l] == h;
                    if l < hs0.len() {
                        assert(hs0[l] == h);
                        assert(hs0.contains(h));
                    } else {
                        assert(h == hash);
                    }
                }
            }
        }
    }

    /// Looks the hash up, answering only with an entry searched to at
    /// least the requested depth.
    pub fn get(&self, hash: u64, depth: u32) -> (r: Option<SearchResult>)
        requires
            self.wf(),
        ensures
            match r {
                Some(e) => self@.contains_key(hash) && e == self@[hash] && e.depth >= depth
                    && SCORE_MIN < e.score < SCORE_MAX && e.depth >= 1,
                None => !self@.contains_key(hash) || self@[hash].depth < depth,
            },
    {
        match self.map.get(&hash) {
            Some(e) => {
                if e.depth >= depth {
                    Some(*e)
                } else {
                    None
                }
            },
            None => None,
        }
    }

    /// How many positions are cached.
    pub fn size(&self) -> (r: usize)
        requires
            self.wf(),
        ensures
            r == self@.len(),
    {
        self.map.len()
    }

    /// Drops every entry whose age lies at or beyond the distance between
    /// the reference age and the horizon; the rest stay untouched.
    pub fn evict(&mut self, reference_age: u16, horizon: u16)
        requires
            old(self).wf(),
        ensures
            final(self).wf(),
            spec_evicted(old(self)@, final(self)@, reference_age, horizon),
    {
        let cut: u16 = if reference_age >= horizon {
            reference_age - horizon
        } else {
            horizon - reference_age
        };
        let ghost old_hashes = self.hashes@;
        let ghost old_map = self.map@;
        let mut new_map: HashMap<u64, SearchResult> = HashMap::new();
        let mut kept: Vec<u64> = Vec::new();
        let mut i: usize = 0;
        let n = self.hashes.len();
        while i < n
            invariant
                i <= n,
                n == old_hashes.len(),
                cut == spec_cutoff(reference_age, horizon),
                self.hashes@ == old_hashes,
                self.map@ == old_map,
                old(self).wf(),
                old_hashes == old(self).hashes@,
                old_map == old(self)@,
                kept@.no_duplicates(),
                forall|h: u64|
                    #[trigger] new_map@.contains_key(h) <==> (old_map.contains_key(h)
                        && old_hashes.subrange(0, i as int).contains(h) && !spec_expired(
                        old_map[h],
                        reference_age,
                        horizon,
                    )),
                forall|h: u64| new_map@.contains_key(h) ==> #[trigger] new_map@[h] == old_map[h],
                forall|h: u64| new_map@.contains_key(h) <==> kept@.contains(h),
            decreases n - i,
        {
            let h = self.hashes[i];
            proof {
                assert(old_hashes.subrange(0, i as int + 1).contains(h)) by {
                    assert(old_hashes.subrange(0, i as int + 1)[i as int] == h);
                }
                assert forall|x: u64| old_hashes.subrange(0, i as int + 1).contains(x) implies (
                old_hashes.subrange(0, i as int).contains(x) || x == h) by {
                    let l = choose|l: int|
                        0 <= l < i + 1 && #[trigger] old_hashes.subrange(0, i as int + 1)[l] == x;
                    if l < i {
                        assert(old_hashes.subrange(0, i as int)[l] == x);
                    }
                }
                assert forall|x: u64| old_hashes.subrange(0, i as int).contains(x) implies
                old_hashes.subrange(0, i as int + 1).contains(x) by {
                    let l = choose|l: int|
                        0 <= l < i && #[trigger] old_hashes.subrange(0, i as int)[l] == x;
                    assert(old_hashes.subrange(0, i as int + 1)[l] == x);
                }
                assert(!old_hashes.subrange(0, i as int).contains(h)) by {
                    if old_hashes.subrange(0, i as int).contains(h) {
                        let l = choose|l: int|
                            0 <= l < i && #[trigger] old_hashes.subrange(0, i as int)[l] == h;
                        assert(old_hashes[l] == old_hashes[i as int]);
                    }
                }
                assert(!kept@.contains(h));
                assert(old_map.contains_key(h)) by {
                    assert(old_hashes.contains(h)) by {
                        assert(old_hashes[i as int] == h);
                    }
                }
            }
            let ghost nm0 = new_map@;
            let ghost kept0 = kept@;
            match self.map.get(&h) {
                Some(e) => {
                    let entry = *e;
                    proof {
                        assert(entry == old_map[h]);
                    }
                    if !(entry.age <= cut) {
                        proof {
                            assert(!(old_map[h].age <= cut));
                        }
                        new_map.insert(h, entry);
                        kept.push(h);
                        proof {
                            assert(kept@ == kept0.push(h));
                            assert(kept@.no_duplicates()) by {
                                assert(forall|l: int| 0 <= l < kept0.len() ==> kept0[l] != h);
                                assert(forall|l: int|
                                    0 <= l < kept0.len() ==> kept@[l] == kept0[l]);
                                assert(kept@[kept0.len() as int] == h);
                            }
                            assert(kept@.contains(h)) by {
                                assert(kept@[kept0.len() as int] == h);
                            }
                        }
                    } else {
                        proof {
                            assert(cut == spec_cutoff(reference_age, horizon));
                            assert(old_map[h].age <= cut);
                            assert(spec_expired(old_map[h], reference_age, horizon));
                        }
                    }
                },
                None => {
                    proof {
                        assert(false);
                    }
                },
            }
            proof {
                assert(nm0.contains_key(h) <==> (old_map.contains_key(h) && old_hashes.subrange(
                    0,
                    i as int,
                ).contains(h) && !spec_expired(old_map[h], reference_age, horizon)));
                assert(!nm0.contains_key(h));
                if kept@ != kept0 {
                    assert forall|x: u64| kept@.contains(x) implies (kept0.contains(x) || x == h) by {
                        let l = choose|l: int| 0 <= l < kept@.len() && #[trigger] kept@[l] == x;
                        if l < kept0.len() {
                            assert(kept0[l] == x);
                        }
                    }
                    assert forall|x: u64| kept0.contains(x) implies kept@.contains(x) by {
                        let l = choose|l: int| 0 <= l < kept0.len() && #[trigger] kept0[l] == x;
                        assert(kept@[l] == x);
                    }
                }
                let ghost pre1 = old_hashes.subrange(0, i as int + 1);
                assert forall|x: u64| #[trigger] new_map@.contains_key(x) implies (
                old_map.contains_key(x) && pre1.contains(x) && !spec_expired(
                    old_map[x],
                    reference_age,
                    horizon,
                )) by {
                    if x == h {
                    } else {
                        assert(nm0.contains_key(x));
                        assert(old_hashes.subrange(0, i as int).contains(x));
                    }
                }
                assert forall|x: u64|
                    (old_map.contains_key(x) && #[trigger] pre1.contains(x) && !spec_expired(
                        old_map[x],
                        reference_age,
                        horizon,
                    )) implies new_map@.contains_key(x) by {
                    if x == h {
                        assert(!(old_map[h].age <= cut));
                        assert(new_map@ == nm0.insert(h, old_map[h]));
                    } else {
                        assert(old_hashes.subrange(0, i as int).contains(x));
                        assert(nm0.contains_key(x));
                    }
                }
                assert forall|x: u64| #[trigger] new_map@.contains_key(x) implies kept@.contains(x) by {
                    if x == h {
                        assert(!(old_map[h].age <= cut));
                        assert(kept@.contains(h));
                    } else {
                        assert(nm0.contains_key(x));
                        assert(kept0.contains(x));
                        if kept@ != kept0 {
                            let l = choose|l: int| 0 <= l < kept0.len() && #[trigger] kept0[l] == x;
                            assert(kept@[l] == x);
                        }
                    }
                }
                assert forall|x: u64| #[trigger] kept@.contains(x) implies new_map@.contains_key(x) by {
                    if kept@ != kept0 {
                        let l = choose|l: int| 0 <= l < kept@.len() && #[trigger] kept@[l] == x;
                        if l < kept0.len() {
                            assert(kept0[l] == x);
                            assert(kept0.contains(x));
                            assert(nm0.contains_key(x));
                        } else {
                            assert(x == h);
                        }
                    } else {
                        assert(kept0.contains(x));
                        assert(nm0.contains_key(x));
                    }
                }
                assert(forall|x: u64|
                    #[trigger] new_map@.contains_key(x) <==> (old_map.contains_key(x)
                        && old_hashes.subrange(0, i as int + 1).contains(x) && !spec_expired(
                        old_map[x],
                        reference_age,
                        horizon,
                    )));
            }
            i = i + 1;
        }
        proof {
            assert(old_hashes.subrange(0, n as int) == old_hashes);
        }
        self.map = new_map;
        self.hashes = kept;
    }

    /// Once the game is past the cutoff, drops the entries whose age fell
    /// behind the half-move count by more than the cutoff.
    pub fn trim(&mut self, half_move_count: u16)
        requires
            old(self).wf(),
        ensures
            final(self).wf(),
            half_move_count <= HALF_MOVE_CUTOFF ==> final(self)@ == old(self)@,
            half_move_count > HALF_MOVE_CUTOFF ==> spec_evicted(
                old(self)@,
                final(self)@,
                half_move_count,
                HALF_MOVE_CUTOFF,
            ),
    {
        if half_move_count <= HALF_MOVE_CUTOFF {
            return ;
        }
        self.evict(half_move_count, HALF_MOVE_CUTOFF);
    }

    /// The legal moves of a position, with the cached best move (if one is
    /// cached and legal) brought to the front: exactly
    /// [`spec_ordered_moves`], a permutation of the rules engine's list
    /// that keeps the remaining moves in generator order.
    pub fn legal_moves(&self, hash: u64, p: &Position) -> (r: Vec<chess::ChessMove>)
        requires
            self.wf(),
        ensures
            r@ == spec_ordered_moves(self@, hash, p.board),
            r@.to_multiset() == moves_of(p.board).to_multiset(),
            r@.len() == moves_of(p.board).len(),
            forall|j: int| 0 <= j < r@.len() ==> moves_of(p.board).contains(#[trigger] r@[j]),
    {
        let mut moves = legal_moves(&p.board);
        let ghost orig = moves@;
        let best: Option<MoveKey> = match self.map.get(&hash) {
            Some(e) => e.best_move,
            None => None,
        };
        if let Some(key) = best {
            let mut found: Option<usize> = None;
            let mut i: usize = 0;
            let n = moves.len();
            while i < n
                invariant
                    i <= n,
                    n == moves@.len(),
                    moves@ == orig,
                    match found {
                        None => forall|j: int|
                            0 <= j < i ==> spec_move_key(#[trigger] orig[j]) != key,
                        Some(fi) => fi < n && spec_find_key(orig, key, 0) == Some(fi as nat),
                    },
                decreases n - i,
            {
                if found.is_none() {
                    let mk = move_key(&moves[i]);
                    if same_move_key(&mk, &key) {
                        found = Some(i);
                        proof {
                            lemma_find_key_hit(orig, key, 0, i as nat);
                        }
                    }
                }
                i = i + 1;
            }
            proof {
                if found is None {
                    lemma_find_key_miss(orig, key, 0);
                }
            }
            if let Some(fi) = found {
                let mv = moves.remove(fi);
                moves.insert(0, mv);
                proof {
                    assert(moves@ =~= spec_bring_front(orig, fi as int));
                }
            }
        }
        proof {
            assert(moves@ == spec_ordered_moves(self@, hash, p.board));
            lemma_ordered_moves_permutation(self@, hash, p.board);
            assert forall|j: int| 0 <= j < moves@.len() implies moves_of(p.board).contains(
                #[trigger] moves@[j],
            ) by {
                assert(moves@.to_multiset().contains(moves@[j])) by {
                    moves@.to_multiset_ensures();
                }
                assert(moves_of(p.board).to_multiset().contains(moves@[j]));
                moves_of(p.board).to_multiset_ensures();
            }
        }
        moves
    }
}

/// The reordered move list is a permutation of the rules engine's.
proof fn lemma_ordered_moves_permutation(m: Map<u64, SearchResult>, hash: u64, b: chess::Board)
    ensures
        spec_ordered_moves(m, hash, b).to_multiset() == moves_of(b).to_multiset(),
        spec_ordered_moves(m, hash, b).len() == moves_of(b).len(),
{
    let moves = moves_of(b);
    let r = spec_ordered_moves(m, hash, b);
    if r != moves {
        let k = m[hash].best_move->Some_0;
        let fi = spec_find_key(moves, k, 0)->Some_0 as int;
        lemma_find_key_in_range(moves, k, 0);
        let front = seq![moves[fi]];
        let pre = moves.subrange(0, fi);
        let post = moves.subrange(fi + 1, moves.len() as int);
        assert(moves =~= pre + front + post);
        vstd::seq_lib::lemma_multiset_commutative(pre + front, post);
        vstd::seq_lib::lemma_multiset_commutative(pre, front);
        vstd::seq_lib::lemma_multiset_commutative(front + pre, post);
        vstd::seq_lib::lemma_multiset_commutative(front, pre);
        assert(r =~= front + pre + post);
        assert(r.to_multiset() =~= moves.to_multiset());
    }
}

/// A successful find lands inside the list.
proof fn lemma_find_key_in_range(moves: Seq<chess::ChessMove>, k: MoveKey, i: nat)
    requires
        spec_find_key(moves, k, i) is Some,
    ensures
        i <= spec_find_key(moves, k, i)->Some_0 < moves.len(),
        spec_move_key(moves[spec_find_key(moves, k, i)->Some_0 as int]) == k,
    decreases moves.len() - i,
{
    if i < moves.len() && spec_move_key(moves[i as int]) != k {
        lemma_find_key_in_range(moves, k, i + 1);
    }
}

impl Default for TranspositionTable {
    /// An empty table.
    fn default() -> (r: TranspositionTable)
        ensures
            r.wf(),
            r@ == Map::<u64, SearchResult>::empty(),
    {
        TranspositionTable::new()
    }
}

/// Entries surviving an eviction lie within the horizon of the reference
/// age: when no entry postdates the reference, every survivor's age is
/// within `horizon` of it on either side.
pub proof fn lemma_evict_window(
    m_old: Map<u64, SearchResult>,
    m_new: Map<u64, SearchResult>,
    reference_age: u16,
    horizon: u16,
    h: u64,
)
    requires
        spec_evicted(m_old, m_new, reference_age, horizon),
        reference_age >= horizon,
        m_new.contains_key(h),
        m_old.contains_key(h) ==> m_old[h].age <= reference_age,
    ensures
        reference_age - horizon <= m_new[h].age <= reference_age + horizon,
{
    assert(m_old.contains_key(h) && !spec_expired(m_old[h], reference_age, horizon));
}

/// Inserting a result no deeper than what a hash already holds leaves the
/// cache unchanged.
pub proof fn lemma_table_monotonic(m: Map<u64, SearchResult>, hash: u64, r: SearchResult)
    requires
        m.contains_key(hash),
        r.depth <= m[hash].depth,
    ensures
        spec_add(m, hash, r) == m,
{
}

} // verus!
