//! Zobrist position fingerprints for the transposition table.
//!
//! One 64-bit key per (square, piece-kind) pair plus one key toggled when
//! Black is to move; a position's hash is the XOR of the keys of its
//! occupied squares.  The key table is generated by a deterministic
//! SplitMix64 stream from a fixed seed, so hashes are reproducible across
//! processes.  The hash reads only piece placement and the side to move:
//! neither castling nor en-passant rights, nor piece color, enter it — two
//! positions agreeing on those inputs collide by design.

use vstd::prelude::*;

use crate::evaluation::spec_piece_kind_at;
use crate::rules::Position;

verus! {

/// Seed of the SplitMix64 stream behind the key table.
pub const ZOBRIST_SEED: u64 = 0x0DDB_1A5E_5BD9_E8D7;

/// The SplitMix64 state increment.
pub const SM_GAMMA: u64 = 0x9E37_79B9_7F4A_7C15;

/// The first SplitMix64 mixing multiplier.
pub const SM_MULT_1: u64 = 0xBF58_476D_1E35_61E5;

/// The second SplitMix64 mixing multiplier.
pub const SM_MULT_2: u64 = 0x94D0_49BB_1331_11EB;

/// The key XORed into the hash when Black is to move.
pub const BLACK_TO_MOVE_KEY: u64 = 12738094573457687482;

/// One square's worth of keys: the table holds six keys per square.
pub const KEYS_PER_SQUARE: u64 = 6;

/// The SplitMix64 output mix.
pub open spec fn sm_mix(z0: u64) -> u64 {
    let z1 = vstd::wrapping::u64_specs::wrapping_mul(z0 ^ (z0 >> 30), SM_MULT_1);
    let z2 = vstd::wrapping::u64_specs::wrapping_mul(z1 ^ (z1 >> 27), SM_MULT_2);
    z2 ^ (z2 >> 31)
}

/// The SplitMix64 state after `i` increments.
pub open spec fn sm_state(i: nat) -> u64
    decreases i,
{
    if i == 0 {
        ZOBRIST_SEED
    } else {
        vstd::wrapping::u64_specs::wrapping_add(sm_state((i - 1) as nat), SM_GAMMA)
    }
}

/// The `i`-th key of the deterministic key stream.
pub open spec fn zobrist_key(i: nat) -> u64 {
    sm_mix(sm_state(i + 1))
}

/// The SplitMix64 output mix.
fn sm_mix_exec(z0: u64) -> (r: u64)
    ensures
        r == sm_mix(z0),
{
    let z1 = (z0 ^ (z0 >> 30)).wrapping_mul(SM_MULT_1);
    let z2 = (z1 ^ (z1 >> 27)).wrapping_mul(SM_MULT_2);
    z2 ^ (z2 >> 31)
}

/// The Zobrist key table: six keys per square, plus the side-to-move key.
pub struct ZobristKeys {
    /// Key `square * KEYS_PER_SQUARE + kind` fingerprints that piece kind
    /// on that square.
    pub table: Vec<u64>,
    /// XORed into the hash when Black is to move.
    pub black_to_move: u64,
}

impl ZobristKeys {
    /// The table holds its 384 deterministic keys.
    pub open spec fn wf(self) -> bool {
        &&& self.table@.len() == 384
        &&& forall|i: int| 0 <= i < 384 ==> self.table@[i] == zobrist_key(i as nat)
        &&& self.black_to_move == BLACK_TO_MOVE_KEY
    }

    /// Builds the key table; every call yields the same keys.
    pub fn new() -> (r: ZobristKeys)
        ensures
            r.wf(),
    {
        let mut table: Vec<u64> = Vec::new();
        let mut state: u64 = ZOBRIST_SEED;
        let mut i: usize = 0;
        while i < 384
            invariant
                i <= 384,
                table@.len() == i,
                state == sm_state(i as nat),
                forall|j: int| 0 <= j < i ==> table@[j] == zobrist_key(j as nat),
            decreases 384 - i,
        {
            state = state.wrapping_add(SM_GAMMA);
            table.push(sm_mix_exec(state));
            i = i + 1;
        }
        ZobristKeys { table, black_to_move: BLACK_TO_MOVE_KEY }
    }
}

/// The key of one occupied square, or zero for an empty one.
pub open spec fn spec_square_key(z: ZobristKeys, p: Position, sq: u64) -> u64 {
    match spec_piece_kind_at(p, sq) {
        None => 0,
        Some(k) => z.table@[sq * KEYS_PER_SQUARE + k],
    }
}

/// The XOR of the square keys of squares `0..n`.
pub open spec fn spec_hash_upto(z: ZobristKeys, p: Position, n: nat) -> u64
    decreases n,
{
    if n == 0 {
        0
    } else {
        spec_hash_upto(z, p, (n - 1) as nat) ^ spec_square_key(z, p, (n - 1) as u64)
    }
}

/// A position's Zobrist hash: the XOR over all occupied squares, with the
/// side-to-move key toggled in when Black moves.
pub open spec fn spec_hash(z: ZobristKeys, p: Position) -> u64 {
    spec_hash_upto(z, p, 64) ^ (if p.white_to_move {
        0u64
    } else {
        z.black_to_move
    })
}

/// Hashes a position.
pub fn hash_board(z: &ZobristKeys, p: &Position) -> (r: u64)
    requires
        z.wf(),
    ensures
        r == spec_hash(*z, *p),
{
    let mut hash: u64 = 0;
    let mut sq: u64 = 0;
    while sq < 64
        invariant
            z.wf(),
            sq <= 64,
            hash == spec_hash_upto(*z, *p, sq as nat),
        decreases 64 - sq,
    {
        let key: u64 = match crate::evaluation::piece_kind_at(p, sq) {
            None => 0,
            Some(k) => z.table[(sq * KEYS_PER_SQUARE + (k as u64)) as usize],
        };
        hash = hash ^ key;
        sq = sq + 1;
    }
    proof {
        assert(hash ^ 0u64 == hash) by (bit_vector);
    }
    if p.white_to_move {
        hash
    } else {
        hash ^ z.black_to_move
    }
}

/// The hash reads only piece placement and the side to move: two positions
/// agreeing on the six kind bitboards and the turn hash alike, whatever
/// their boards, colors, castling or en-passant rights.
pub proof fn lemma_hash_placement_only(z: ZobristKeys, p1: Position, p2: Position)
    requires
        p1.pawns == p2.pawns,
        p1.knights == p2.knights,
        p1.bishops == p2.bishops,
        p1.rooks == p2.rooks,
        p1.queens == p2.queens,
        p1.kings == p2.kings,
        p1.white_to_move == p2.white_to_move,
    ensures
        spec_hash(z, p1) == spec_hash(z, p2),
{
    lemma_hash_upto_placement_only(z, p1, p2, 64);
}

/// Flipping only the side to move toggles exactly the side-to-move key:
/// in particular, a passed turn (which keeps every piece where it stands)
/// moves the hash by `BLACK_TO_MOVE_KEY`, and passing twice restores it.
pub proof fn lemma_hash_turn_toggle(z: ZobristKeys, p1: Position, p2: Position)
    requires
        z.wf(),
        p1.pawns == p2.pawns,
        p1.knights == p2.knights,
        p1.bishops == p2.bishops,
        p1.rooks == p2.rooks,
        p1.queens == p2.queens,
        p1.kings == p2.kings,
        p2.white_to_move == !p1.white_to_move,
    ensures
        spec_hash(z, p2) == spec_hash(z, p1) ^ BLACK_TO_MOVE_KEY,
{
    lemma_hash_upto_placement_only(z, p1, p2, 64);
    let u = spec_hash_upto(z, p1, 64);
    assert((u ^ 0u64) ^ BLACK_TO_MOVE_KEY == u ^ BLACK_TO_MOVE_KEY) by (bit_vector);
    assert((u ^ BLACK_TO_MOVE_KEY) ^ BLACK_TO_MOVE_KEY == u ^ 0u64) by (bit_vector);
}

/// Helper for [`lemma_hash_placement_only`], square by square.
proof fn lemma_hash_upto_placement_only(z: ZobristKeys, p1: Position, p2: Position, n: nat)
    requires
        p1.pawns == p2.pawns,
        p1.knights == p2.knights,
        p1.bishops == p2.bishops,
        p1.rooks == p2.rooks,
        p1.queens == p2.queens,
        p1.kings == p2.kings,
        n <= 64,
    ensures
        spec_hash_upto(z, p1, n) == spec_hash_upto(z, p2, n),
    decreases n,
{
    if n > 0 {
        lemma_hash_upto_placement_only(z, p1, p2, (n - 1) as nat);
    }
}

} // verus!
