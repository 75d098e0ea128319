//! Bitboard arithmetic for pawn-structure scoring.
//!
//! A bitboard is a `u64` with one bit per square, bit 0 = a1, bit 7 = h1,
//! bit 56 = a8.  "North" is towards rank 8 (shift left by 8), "east" towards
//! file h (shift left by 1, masked so files do not wrap).

use vstd::prelude::*;

verus! {

/// Clears file a, so west-to-east shifts do not wrap.
pub const NOT_A_FILE: u64 = 0xfefe_fefe_fefe_fefe;

/// Clears file h, so east-to-west shifts do not wrap.
pub const NOT_H_FILE: u64 = 0x7f7f_7f7f_7f7f_7f7f;

/// Whether bit `i` of `x` is set.
pub open spec fn bit(x: u64, i: u64) -> bool {
    i < 64 && (x >> i) & 1 == 1
}

/// Every square at or north of a set square.
pub open spec fn spec_north_fill(x: u64) -> u64 {
    x | (x << 8) | (x << 16) | (x << 24) | (x << 32) | (x << 40) | (x << 48) | (x << 56)
}

/// Every square at or south of a set square.
pub open spec fn spec_south_fill(x: u64) -> u64 {
    x | (x >> 8) | (x >> 16) | (x >> 24) | (x >> 32) | (x >> 40) | (x >> 48) | (x >> 56)
}

/// Every square on a file holding a set square.
pub open spec fn spec_file_fill(x: u64) -> u64 {
    spec_north_fill(x) | spec_south_fill(x)
}

/// One step north.
pub open spec fn spec_north_one(x: u64) -> u64 {
    x << 8
}

/// One step south.
pub open spec fn spec_south_one(x: u64) -> u64 {
    x >> 8
}

/// One step east, without wrapping off file h.
pub open spec fn spec_east_one(x: u64) -> u64 {
    (x << 1) & NOT_A_FILE
}

/// One step west, without wrapping off file a.
pub open spec fn spec_west_one(x: u64) -> u64 {
    (x >> 1) & NOT_H_FILE
}

/// The squares strictly in front of each pawn, from its own color's point
/// of view.
pub open spec fn spec_front_spans(pawns: u64, white: bool) -> u64 {
    if white {
        spec_north_one(spec_north_fill(pawns))
    } else {
        spec_south_one(spec_south_fill(pawns))
    }
}

/// The squares strictly behind each pawn, from its own color's point of
/// view.
pub open spec fn spec_rear_spans(pawns: u64, white: bool) -> u64 {
    if white {
        spec_south_one(spec_south_fill(pawns))
    } else {
        spec_north_one(spec_north_fill(pawns))
    }
}

/// Pawns with a pawn of the same color somewhere behind them on their file.
pub open spec fn spec_pawns_in_front_own(pawns: u64, white: bool) -> u64 {
    pawns & spec_front_spans(pawns, white)
}

/// Pawns with a pawn of the same color somewhere in front of them on their
/// file.
pub open spec fn spec_pawns_behind_own(pawns: u64, white: bool) -> u64 {
    pawns & spec_rear_spans(pawns, white)
}

/// Doubled pawns: the front pawn of each same-file pair.
pub open spec fn spec_doubled_pawns(pawns: u64, white: bool) -> u64 {
    spec_pawns_in_front_own(pawns, white)
}

/// Files east of any pawn's file.
pub open spec fn spec_east_attack_file_fill(pawns: u64) -> u64 {
    spec_east_one(spec_file_fill(pawns))
}

/// Files west of any pawn's file.
pub open spec fn spec_west_attack_file_fill(pawns: u64) -> u64 {
    spec_west_one(spec_file_fill(pawns))
}

/// Pawns with no pawn of the same color on the file to their east.
pub open spec fn spec_no_neighbor_on_east_file(pawns: u64) -> u64 {
    pawns & !spec_west_attack_file_fill(pawns)
}

/// Pawns with no pawn of the same color on the file to their west.
pub open spec fn spec_no_neighbor_on_west_file(pawns: u64) -> u64 {
    pawns & !spec_east_attack_file_fill(pawns)
}

/// Pawns with no pawn of the same color on either adjacent file.
pub open spec fn spec_isolated_pawns(pawns: u64) -> u64 {
    spec_no_neighbor_on_east_file(pawns) & spec_no_neighbor_on_west_file(pawns)
}

/// The number of set bits among bits `0..n` of `x`.
pub open spec fn popcnt_upto(x: u64, n: nat) -> nat
    decreases n,
{
    if n == 0 {
        0
    } else {
        popcnt_upto(x, (n - 1) as nat) + if bit(x, (n - 1) as u64) {
            1nat
        } else {
            0nat
        }
    }
}

/// The number of set bits of `x`.
pub open spec fn popcnt(x: u64) -> nat {
    popcnt_upto(x, 64)
}

/// A prefix bit count never exceeds the width of the prefix.
pub proof fn lemma_popcnt_upto_le(x: u64, n: nat)
    ensures
        popcnt_upto(x, n) <= n,
    decreases n,
{
    if n > 0 {
        lemma_popcnt_upto_le(x, (n - 1) as nat);
    }
}

/// A bit count is at most 64.
pub proof fn lemma_popcnt_le(x: u64)
    ensures
        popcnt(x) <= 64,
{
    lemma_popcnt_upto_le(x, 64);
}

/// Counts the set bits of a bitboard.
pub fn popcount(x: u64) -> (r: u64)
    ensures
        r == popcnt(x),
        r <= 64,
{
    let mut count: u64 = 0;
    let mut i: u64 = 0;
    while i < 64
        invariant
            i <= 64,
            count == popcnt_upto(x, i as nat),
            count <= i,
        decreases 64 - i,
    {
        if (x >> i) & 1 == 1 {
            count = count + 1;
        }
        i = i + 1;
    }
    proof {
        lemma_popcnt_le(x);
    }
    count
}

/// Every square at or north of a set square.
pub fn north_fill(x: u64) -> (r: u64)
    ensures
        r == spec_north_fill(x),
{
    let mut gen: u64 = x;
    gen = gen | (gen << 8);
    gen = gen | (gen << 16);
    gen = gen | (gen << 32);
    proof {
        assert({
            let g1 = x | (x << 8);
            let g2 = g1 | (g1 << 16);
            g2 | (g2 << 32) == spec_north_fill(x)
        }) by (bit_vector);
    }
    gen
}

/// Every square at or south of a set square.
pub fn south_fill(x: u64) -> (r: u64)
    ensures
        r == spec_south_fill(x),
{
    let mut gen: u64 = x;
    gen = gen | (gen >> 8);
    gen = gen | (gen >> 16);
    gen = gen | (gen >> 32);
    proof {
        assert({
            let g1 = x | (x >> 8);
            let g2 = g1 | (g1 >> 16);
            g2 | (g2 >> 32) == spec_south_fill(x)
        }) by (bit_vector);
    }
    gen
}

/// Every square on a file holding a set square.
pub fn file_fill(x: u64) -> (r: u64)
    ensures
        r == spec_file_fill(x),
{
    north_fill(x) | south_fill(x)
}

/// One step north.
pub fn north_one(x: u64) -> (r: u64)
    ensures
        r == spec_north_one(x),
{
    x << 8
}

/// One step south.
pub fn south_one(x: u64) -> (r: u64)
    ensures
        r == spec_south_one(x),
{
    x >> 8
}

/// One step east, without wrapping off file h.
pub fn east_one(x: u64) -> (r: u64)
    ensures
        r == spec_east_one(x),
{
    (x << 1) & NOT_A_FILE
}

/// One step west, without wrapping off file a.
pub fn west_one(x: u64) -> (r: u64)
    ensures
        r == spec_west_one(x),
{
    (x >> 1) & NOT_H_FILE
}

/// The squares strictly in front of each pawn of the given color.
pub fn front_spans(pawns: u64, white: bool) -> (r: u64)
    ensures
        r == spec_front_spans(pawns, white),
{
    if white {
        north_one(north_fill(pawns))
    } else {
        south_one(south_fill(pawns))
    }
}

/// The squares strictly behind each pawn of the given color.
pub fn rear_spans(pawns: u64, white: bool) -> (r: u64)
    ensures
        r == spec_rear_spans(pawns, white),
{
    if white {
        south_one(south_fill(pawns))
    } else {
        north_one(north_fill(pawns))
    }
}

/// Pawns with a pawn of the same color somewhere behind them on their file.
pub fn pawns_in_front_own(pawns: u64, white: bool) -> (r: u64)
    ensures
        r == spec_pawns_in_front_own(pawns, white),
{
    pawns & front_spans(pawns, white)
}

/// Pawns with a pawn of the same color somewhere in front of them on their
/// file.
pub fn pawns_behind_own(pawns: u64, white: bool) -> (r: u64)
    ensures
        r == spec_pawns_behind_own(pawns, white),
{
    pawns & rear_spans(pawns, white)
}

/// Doubled pawns: the front pawn of each same-file pair.
pub fn doubled_pawns(pawns: u64, white: bool) -> (r: u64)
    ensures
        r == spec_doubled_pawns(pawns, white),
{
    pawns_in_front_own(pawns, white)
}

/// Files east of any pawn's file.
pub fn east_attack_file_fill(pawns: u64) -> (r: u64)
    ensures
        r == spec_east_attack_file_fill(pawns),
{
    east_one(file_fill(pawns))
}

/// Files west of any pawn's file.
pub fn west_attack_file_fill(pawns: u64) -> (r: u64)
    ensures
        r == spec_west_attack_file_fill(pawns),
{
    west_one(file_fill(pawns))
}

/// Pawns with no pawn of the same color on the file to their east.
pub fn no_neighbor_on_east_file(pawns: u64) -> (r: u64)
    ensures
        r == spec_no_neighbor_on_east_file(pawns),
{
    pawns & !west_attack_file_fill(pawns)
}

/// Pawns with no pawn of the same color on the file to their west.
pub fn no_neighbor_on_west_file(pawns: u64) -> (r: u64)
    ensures
        r == spec_no_neighbor_on_west_file(pawns),
{
    pawns & !east_attack_file_fill(pawns)
}

/// Pawns with no pawn of the same color on either adjacent file.
pub fn isolated_pawns(pawns: u64) -> (r: u64)
    ensures
        r == spec_isolated_pawns(pawns),
{
    no_neighbor_on_east_file(pawns) & no_neighbor_on_west_file(pawns)
}

} // verus!
