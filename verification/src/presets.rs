//! Evaluation presets: the immutable per-opponent "personality" bundle of
//! piece weights, piece-square tables, move-hit probabilities, the weighted
//! depth distribution, thinking-time bounds and the check bonus.
//!
//! All scores are fixed-point (`SCORE_SCALE` per pawn); hit probabilities
//! are expressed in `HIT_SCALE`-ths.  A preset is validated once when built
//! and read-only afterwards, so every search sees well-formed data.

use vstd::prelude::*;

use crate::evaluation::GamePhase;
use crate::randomness::{build_walker, rand_range_u64, walker_len_of, walker_next};

verus! {

/// Largest admissible magnitude of a piece weight, a square-table entry or
/// the check bonus (ten thousand pawns, in fixed point).
pub const PRESET_VALUE_MAX: i64 = 100_000_000;

/// Move-hit probabilities are expressed in ten-thousandths: `HIT_SCALE`
/// means a candidate always survives the hit filter.
pub const HIT_SCALE: u32 = 10000;

/// Largest admissible weight in the depth distribution.
pub const DEPTH_WEIGHT_MAX: u32 = 10000;

/// Largest admissible number of depth levels.
pub const DEPTH_LEVELS_MAX: usize = 100;

/// One 64-square score table per piece kind.
#[derive(Clone)]
pub struct PieceSquareTables {
    pub pawn: Vec<i64>,
    pub knight: Vec<i64>,
    pub bishop: Vec<i64>,
    pub rook: Vec<i64>,
    pub queen: Vec<i64>,
    pub king: Vec<i64>,
}

/// The table of one piece kind, by index.
pub open spec fn spec_square_table(t: PieceSquareTables, kind: u8) -> Seq<i64> {
    if kind == 0 {
        t.pawn@
    } else if kind == 1 {
        t.knight@
    } else if kind == 2 {
        t.bishop@
    } else if kind == 3 {
        t.rook@
    } else if kind == 4 {
        t.queen@
    } else {
        t.king@
    }
}

/// Whether one square table has 64 entries, all within bounds.
pub open spec fn table_ok(t: Seq<i64>) -> bool {
    t.len() == 64 && forall|i: int|
        0 <= i < 64 ==> -PRESET_VALUE_MAX <= #[trigger] t[i] <= PRESET_VALUE_MAX
}

impl PieceSquareTables {
    /// Every table has one entry per square, within bounds.
    pub open spec fn wf(self) -> bool {
        table_ok(self.pawn@) && table_ok(self.knight@) && table_ok(self.bishop@) && table_ok(
            self.rook@,
        ) && table_ok(self.queen@) && table_ok(self.king@)
    }

    /// The table of one piece kind.
    pub fn get_square_table(&self, kind: u8) -> (r: &Vec<i64>)
        requires
            kind < 6,
        ensures
            r@ == spec_square_table(*self, kind),
    {
        match kind {
            0 => &self.pawn,
            1 => &self.knight,
            2 => &self.bishop,
            3 => &self.rook,
            4 => &self.queen,
            _ => &self.king,
        }
    }
}

/// One set of piece-square tables per game phase.
#[derive(Clone)]
pub struct PieceSquarePhases {
    pub opening: PieceSquareTables,
    pub middle_game: PieceSquareTables,
    pub end_game: PieceSquareTables,
}

/// The tables of one phase.
pub open spec fn spec_phase_tables(p: PieceSquarePhases, phase: GamePhase) -> PieceSquareTables {
    match phase {
        GamePhase::Opening => p.opening,
        GamePhase::MiddleGame => p.middle_game,
        GamePhase::EndGame => p.end_game,
    }
}

impl PieceSquarePhases {
    /// All three phases' tables are well formed.
    pub open spec fn wf(self) -> bool {
        self.opening.wf() && self.middle_game.wf() && self.end_game.wf()
    }

    /// The table of one piece kind in one phase.
    pub fn get_square_table(&self, phase: GamePhase, kind: u8) -> (r: &Vec<i64>)
        requires
            kind < 6,
        ensures
            r@ == spec_square_table(spec_phase_tables(*self, phase), kind),
    {
        let tables = match phase {
            GamePhase::Opening => &self.opening,
            GamePhase::MiddleGame => &self.middle_game,
            GamePhase::EndGame => &self.end_game,
        };
        tables.get_square_table(kind)
    }
}

/// Why a preset was rejected.
#[derive(Clone, Copy, Debug, PartialEq, Eq, Structural)]
pub enum PresetError {
    /// Not six piece weights, or one out of bounds.
    BadPieceWeights,
    /// A square table without 64 entries, or an entry out of bounds.
    BadSquareTables,
    /// Not six hit rates, or one above `HIT_SCALE`.
    BadMoveHit,
    /// No depth level, too many, or a weight above `DEPTH_WEIGHT_MAX`.
    BadDepthLevels,
    /// Check bonus out of bounds.
    BadCheckBonus,
    /// An empty thinking-time range.
    BadThinkingTime,
}

/// The per-opponent evaluation configuration, validated at construction.
#[derive(Clone)]
pub struct EvaluationPresets {
    /// Material weight of each piece kind, in fixed point.
    pub piece_weights: Vec<i64>,
    /// Positional score tables, one set per phase.
    pub piece_square_phases: PieceSquarePhases,
    /// Per-piece-kind chance that a candidate move survives the hit filter,
    /// in `HIT_SCALE`-ths.
    pub move_hit: Vec<u32>,
    /// Weights of the depth distribution: entry `d` is the weight of
    /// consulting the depth-`d` score table.
    pub depth_levels: Vec<u32>,
    /// Score added per checking piece.
    pub check_bonus: i64,
    /// Lower bound of the thinking time, in milliseconds.
    pub think_min_ms: u64,
    /// Upper bound (exclusive) of the thinking time, in milliseconds.
    pub think_max_ms: u64,
    /// The Walker table that samples `depth_levels`.
    pub depth_random_table: weighted_rand::table::WalkerTable,
}

/// Whether the piece weights are six values in bounds.
pub open spec fn piece_weights_ok(w: Seq<i64>) -> bool {
    w.len() == 6 && forall|i: int|
        0 <= i < 6 ==> -PRESET_VALUE_MAX <= #[trigger] w[i] <= PRESET_VALUE_MAX
}

/// Whether the hit rates are six values at most `HIT_SCALE`.
pub open spec fn move_hit_ok(h: Seq<u32>) -> bool {
    h.len() == 6 && forall|i: int| 0 <= i < 6 ==> #[trigger] h[i] <= HIT_SCALE
}

/// Whether the depth weights are non-empty, few enough and small enough.
pub open spec fn depth_levels_ok(d: Seq<u32>) -> bool {
    1 <= d.len() <= DEPTH_LEVELS_MAX && forall|i: int|
        0 <= i < d.len() ==> #[trigger] d[i] <= DEPTH_WEIGHT_MAX
}

impl EvaluationPresets {
    /// The preset's fields are validated and the depth sampler matches the
    /// depth distribution.
    pub open spec fn wf(self) -> bool {
        &&& piece_weights_ok(self.piece_weights@)
        &&& self.piece_square_phases.wf()
        &&& move_hit_ok(self.move_hit@)
        &&& depth_levels_ok(self.depth_levels@)
        &&& -PRESET_VALUE_MAX <= self.check_bonus <= PRESET_VALUE_MAX
        &&& self.think_min_ms < self.think_max_ms
        &&& walker_len_of(self.depth_random_table) == self.depth_levels@.len()
    }

    /// Validates the configuration data and builds the preset.  Each error
    /// names the first field, in declaration order, that is out of bounds.
    pub fn new(
        piece_weights: Vec<i64>,
        piece_square_phases: PieceSquarePhases,
        move_hit: Vec<u32>,
        depth_levels: Vec<u32>,
        check_bonus: i64,
        think_min_ms: u64,
        think_max_ms: u64,
    ) -> (r: Result<EvaluationPresets, PresetError>)
        ensures
            r matches Err(PresetError::BadPieceWeights) <==> !piece_weights_ok(piece_weights@),
            r matches Err(PresetError::BadSquareTables) <==> piece_weights_ok(piece_weights@)
                && !piece_square_phases.wf(),
            r matches Err(PresetError::BadMoveHit) <==> piece_weights_ok(piece_weights@)
                && piece_square_phases.wf() && !move_hit_ok(move_hit@),
            r matches Err(PresetError::BadDepthLevels) <==> piece_weights_ok(piece_weights@)
                && piece_square_phases.wf() && move_hit_ok(move_hit@) && !depth_levels_ok(
                depth_levels@,
            ),
            r matches Err(PresetError::BadCheckBonus) <==> piece_weights_ok(piece_weights@)
                && piece_square_phases.wf() && move_hit_ok(move_hit@) && depth_levels_ok(
                depth_levels@,
            ) && !(-PRESET_VALUE_MAX <= check_bonus <= PRESET_VALUE_MAX),
            r matches Err(PresetError::BadThinkingTime) <==> piece_weights_ok(piece_weights@)
                && piece_square_phases.wf() && move_hit_ok(move_hit@) && depth_levels_ok(
                depth_levels@,
            ) && -PRESET_VALUE_MAX <= check_bonus <= PRESET_VALUE_MAX && !(think_min_ms
                < think_max_ms),
            r matches Ok(p) ==> p.wf() && p.piece_weights == piece_weights
                && p.piece_square_phases == piece_square_phases && p.move_hit == move_hit
                && p.depth_levels == depth_levels && p.check_bonus == check_bonus
                && p.think_min_ms == think_min_ms && p.think_max_ms == think_max_ms,
            r is Ok <==> piece_weights_ok(piece_weights@) && piece_square_phases.wf()
                && move_hit_ok(move_hit@) && depth_levels_ok(depth_levels@) && -PRESET_VALUE_MAX
                <= check_bonus <= PRESET_VALUE_MAX && think_min_ms < think_max_ms,
    {
        if !check_piece_weights(&piece_weights) {
            return Err(PresetError::BadPieceWeights);
        }
        if !check_square_phases(&piece_square_phases) {
            return Err(PresetError::BadSquareTables);
        }
        if !check_move_hit(&move_hit) {
            return Err(PresetError::BadMoveHit);
        }
        if !check_depth_levels(&depth_levels) {
            return Err(PresetError::BadDepthLevels);
        }
        if !(-PRESET_VALUE_MAX <= check_bonus && check_bonus <= PRESET_VALUE_MAX) {
            return Err(PresetError::BadCheckBonus);
        }
        if !(think_min_ms < think_max_ms) {
            return Err(PresetError::BadThinkingTime);
        }
        let depth_random_table = build_walker(&depth_levels);
        Ok(
            EvaluationPresets {
                piece_weights,
                piece_square_phases,
                move_hit,
                depth_levels,
                check_bonus,
                think_min_ms,
                think_max_ms,
                depth_random_table,
            },
        )
    }

    /// Samples a depth from the preset's weighted depth distribution.
    pub fn get_random_depth(&self) -> (r: usize)
        requires
            self.wf(),
        ensures
            r < self.depth_levels@.len(),
    {
        walker_next(&self.depth_random_table)
    }

    /// Samples a thinking duration, in milliseconds, uniformly from the
    /// preset's range.
    pub fn get_thinking_duration(&self) -> (r: u64)
        requires
            self.wf(),
        ensures
            self.think_min_ms <= r < self.think_max_ms,
    {
        rand_range_u64(self.think_min_ms, self.think_max_ms)
    }
}

/// Checks the piece-weight bounds.
fn check_piece_weights(w: &Vec<i64>) -> (r: bool)
    ensures
        r == piece_weights_ok(w@),
{
    if w.len() != 6 {
        return false;
    }
    let mut i: usize = 0;
    while i < 6
        invariant
            i <= 6,
            w@.len() == 6,
            forall|j: int| 0 <= j < i ==> -PRESET_VALUE_MAX <= #[trigger] w@[j] <= PRESET_VALUE_MAX,
        decreases 6 - i,
    {
        if w[i] < -PRESET_VALUE_MAX || w[i] > PRESET_VALUE_MAX {
            return false;
        }
        i = i + 1;
    }
    true
}

/// Checks one square table's length and bounds.
fn check_square_table(t: &Vec<i64>) -> (r: bool)
    ensures
        r == table_ok(t@),
{
    if t.len() != 64 {
        return false;
    }
    let mut i: usize = 0;
    while i < 64
        invariant
            i <= 64,
            t@.len() == 64,
            forall|j: int| 0 <= j < i ==> -PRESET_VALUE_MAX <= #[trigger] t@[j] <= PRESET_VALUE_MAX,
        decreases 64 - i,
    {
        if t[i] < -PRESET_VALUE_MAX || t[i] > PRESET_VALUE_MAX {
            return false;
        }
        i = i + 1;
    }
    true
}

/// Checks one phase's six square tables.
fn check_square_tables(t: &PieceSquareTables) -> (r: bool)
    ensures
        r == t.wf(),
{
    check_square_table(&t.pawn) && check_square_table(&t.knight) && check_square_table(&t.bishop)
        && check_square_table(&t.rook) && check_square_table(&t.queen) && check_square_table(
        &t.king,
    )
}

/// Checks all three phases.
fn check_square_phases(p: &PieceSquarePhases) -> (r: bool)
    ensures
        r == p.wf(),
{
    check_square_tables(&p.opening) && check_square_tables(&p.middle_game) && check_square_tables(
        &p.end_game,
    )
}

/// Checks the hit-rate bounds.
fn check_move_hit(h: &Vec<u32>) -> (r: bool)
    ensures
        r == move_hit_ok(h@),
{
    if h.len() != 6 {
        return false;
    }
    let mut i: usize = 0;
    while i < 6
        invariant
            i <= 6,
            h@.len() == 6,
            forall|j: int| 0 <= j < i ==> #[trigger] h@[j] <= HIT_SCALE,
        decreases 6 - i,
    {
        if h[i] > HIT_SCALE {
            return false;
        }
        i = i + 1;
    }
    true
}

/// Checks the depth-distribution bounds.
fn check_depth_levels(d: &Vec<u32>) -> (r: bool)
    ensures
        r == depth_levels_ok(d@),
{
    if d.len() < 1 || d.len() > DEPTH_LEVELS_MAX {
        return false;
    }
    let mut i: usize = 0;
    let n = d.len();
    while i < n
        invariant
            i <= n,
            n == d@.len(),
            forall|j: int| 0 <= j < i ==> #[trigger] d@[j] <= DEPTH_WEIGHT_MAX,
        decreases n - i,
    {
        if d[i] > DEPTH_WEIGHT_MAX {
            return false;
        }
        i = i + 1;
    }
    true
}

} // verus!
