//! Buffer scheduling and round-strategy selection for the GKR fractional sumcheck.

use vstd::arithmetic::power2::pow2;
use vstd::bits::lemma_usize_shl_is_mul;
use vstd::bits::lemma_usize_pow2_no_overflow;
use vstd::prelude::*;

verus! {

/// Degree of the GKR round polynomial (number of evaluations sent per round).
pub const GKR_S_DEG: usize = 3;

/// Number of sumcheck variables handled by one precompute-M window.
pub const GKR_WINDOW_SIZE: usize = 3;

/// Default smallest remaining variable count for which precompute-M is considered.
pub const GKR_WINDOW_DEFAULT_MIN_N: usize = 22;

/// Largest tail tile used by the precompute-M build kernel.
pub const PRECOMPUTE_M_TAIL_TILE: usize = 4096;

/// Smallest tail tile used by the precompute-M build kernel.
pub const PRECOMPUTE_M_MIN_TAIL_TILE: usize = 256;

/// Default minimum number of tail blocks for precompute-M to be worthwhile.
pub const PRECOMPUTE_M_DEFAULT_MIN_BLOCKS: usize = 64;

/// Default number of tail blocks the build kernel aims for.
pub const PRECOMPUTE_M_DEFAULT_TARGET_BLOCKS: usize = 1024;

/// Which buffer operation the next fused compute+fold round uses.
#[derive(Debug, Clone, Copy, PartialEq, Eq, Structural)]
pub enum BufferTarget {
    /// Out-of-place: layer to work buffer.
    LayerToWork,
    /// Out-of-place: work buffer to layer.
    WorkToLayer,
    /// In place on the layer buffer.
    InPlaceLayer,
    /// In place on the work buffer.
    InPlaceWork,
}

/// True when the operation reads its input from the work buffer.
pub open spec fn reads_work(t: BufferTarget) -> bool {
    t == BufferTarget::WorkToLayer || t == BufferTarget::InPlaceWork
}

/// True when the operation leaves its output in the work buffer.
pub open spec fn writes_work(t: BufferTarget) -> bool {
    t == BufferTarget::LayerToWork || t == BufferTarget::InPlaceWork
}

/// True when the operation writes into the layer buffer.
pub open spec fn writes_layer(t: BufferTarget) -> bool {
    !writes_work(t)
}

/// True when the operation is out-of-place (reads one buffer, writes the other).
pub open spec fn is_pingpong(t: BufferTarget) -> bool {
    t == BufferTarget::LayerToWork || t == BufferTarget::WorkToLayer
}

/// Ping-pong buffer scheduling state for the inner rounds of one GKR layer.
///
/// Decides between in-place and out-of-place kernel variants from the work
/// buffer's capacity and from where the folded data currently lives.
#[derive(Debug, Clone, Copy)]
pub struct BufferScheduler {
    /// True when the data currently lives in the work buffer, false when in the layer.
    pub data_in_work_buffer: bool,
    /// Capacity of the work buffer, in elements.
    pub work_buffer_cap: usize,
}

/// The target chosen for a fused compute+fold step, and whether the data lives in
/// the work buffer afterwards.
pub open spec fn spec_next_target(
    in_work: bool,
    cap: usize,
    post_fold_size: usize,
    last_outer_round: bool,
) -> (BufferTarget, bool) {
    if last_outer_round {
        if post_fold_size <= cap {
            if in_work {
                (BufferTarget::WorkToLayer, false)
            } else {
                (BufferTarget::LayerToWork, true)
            }
        } else {
            (BufferTarget::InPlaceLayer, in_work)
        }
    } else {
        if in_work {
            (BufferTarget::InPlaceWork, true)
        } else {
            (BufferTarget::LayerToWork, true)
        }
    }
}

/// The target of the final fold of a layer (no fused compute).
pub open spec fn spec_final_fold_target(in_work: bool, last_outer_round: bool) -> BufferTarget {
    if in_work {
        BufferTarget::InPlaceWork
    } else if last_outer_round {
        BufferTarget::InPlaceLayer
    } else {
        BufferTarget::LayerToWork
    }
}

/// The precondition of a fused step (checked by a debug assertion): in the last
/// outer round an in-place step (the fold result does not fit the work buffer) works
/// on the layer, so the data must be there.
pub open spec fn next_target_allowed(
    in_work: bool,
    cap: usize,
    post_fold_size: usize,
    last_outer_round: bool,
) -> bool {
    last_outer_round && post_fold_size > cap ==> !in_work
}

impl BufferScheduler {
    /// Creates a scheduler with the data initially in the layer buffer.
    pub fn new(work_buffer_cap: usize) -> (s: Self)
        ensures
            !s.data_in_work_buffer,
            s.work_buffer_cap == work_buffer_cap,
    {
        BufferScheduler { data_in_work_buffer: false, work_buffer_cap }
    }

    /// Returns true when an out-of-place step fits the work buffer.
    pub fn can_pingpong(&self, post_fold_size: usize) -> (r: bool)
        ensures
            r == (post_fold_size <= self.work_buffer_cap),
    {
        post_fold_size <= self.work_buffer_cap
    }

    /// Chooses the buffer target of the next fused compute+fold step and records
    /// where the data lives afterwards.
    ///
    /// In the last outer round it ping-pongs whenever the result fits the work
    /// buffer; otherwise it folds in place on the layer. In other rounds the layer
    /// is preserved for the tree revert, so the result always goes to the work buffer.
    pub fn next_target(&mut self, post_fold_size: usize, last_outer_round: bool) -> (t: BufferTarget)
        requires
            next_target_allowed(
                old(self).data_in_work_buffer,
                old(self).work_buffer_cap,
                post_fold_size,
                last_outer_round,
            ),
        ensures
            (t, final(self).data_in_work_buffer) == spec_next_target(
                old(self).data_in_work_buffer,
                old(self).work_buffer_cap,
                post_fold_size,
                last_outer_round,
            ),
            final(self).work_buffer_cap == old(self).work_buffer_cap,
            reads_work(t) == old(self).data_in_work_buffer,
            writes_work(t) == final(self).data_in_work_buffer,
            !last_outer_round ==> !writes_layer(t),
            is_pingpong(t) && last_outer_round ==> post_fold_size <= old(self).work_buffer_cap,
    {
        let can_pingpong = self.can_pingpong(post_fold_size);
        if last_outer_round {
            if can_pingpong {
                if self.data_in_work_buffer {
                    self.data_in_work_buffer = false;
                    BufferTarget::WorkToLayer
                } else {
                    self.data_in_work_buffer = true;
                    BufferTarget::LayerToWork
                }
            } else {
                BufferTarget::InPlaceLayer
            }
        } else {
            if self.data_in_work_buffer {
                BufferTarget::InPlaceWork
            } else {
                self.data_in_work_buffer = true;
                BufferTarget::LayerToWork
            }
        }
    }

    /// Returns the buffer target of the final fold of a layer.
    ///
    /// In the last outer round the fold is in place wherever the data lives; in
    /// other rounds it goes to the work buffer so that the layer is preserved.
    pub fn final_fold_target(&self, last_outer_round: bool) -> (t: BufferTarget)
        ensures
            t == spec_final_fold_target(self.data_in_work_buffer, last_outer_round),
            reads_work(t) == self.data_in_work_buffer,
            t != BufferTarget::WorkToLayer,
            !last_outer_round ==> writes_work(t),
    {
        if last_outer_round {
            if self.data_in_work_buffer {
                BufferTarget::InPlaceWork
            } else {
                BufferTarget::InPlaceLayer
            }
        } else {
            if self.data_in_work_buffer {
                BufferTarget::InPlaceWork
            } else {
                BufferTarget::LayerToWork
            }
        }
    }
}


/// Strategy for the inner sumcheck rounds of one GKR layer.
#[derive(Debug, Clone, Copy, PartialEq, Eq, Structural)]
pub enum GkrRoundStrategy {
    /// One fused compute+fold kernel per variable.
    FoldEval,
    /// Windows of variables handled through a precomputed matrix M.
    PrecomputeM,
}

/// Ceiling division of a non-negative `a` by a positive `b`.
pub open spec fn ceil_div(a: int, b: int) -> int {
    (a + b - 1) / b
}

/// `x` limited to the range `[lo, hi]` (`lo <= hi`).
pub open spec fn clamp_spec(x: int, lo: int, hi: int) -> int {
    if x < lo {
        lo
    } else if x > hi {
        hi
    } else {
        x
    }
}

/// The larger of two integers.
pub open spec fn max_spec(a: int, b: int) -> int {
    if a >= b {
        a
    } else {
        b
    }
}

/// Number of tail blocks of the precompute-M build for `rem_n` remaining variables,
/// a window of `w` variables, and tiles of `tail_tile` tail points.
pub open spec fn spec_num_tail_blocks(rem_n: nat, w: nat, tail_tile: nat) -> int {
    ceil_div(pow2((rem_n - w) as nat) as int, tail_tile as int)
}

/// The tail tile of the precompute-M build: the override when one is given,
/// otherwise the tile that spreads the tail over about `target_blocks` blocks
/// (never fewer than `min_blocks_threshold`), clamped to the supported range.
pub open spec fn spec_build_tail_tile(
    rem_n: nat,
    w: nat,
    min_blocks_threshold: nat,
    target_blocks: nat,
    tail_tile_override: Option<usize>,
) -> int {
    match tail_tile_override {
        Some(tile) => tile as int,
        None => {
            let k = pow2((rem_n - w) as nat) as int;
            let target = max_spec(max_spec(target_blocks as int, min_blocks_threshold as int), 1);
            let desired = max_spec(ceil_div(k, target), 1);
            clamp_spec(desired, PRECOMPUTE_M_MIN_TAIL_TILE as int, PRECOMPUTE_M_TAIL_TILE as int)
        },
    }
}

/// Inputs on which the tail computations are defined: at least `w` variables
/// remain, `2^(rem_n - w)` fits in a `usize`, and an explicit tile is not zero.
pub open spec fn tail_inputs_ok(rem_n: usize, w: usize, tail_tile_override: Option<usize>) -> bool {
    &&& w <= rem_n
    &&& rem_n - w < usize::BITS
    &&& tail_tile_override matches Some(t) ==> t > 0
}

/// `2^n` as a `usize`.
fn pow2_usize(n: usize) -> (r: usize)
    requires
        n < usize::BITS,
    ensures
        r as int == pow2(n as nat),
        r >= 1,
{
    proof {
        lemma_usize_pow2_no_overflow(n as nat);
        lemma_usize_shl_is_mul(1, n);
        vstd::arithmetic::power2::lemma_pow2_pos(n as nat);
    }
    1usize << n
}

/// Ceiling division of `a` by a positive `b`, without overflow.
fn div_ceil_usize(a: usize, b: usize) -> (r: usize)
    requires
        b > 0,
    ensures
        r as int == ceil_div(a as int, b as int),
{
    let q = a / b;
    let m = a % b;
    proof {
        vstd::arithmetic::div_mod::lemma_fundamental_div_mod(a as int, b as int);
        let qq = ceil_div(a as int, b as int);
        assert(qq == (a as int + b as int - 1) / b as int);
        if m == 0 {
            vstd::arithmetic::div_mod::lemma_div_multiples_vanish_fancy(q as int, b as int - 1, b as int);
            assert(a as int + b as int - 1 == b * q + (b - 1)) by (nonlinear_arith)
                requires a == b * q + m, m == 0;
        } else {
            assert(a as int + b as int - 1 == b * (q + 1) + (m - 1)) by (nonlinear_arith)
                requires a == b * q + m;
            vstd::arithmetic::div_mod::lemma_div_multiples_vanish_fancy(q as int + 1, m as int - 1, b as int);
            assert(q < usize::MAX) by (nonlinear_arith)
                requires a == b * q + m, 0 < m < b, a <= usize::MAX;
        }
    }
    if m == 0 {
        q
    } else {
        q + 1
    }
}

/// Number of tail blocks of the precompute-M build.
pub fn precompute_m_num_tail_blocks(rem_n: usize, w: usize, tail_tile: usize) -> (r: usize)
    requires
        w <= rem_n,
        rem_n - w < usize::BITS,
        tail_tile > 0,
    ensures
        r as int == spec_num_tail_blocks(rem_n as nat, w as nat, tail_tile as nat),
{
    let tail_n = rem_n - w;
    div_ceil_usize(pow2_usize(tail_n), tail_tile)
}

/// Tail tile of the precompute-M build kernel.
pub fn precompute_m_build_tail_tile(
    rem_n: usize,
    w: usize,
    min_blocks_threshold: usize,
    target_blocks: usize,
    tail_tile_override: Option<usize>,
) -> (r: usize)
    requires
        tail_tile_override is None ==> (w <= rem_n && rem_n - w < usize::BITS),
    ensures
        r as int == spec_build_tail_tile(
            rem_n as nat,
            w as nat,
            min_blocks_threshold as nat,
            target_blocks as nat,
            tail_tile_override,
        ),
        tail_tile_override is None ==> PRECOMPUTE_M_MIN_TAIL_TILE <= r <= PRECOMPUTE_M_TAIL_TILE,
{
    if let Some(tile) = tail_tile_override {
        return tile;
    }
    let tail_n = rem_n - w;
    let k = pow2_usize(tail_n);
    let mut target = if target_blocks >= min_blocks_threshold {
        target_blocks
    } else {
        min_blocks_threshold
    };
    if target < 1 {
        target = 1;
    }
    let mut desired = div_ceil_usize(k, target);
    if desired < 1 {
        desired = 1;
    }
    if desired < PRECOMPUTE_M_MIN_TAIL_TILE {
        PRECOMPUTE_M_MIN_TAIL_TILE
    } else if desired > PRECOMPUTE_M_TAIL_TILE {
        PRECOMPUTE_M_TAIL_TILE
    } else {
        desired
    }
}

/// The window chosen for precompute-M at `rem_n` remaining variables with
/// `rounds_left` rounds before the layer's midpoint: the fixed window size when
/// enough variables and rounds remain and the tail spans at least
/// `min_blocks_threshold` blocks, none otherwise.
pub open spec fn spec_window_w(
    rem_n: usize,
    rounds_left: usize,
    min_blocks_threshold: usize,
    target_blocks: usize,
    tail_tile_override: Option<usize>,
    min_n: usize,
) -> Option<usize> {
    if rem_n < min_n || rounds_left < GKR_WINDOW_SIZE {
        None
    } else {
        let tile = spec_build_tail_tile(
            rem_n as nat,
            GKR_WINDOW_SIZE as nat,
            min_blocks_threshold as nat,
            target_blocks as nat,
            tail_tile_override,
        );
        if spec_num_tail_blocks(rem_n as nat, GKR_WINDOW_SIZE as nat, tile as nat)
            >= min_blocks_threshold {
            Some(GKR_WINDOW_SIZE)
        } else {
            None
        }
    }
}

/// Inputs on which the window choice is defined: whenever the size tests pass,
/// the tail computations must be defined.
pub open spec fn window_inputs_ok(
    rem_n: usize,
    rounds_left: usize,
    tail_tile_override: Option<usize>,
    min_n: usize,
) -> bool {
    !(rem_n < min_n || rounds_left < GKR_WINDOW_SIZE) ==> tail_inputs_ok(
        rem_n,
        GKR_WINDOW_SIZE,
        tail_tile_override,
    )
}

/// Chooses the precompute-M window size, or none when precompute-M does not pay off.
pub fn choose_precompute_m_window_w(
    rem_n: usize,
    rounds_left: usize,
    min_blocks_threshold: usize,
    target_blocks: usize,
    tail_tile_override: Option<usize>,
    min_n: usize,
) -> (r: Option<usize>)
    requires
        window_inputs_ok(rem_n, rounds_left, tail_tile_override, min_n),
    ensures
        r == spec_window_w(
            rem_n,
            rounds_left,
            min_blocks_threshold,
            target_blocks,
            tail_tile_override,
            min_n,
        ),
{
    if rem_n < min_n || rounds_left < GKR_WINDOW_SIZE {
        return None;
    }
    let w = GKR_WINDOW_SIZE;
    let tail_tile = precompute_m_build_tail_tile(
        rem_n,
        w,
        min_blocks_threshold,
        target_blocks,
        tail_tile_override,
    );
    if precompute_m_num_tail_blocks(rem_n, w, tail_tile) >= min_blocks_threshold {
        Some(w)
    } else {
        None
    }
}

/// The strategy for GKR layer `round`: precompute-M when it is enabled and a first
/// window exists at `round - 1` remaining variables, fold-eval otherwise.
pub open spec fn spec_round_strategy(
    round: usize,
    precompute_m_env: bool,
    min_blocks_threshold: usize,
    target_blocks: usize,
    tail_tile_override: Option<usize>,
    min_n: usize,
) -> GkrRoundStrategy {
    if !precompute_m_env {
        GkrRoundStrategy::FoldEval
    } else if spec_window_w(
        (round - 1) as usize,
        (ceil_div(round as int, 2) - 1) as usize,
        min_blocks_threshold,
        target_blocks,
        tail_tile_override,
        min_n,
    ) is None {
        GkrRoundStrategy::FoldEval
    } else {
        GkrRoundStrategy::PrecomputeM
    }
}

/// Inputs on which the strategy choice is defined.
pub open spec fn strategy_inputs_ok(
    round: usize,
    precompute_m_env: bool,
    tail_tile_override: Option<usize>,
    min_n: usize,
) -> bool {
    precompute_m_env ==> {
        &&& round >= 1
        &&& window_inputs_ok(
            (round - 1) as usize,
            (ceil_div(round as int, 2) - 1) as usize,
            tail_tile_override,
            min_n,
        )
    }
}

/// Chooses the inner-round strategy for GKR layer `round` (at least 1 when
/// precompute-M is enabled).
pub fn choose_round_strategy(
    round: usize,
    precompute_m_env: bool,
    precompute_m_min_blocks_threshold: usize,
    precompute_m_target_blocks: usize,
    precompute_m_tail_tile_override: Option<usize>,
    precompute_m_min_n: usize,
) -> (r: GkrRoundStrategy)
    requires
        strategy_inputs_ok(round, precompute_m_env, precompute_m_tail_tile_override, precompute_m_min_n),
    ensures
        r == spec_round_strategy(
            round,
            precompute_m_env,
            precompute_m_min_blocks_threshold,
            precompute_m_target_blocks,
            precompute_m_tail_tile_override,
            precompute_m_min_n,
        ),
{
    if !precompute_m_env {
        return GkrRoundStrategy::FoldEval;
    }
    let start_base: usize = 1;
    let stop = div_ceil_usize(round, 2);
    let rem_n = round - start_base;
    let rounds_left = stop - start_base;
    if choose_precompute_m_window_w(
        rem_n,
        rounds_left,
        precompute_m_min_blocks_threshold,
        precompute_m_target_blocks,
        precompute_m_tail_tile_override,
        precompute_m_min_n,
    ).is_none() {
        return GkrRoundStrategy::FoldEval;
    }
    GkrRoundStrategy::PrecomputeM
}

/// Targets chosen by successive fused steps with post-fold sizes `sizes`, starting
/// with the data in the work buffer iff `in_work`; paired with the final location.
pub open spec fn run_schedule(
    in_work: bool,
    cap: usize,
    sizes: Seq<usize>,
    last_outer_round: bool,
) -> (Seq<BufferTarget>, bool)
    decreases sizes.len(),
{
    if sizes.len() == 0 {
        (Seq::empty(), in_work)
    } else {
        let (t, w) = spec_next_target(in_work, cap, sizes[0], last_outer_round);
        let (rest, fin) = run_schedule(w, cap, sizes.drop_first(), last_outer_round);
        (seq![t] + rest, fin)
    }
}

/// Every step of a run meets the precondition of `next_target`.
pub open spec fn run_allowed(
    in_work: bool,
    cap: usize,
    sizes: Seq<usize>,
    last_outer_round: bool,
) -> bool
    decreases sizes.len(),
{
    if sizes.len() == 0 {
        true
    } else {
        let (t, w) = spec_next_target(in_work, cap, sizes[0], last_outer_round);
        next_target_allowed(in_work, cap, sizes[0], last_outer_round) && run_allowed(
            w,
            cap,
            sizes.drop_first(),
            last_outer_round,
        )
    }
}

/// Post-fold sizes that never grow from one step to the next.
pub open spec fn non_increasing(sizes: Seq<usize>) -> bool {
    forall|i: int, j: int| 0 <= i <= j < sizes.len() ==> sizes[j] <= sizes[i]
}

/// Law of the fold-eval schedule of one GKR layer: starting from a fresh scheduler
/// (data in the layer) and folding sizes that never grow,
/// - every step meets `next_target`'s precondition, so the in-place layer step of
///   the last outer round never finds the data in the work buffer;
/// - every step reads the buffer where the previous step left the data;
/// - outside the last outer round no step, and not the final fold, writes the layer;
/// - the final fold reads the buffer where the last step left the data.
pub proof fn lemma_fold_eval_schedule(cap: usize, sizes: Seq<usize>, last_outer_round: bool)
    requires
        non_increasing(sizes),
    ensures
        run_allowed(false, cap, sizes, last_outer_round),
        ({
            let (ts, fin) = run_schedule(false, cap, sizes, last_outer_round);
            &&& ts.len() == sizes.len()
            &&& ts.len() > 0 ==> !reads_work(ts[0])
            &&& forall|i: int| 0 < i < ts.len() ==> reads_work(#[trigger] ts[i]) == writes_work(ts[i - 1])
            &&& ts.len() > 0 ==> fin == writes_work(ts[ts.len() - 1])
            &&& !last_outer_round ==> forall|i: int| 0 <= i < ts.len() ==> !writes_layer(#[trigger] ts[i])
            &&& reads_work(spec_final_fold_target(fin, last_outer_round)) == fin
            &&& !last_outer_round ==> !writes_layer(spec_final_fold_target(fin, last_outer_round))
        }),
{
    lemma_schedule_from(false, cap, sizes, last_outer_round);
}

/// Induction for `lemma_fold_eval_schedule`, from an arbitrary start that is
/// consistent with the sizes (data in the work buffer only after a step that fit).
proof fn lemma_schedule_from(in_work: bool, cap: usize, sizes: Seq<usize>, last_outer_round: bool)
    requires
        non_increasing(sizes),
        in_work && last_outer_round && sizes.len() > 0 ==> sizes[0] <= cap,
    ensures
        run_allowed(in_work, cap, sizes, last_outer_round),
        ({
            let (ts, fin) = run_schedule(in_work, cap, sizes, last_outer_round);
            &&& ts.len() == sizes.len()
            &&& ts.len() > 0 ==> reads_work(ts[0]) == in_work
            &&& forall|i: int| 0 < i < ts.len() ==> reads_work(#[trigger] ts[i]) == writes_work(ts[i - 1])
            &&& ts.len() > 0 ==> fin == writes_work(ts[ts.len() - 1])
            &&& ts.len() == 0 ==> fin == in_work
            &&& !last_outer_round ==> forall|i: int| 0 <= i < ts.len() ==> !writes_layer(#[trigger] ts[i])
            &&& reads_work(spec_final_fold_target(fin, last_outer_round)) == fin
            &&& !last_outer_round ==> !writes_layer(spec_final_fold_target(fin, last_outer_round))
        }),
    decreases sizes.len(),
{
    if sizes.len() > 0 {
        let (t, w) = spec_next_target(in_work, cap, sizes[0], last_outer_round);
        let rest_sizes = sizes.drop_first();
        assert(non_increasing(rest_sizes)) by {
            assert forall|i: int, j: int| 0 <= i <= j < rest_sizes.len() implies rest_sizes[j] <= rest_sizes[i] by {
                assert(rest_sizes[j] == sizes[j + 1] && rest_sizes[i] == sizes[i + 1]);
            }
        }
        if w && last_outer_round && rest_sizes.len() > 0 {
            assert(rest_sizes[0] == sizes[1]);
        }
        lemma_schedule_from(w, cap, rest_sizes, last_outer_round);
        let (rest, fin) = run_schedule(w, cap, rest_sizes, last_outer_round);
        let ts = seq![t] + rest;
        assert(run_schedule(in_work, cap, sizes, last_outer_round) == (ts, fin));
        assert forall|i: int| 0 < i < ts.len() implies reads_work(#[trigger] ts[i]) == writes_work(ts[i - 1]) by {
            if i == 1 {
                assert(ts[1] == rest[0]);
            } else {
                assert(ts[i] == rest[i - 1] && ts[i - 1] == rest[i - 2]);
            }
        }
        if !last_outer_round {
            assert forall|i: int| 0 <= i < ts.len() implies !writes_layer(#[trigger] ts[i]) by {
                if i > 0 {
                    assert(ts[i] == rest[i - 1]);
                }
            }
        }
        if ts.len() > 1 {
            assert(ts[ts.len() - 1] == rest[rest.len() - 1]);
        }
    }
}

/// Size of the work buffer of the fractional sumcheck for `total_rounds` layers of
/// `total_leaves` leaves: none for at most two layers; otherwise a quarter of the
/// leaves, or, with precompute-M, the output of its first multifold but never less
/// than `2^GKR_WINDOW_DEFAULT_MIN_N` (what the fold-eval fallback rounds need).
pub open spec fn spec_work_buffer_size(total_rounds: usize, total_leaves: usize, precompute_m_env: bool) -> int {
    if total_rounds > 2 {
        if precompute_m_env {
            max_spec(
                (total_leaves as int) / pow2((2 + GKR_WINDOW_SIZE) as nat) as int,
                pow2(GKR_WINDOW_DEFAULT_MIN_N as nat) as int,
            )
        } else {
            (total_leaves as int) / 4
        }
    } else {
        0
    }
}

/// Capacity of the work buffer used by the inner rounds of the fractional sumcheck.
pub fn gkr_work_buffer_size(total_rounds: usize, total_leaves: usize, precompute_m_env: bool) -> (r: usize)
    ensures
        r as int == spec_work_buffer_size(total_rounds, total_leaves, precompute_m_env),
{
    if total_rounds > 2 {
        if precompute_m_env {
            let shifted = total_leaves >> (2 + GKR_WINDOW_SIZE);
            let floor = pow2_usize(GKR_WINDOW_DEFAULT_MIN_N);
            proof {
                vstd::bits::lemma_usize_shr_is_div(total_leaves, (2 + GKR_WINDOW_SIZE) as usize);
            }
            if shifted >= floor {
                shifted
            } else {
                floor
            }
        } else {
            proof {
                vstd::bits::lemma_usize_shr_is_div(total_leaves, 2);
                vstd::arithmetic::power2::lemma2_to64();
            }
            total_leaves >> 2
        }
    } else {
        0
    }
}

/// Law of the work buffer: in a layer below the last one (`1 <= round <=
/// total_rounds - 2`) of a GKR over `2^total_rounds` leaves, the fold-eval steps
/// write at most `2^round` elements to the work buffer and the first precompute-M
/// multifold `2^(round - 3)`; both fit the buffer that `gkr_work_buffer_size` sizes.
/// With precompute-M enabled, the fold-eval bound holds for layers up to the default
/// minimum of 22 variables or at least five below the top.
pub proof fn lemma_work_buffer_fits(total_rounds: usize, round: usize, precompute_m_env: bool)
    requires
        3 <= total_rounds < usize::BITS,
        1 <= round <= total_rounds - 2,
        precompute_m_env ==> round <= GKR_WINDOW_DEFAULT_MIN_N || round + 2 + GKR_WINDOW_SIZE
            <= total_rounds,
    ensures
        pow2(round as nat) <= spec_work_buffer_size(
            total_rounds,
            pow2(total_rounds as nat) as usize,
            precompute_m_env,
        ),
        round >= GKR_WINDOW_SIZE ==> pow2((round - GKR_WINDOW_SIZE) as nat) <= spec_work_buffer_size(
            total_rounds,
            pow2(total_rounds as nat) as usize,
            precompute_m_env,
        ),
{
    let t = total_rounds as nat;
    lemma_usize_pow2_no_overflow(t);
    let leaves = pow2(t) as usize;
    assert(leaves as int == pow2(t));
    vstd::arithmetic::power2::lemma_pow2_pos(t);
    if round >= GKR_WINDOW_SIZE {
        vstd::arithmetic::power2::lemma_pow2_strictly_increases((round - GKR_WINDOW_SIZE) as nat, round as nat);
    }
    if precompute_m_env {
        let k = (2 + GKR_WINDOW_SIZE) as nat;
        vstd::arithmetic::power2::lemma_pow2_pos(k);
        if t >= k {
            vstd::arithmetic::power2::lemma_pow2_adds((t - k) as nat, k);
            assert(pow2(t) == pow2(k) * pow2((t - k) as nat)) by {
                assert((t - k) as nat + k == t);
                vstd::arithmetic::mul::lemma_mul_is_commutative(pow2(k) as int, pow2((t - k) as nat) as int);
            }
            vstd::arithmetic::div_mod::lemma_div_multiples_vanish(pow2((t - k) as nat) as int, pow2(k) as int);
            assert((leaves as int) / pow2(k) as int == pow2((t - k) as nat));
        }
        if round <= GKR_WINDOW_DEFAULT_MIN_N {
            if round < GKR_WINDOW_DEFAULT_MIN_N {
                vstd::arithmetic::power2::lemma_pow2_strictly_increases(round as nat, GKR_WINDOW_DEFAULT_MIN_N as nat);
            }
        } else {
            if round < t - k {
                vstd::arithmetic::power2::lemma_pow2_strictly_increases(round as nat, (t - k) as nat);
            }
        }
        // the precompute-M multifold output
        if round >= GKR_WINDOW_SIZE && (round - GKR_WINDOW_SIZE) < t - k {
            vstd::arithmetic::power2::lemma_pow2_strictly_increases((round - GKR_WINDOW_SIZE) as nat, (t - k) as nat);
        }
    } else {
        vstd::arithmetic::power2::lemma_pow2_adds((t - 2) as nat, 2);
        vstd::arithmetic::power2::lemma2_to64();
        assert(pow2(t) == 4 * pow2((t - 2) as nat)) by {
            assert((t - 2) as nat + 2 == t);
            vstd::arithmetic::mul::lemma_mul_is_commutative(4, pow2((t - 2) as nat) as int);
        }
        vstd::arithmetic::div_mod::lemma_div_multiples_vanish(pow2((t - 2) as nat) as int, 4);
        assert((leaves as int) / 4 == pow2((t - 2) as nat));
        if round < t - 2 {
            vstd::arithmetic::power2::lemma_pow2_strictly_increases(round as nat, (t - 2) as nat);
        }
    }
}

/// Where the tail of the square-root eq buffer starts after dropping layers.
#[derive(Debug, Clone, Copy, PartialEq, Eq)]
pub struct EqTail {
    /// Number of variables left in the low half.
    pub low_n: usize,
    /// Number of variables left in the high half.
    pub high_n: usize,
    /// Number of entries of the low half table (`2^low_n`), 1 when the tail is empty.
    pub low_cap: usize,
    /// Total number of variables left (0 when the tail is empty).
    pub tail_n: usize,
}

/// Tail of an eq buffer with `high_n` high and `low_n` low variables after dropping
/// `drop_count` layers, taken from the high half first.
pub open spec fn spec_eq_tail(high_n: usize, low_n: usize, drop_count: usize) -> EqTail {
    let total = high_n + low_n;
    if drop_count >= total {
        EqTail { low_n: 0, high_n: 0, low_cap: 1, tail_n: 0 }
    } else if drop_count <= high_n {
        EqTail {
            low_n,
            high_n: (high_n - drop_count) as usize,
            low_cap: pow2(low_n as nat) as usize,
            tail_n: (total - drop_count) as usize,
        }
    } else {
        let l = (low_n - (drop_count - high_n)) as usize;
        EqTail { low_n: l, high_n: 0, low_cap: pow2(l as nat) as usize, tail_n: l }
    }
}

/// Layout of the eq tail left after dropping `drop_count` layers from an eq buffer
/// with `high_n` high and `low_n` low variables; an empty tail when nothing is left.
pub fn eq_tail_layout(high_n: usize, low_n: usize, drop_count: usize) -> (r: EqTail)
    requires
        high_n + low_n <= usize::MAX,
        drop_count < high_n + low_n ==> spec_eq_tail(high_n, low_n, drop_count).low_n < usize::BITS,
    ensures
        r == spec_eq_tail(high_n, low_n, drop_count),
        r.tail_n == r.low_n + r.high_n,
        r.tail_n == (if drop_count >= high_n + low_n { 0 } else { high_n + low_n - drop_count }),
{
    let mut high = high_n;
    let mut low = low_n;
    let total_n = high + low;
    if drop_count >= total_n {
        return EqTail { low_n: 0, high_n: 0, low_cap: 1, tail_n: 0 };
    }
    if drop_count <= high {
        high = high - drop_count;
    } else {
        low = low - (drop_count - high);
        high = 0;
    }
    let tail_n = low + high;
    EqTail { low_n: low, high_n: high, low_cap: pow2_usize(low), tail_n }
}

/// One window of the precompute-M strategy within a GKR layer.
#[derive(Debug, Clone, Copy, PartialEq, Eq)]
pub struct PrecomputeMWindow {
    /// Index of the first inner round handled by the window.
    pub base: usize,
    /// Variables remaining when the window starts (`round - base`).
    pub rem_n: usize,
    /// Number of inner rounds handled by the window.
    pub w: usize,
    /// Tail tile of the M-build kernel.
    pub tail_tile: usize,
    /// Number of tail blocks of the M-build kernel.
    pub num_blocks: usize,
    /// True for the first window, whose build and multifold also fold the
    /// challenge of the standalone first round.
    pub inline_fold: bool,
    /// Variables folded by the window's multifold.
    pub fold_vars: usize,
}

/// Window `i` of the precompute-M plan of GKR layer `round`, as the plan builds it.
pub open spec fn spec_window_at(
    round: usize,
    i: int,
    min_blocks_threshold: usize,
    target_blocks: usize,
    tail_tile_override: Option<usize>,
) -> PrecomputeMWindow {
    let base = 1 + GKR_WINDOW_SIZE * i;
    let rem_n = round - base;
    let tile = spec_build_tail_tile(
        rem_n as nat,
        GKR_WINDOW_SIZE as nat,
        min_blocks_threshold as nat,
        target_blocks as nat,
        tail_tile_override,
    );
    PrecomputeMWindow {
        base: base as usize,
        rem_n: rem_n as usize,
        w: GKR_WINDOW_SIZE,
        tail_tile: tile as usize,
        num_blocks: spec_num_tail_blocks(rem_n as nat, GKR_WINDOW_SIZE as nat, tile as nat) as usize,
        inline_fold: i == 0,
        fold_vars: if i == 0 { (GKR_WINDOW_SIZE + 1) as usize } else { GKR_WINDOW_SIZE },
    }
}

/// Whether a window starts at inner round `base` of GKR layer `round`.
pub open spec fn window_starts_at(
    round: usize,
    base: int,
    min_blocks_threshold: usize,
    target_blocks: usize,
    tail_tile_override: Option<usize>,
    min_n: usize,
) -> bool {
    let stop = ceil_div(round as int, 2);
    base < stop && spec_window_w(
        (round - base) as usize,
        (stop - base) as usize,
        min_blocks_threshold,
        target_blocks,
        tail_tile_override,
        min_n,
    ) is Some
}

/// Inputs on which the window plan is defined: a layer index that fits the machine
/// (its `2 << round` entries must be addressable) and no zero tile override.
pub open spec fn plan_inputs_ok(round: usize, tail_tile_override: Option<usize>) -> bool {
    &&& 1 <= round < usize::BITS
    &&& tail_tile_override matches Some(t) ==> t > 0
}

/// The windows `ws` are the first windows of the plan of GKR layer `round`: the
/// `i`-th starts at inner round `1 + GKR_WINDOW_SIZE * i` and is accepted there.
pub open spec fn plan_prefix(
    round: usize,
    ws: Seq<PrecomputeMWindow>,
    min_blocks_threshold: usize,
    target_blocks: usize,
    tail_tile_override: Option<usize>,
    min_n: usize,
) -> bool {
    forall|i: int|
        0 <= i < ws.len() ==> {
            &&& #[trigger] ws[i] == spec_window_at(
                round,
                i,
                min_blocks_threshold,
                target_blocks,
                tail_tile_override,
            )
            &&& window_starts_at(
                round,
                1 + GKR_WINDOW_SIZE * i,
                min_blocks_threshold,
                target_blocks,
                tail_tile_override,
                min_n,
            )
        }
}

/// The precompute-M windows of GKR layer `round` and the first inner round after
/// them. Windows of `GKR_WINDOW_SIZE` rounds follow each other from inner round 1
/// as long as they start before the layer's midpoint and `choose_precompute_m_window_w`
/// accepts them; the remaining inner rounds run as fold-eval rounds.
pub fn precompute_m_window_plan(
    round: usize,
    min_blocks_threshold: usize,
    target_blocks: usize,
    tail_tile_override: Option<usize>,
    min_n: usize,
) -> (r: (Vec<PrecomputeMWindow>, usize))
    requires
        plan_inputs_ok(round, tail_tile_override),
    ensures
        r.1 == 1 + GKR_WINDOW_SIZE * r.0.len(),
        plan_prefix(round, r.0@, min_blocks_threshold, target_blocks, tail_tile_override, min_n),
        !window_starts_at(
            round,
            r.1 as int,
            min_blocks_threshold,
            target_blocks,
            tail_tile_override,
            min_n,
        ),
        r.1 <= round,
        r.0.len() > 0 ==> r.1 < round,
{
    let stop = div_ceil_usize(round, 2);
    let mut windows: Vec<PrecomputeMWindow> = Vec::new();
    let mut base: usize = 1;
    let mut pending_fold = true;
    loop
        invariant_except_break
            1 <= round < usize::BITS,
            tail_tile_override matches Some(t) ==> t > 0,
            stop as int == ceil_div(round as int, 2),
            base == 1 + GKR_WINDOW_SIZE * windows.len(),
            pending_fold == (windows.len() == 0),
            base <= stop,
            windows.len() > 0 ==> stop < round,
            plan_prefix(round, windows@, min_blocks_threshold, target_blocks, tail_tile_override, min_n),
        ensures
            base == 1 + GKR_WINDOW_SIZE * windows.len(),
            base <= round,
            windows.len() > 0 ==> base < round,
            plan_prefix(round, windows@, min_blocks_threshold, target_blocks, tail_tile_override, min_n),
            !window_starts_at(
                round,
                base as int,
                min_blocks_threshold,
                target_blocks,
                tail_tile_override,
                min_n,
            ),
        decreases stop - base,
    {
        if base >= stop {
            break;
        }
        let rem_n = round - base;
        let rounds_left = stop - base;
        let chosen = choose_precompute_m_window_w(
            rem_n,
            rounds_left,
            min_blocks_threshold,
            target_blocks,
            tail_tile_override,
            min_n,
        );
        match chosen {
            None => {
                break;
            },
            Some(w) => {
                let tail_tile = precompute_m_build_tail_tile(
                    rem_n,
                    w,
                    min_blocks_threshold,
                    target_blocks,
                    tail_tile_override,
                );
                let num_blocks = precompute_m_num_tail_blocks(rem_n, w, tail_tile);
                let fold_vars = if pending_fold { w + 1 } else { w };
                let window = PrecomputeMWindow {
                    base,
                    rem_n,
                    w,
                    tail_tile,
                    num_blocks,
                    inline_fold: pending_fold,
                    fold_vars,
                };
                let ghost old_windows = windows@;
                windows.push(window);
                proof {
                    let k = old_windows.len() as int;
                    assert(window == spec_window_at(
                        round,
                        k,
                        min_blocks_threshold,
                        target_blocks,
                        tail_tile_override,
                    ));
                    assert(window_starts_at(
                        round,
                        base as int,
                        min_blocks_threshold,
                        target_blocks,
                        tail_tile_override,
                        min_n,
                    ));
                    assert forall|i: int| 0 <= i < windows@.len() implies {
                        &&& #[trigger] windows@[i] == spec_window_at(
                            round,
                            i,
                            min_blocks_threshold,
                            target_blocks,
                            tail_tile_override,
                        )
                        &&& window_starts_at(
                            round,
                            1 + GKR_WINDOW_SIZE * i,
                            min_blocks_threshold,
                            target_blocks,
                            tail_tile_override,
                            min_n,
                        )
                    } by {
                        if i < k {
                            assert(windows@[i] == old_windows[i]);
                        }
                    }
                }
                pending_fold = false;
                base = base + w;
            },
        }
    }
    (windows, base)
}

/// Total number of variables folded by the windows of a plan.
pub open spec fn windows_fold_vars(ws: Seq<PrecomputeMWindow>) -> int
    decreases ws.len(),
{
    if ws.len() == 0 {
        0
    } else {
        windows_fold_vars(ws.drop_last()) + ws.last().fold_vars
    }
}

/// Law of the precompute-M plan of a GKR layer: when its first window exists (that
/// is, when `choose_round_strategy` selects precompute-M), the windows fold exactly
/// the variables of the inner rounds before the tail (the first round's pending
/// fold included), the tail is not empty, and together with the tail's one fold per
/// round every one of the layer's `round` variables is folded exactly once.
pub proof fn lemma_precompute_m_plan_folds_all(
    round: usize,
    windows: Seq<PrecomputeMWindow>,
    tail_start: usize,
    min_blocks_threshold: usize,
    target_blocks: usize,
    tail_tile_override: Option<usize>,
    min_n: usize,
)
    requires
        windows.len() >= 1,
        tail_start == 1 + GKR_WINDOW_SIZE * windows.len(),
        tail_start < round,
        plan_prefix(round, windows, min_blocks_threshold, target_blocks, tail_tile_override, min_n),
    ensures
        windows_fold_vars(windows) == tail_start,
        windows_fold_vars(windows) + (round - tail_start) == round,
{
    assert forall|i: int| 0 <= i < windows.len() implies #[trigger] windows[i] == spec_window_at(
        round,
        i,
        min_blocks_threshold,
        target_blocks,
        tail_tile_override,
    ) by {}
    lemma_windows_fold_vars_prefix(round, windows, min_blocks_threshold, target_blocks, tail_tile_override);
}

/// Law linking the strategy choice to the window plan: whenever
/// `choose_round_strategy` selects precompute-M for GKR layer `round`, a window
/// starts at inner round 1, so the plan of that layer has at least one window.
pub proof fn lemma_precompute_m_strategy_has_window(
    round: usize,
    min_blocks_threshold: usize,
    target_blocks: usize,
    tail_tile_override: Option<usize>,
    min_n: usize,
)
    requires
        round >= 1,
        spec_round_strategy(
            round,
            true,
            min_blocks_threshold,
            target_blocks,
            tail_tile_override,
            min_n,
        ) == GkrRoundStrategy::PrecomputeM,
    ensures
        window_starts_at(round, 1, min_blocks_threshold, target_blocks, tail_tile_override, min_n),
{
}

/// How the segment tree of the fractional sumcheck is built, layer by layer.
#[derive(Debug, Clone)]
pub struct TreeBuildPlan {
    /// True when layers 0 and 1 are built by the fused bit-reversal kernel; false
    /// when a bit reversal and a single-layer build make layer 0.
    pub fused_first_two: bool,
    /// First layer built by the two-layer kernel.
    pub start_layer: usize,
    /// The `half_i1` argument of each two-layer kernel launch, in order.
    pub two_layer_halves: Vec<usize>,
    /// Size of the last layer when one layer is left over for a single-layer build.
    pub single_layer_size: Option<usize>,
}

/// Plan for building the segment tree over `2^total_rounds` leaves. The fused
/// bit-reversal kernel builds the first two layers when there are more than 1024
/// leaves and the caller allows it; the remaining layers are built two at a time,
/// and a last single layer when their number is odd.
pub fn segment_tree_build_plan(total_rounds: usize, fused_kernel_allowed: bool) -> (r: TreeBuildPlan)
    requires
        1 <= total_rounds < usize::BITS,
    ensures
        r.fused_first_two == (pow2(total_rounds as nat) > 1024 && fused_kernel_allowed),
        r.start_layer == (if r.fused_first_two { 2usize } else { 1usize }),
        r.start_layer + 2 * r.two_layer_halves.len() + (if r.single_layer_size is Some { 1int } else { 0int })
            == max_spec(total_rounds as int, r.start_layer as int),
        forall|k: int|
            0 <= k < r.two_layer_halves.len() ==> #[trigger] r.two_layer_halves[k] as int == pow2(
                (total_rounds - (r.start_layer + 2 * k) - 2) as nat,
            ),
        r.single_layer_size matches Some(sz) ==> sz as int == pow2(
            (total_rounds - (r.start_layer + 2 * r.two_layer_halves.len())) as nat,
        ),
{
    let total_leaves = pow2_usize(total_rounds);
    proof {
        vstd::arithmetic::power2::lemma2_to64();
        if total_rounds > 10 {
            vstd::arithmetic::power2::lemma_pow2_strictly_increases(10, total_rounds as nat);
        } else {
            if total_rounds < 10 {
                vstd::arithmetic::power2::lemma_pow2_strictly_increases(total_rounds as nat, 10);
            }
        }
    }
    let fused = total_leaves > 1024 && fused_kernel_allowed;
    let start: usize = if fused { 2 } else { 1 };
    let mut halves: Vec<usize> = Vec::new();
    let mut i: usize = start;
    while i + 1 < total_rounds
        invariant
            1 <= total_rounds < usize::BITS,
            start <= i,
            i == start + 2 * halves.len(),
            start == 1 || (start == 2 && total_rounds > 10),
            forall|k: int|
                0 <= k < halves.len() ==> #[trigger] halves[k] as int == pow2(
                    (total_rounds - (start + 2 * k) - 2) as nat,
                ),
            i <= total_rounds || (halves.len() == 0 && i == start),
        decreases total_rounds - i,
    {
        let half_i1 = pow2_usize(total_rounds - (i + 2));
        halves.push(half_i1);
        i = i + 2;
    }
    let single = if i < total_rounds {
        Some(pow2_usize(total_rounds - i))
    } else {
        None
    };
    TreeBuildPlan {
        fused_first_two: fused,
        start_layer: start,
        two_layer_halves: halves,
        single_layer_size: single,
    }
}

proof fn lemma_windows_fold_vars_prefix(
    round: usize,
    windows: Seq<PrecomputeMWindow>,
    min_blocks_threshold: usize,
    target_blocks: usize,
    tail_tile_override: Option<usize>,
)
    requires
        forall|i: int| 0 <= i < windows.len() ==> windows[i] == spec_window_at(
            round,
            i,
            min_blocks_threshold,
            target_blocks,
            tail_tile_override,
        ),
    ensures
        windows_fold_vars(windows) == if windows.len() == 0 { 0 } else { 1 + GKR_WINDOW_SIZE * windows.len() },
    decreases windows.len(),
{
    if windows.len() > 0 {
        let prefix = windows.drop_last();
        assert forall|i: int| 0 <= i < prefix.len() implies prefix[i] == spec_window_at(
            round,
            i,
            min_blocks_threshold,
            target_blocks,
            tail_tile_override,
        ) by {
            assert(prefix[i] == windows[i]);
        }
        lemma_windows_fold_vars_prefix(round, prefix, min_blocks_threshold, target_blocks, tail_tile_override);
        assert(windows.last() == windows[windows.len() - 1]);
    }
}

} // verus!
