//! Launch shape of the logup GKR input evaluation: tiling of a trace's rows over
//! the device tasks and the lifting of short traces to the skip domain.

use vstd::arithmetic::power2::pow2;
use vstd::prelude::*;

use crate::gkr_schedule::{ceil_div, max_spec};

verus! {

/// Number of device tasks the rows of a trace are spread over.
pub const TASK_SIZE: u32 = 65536;

/// Largest per-task intermediate buffer kept in registers; larger ones go to a
/// global scratch buffer.
pub const LOCAL_BUFFER_LIMIT: u32 = 10;

/// Launch shape of the input evaluation of one trace.
#[derive(Debug, Clone, Copy, PartialEq, Eq)]
pub struct GkrInputShape {
    /// Whether the intermediates live in a global scratch buffer.
    pub is_global: bool,
    /// Length of the scratch buffer of intermediates.
    pub intermediates_len: usize,
    /// Rows handled by one task.
    pub rows_per_tile: usize,
    /// Height of the trace once lifted to the skip domain.
    pub lifted_height: usize,
    /// Factor by which each row is repeated when the trace is shorter than the skip
    /// domain (its inverse scales the numerators); `None` when no lift is needed.
    pub repeat_factor: Option<usize>,
}

/// The launch shape of a trace of `height` rows whose interaction rules need
/// `buffer_size` intermediates, with a skip domain of `2^l_skip` rows.
pub open spec fn spec_gkr_input_shape(height: usize, buffer_size: u32, l_skip: usize) -> GkrInputShape {
    let is_global = buffer_size > LOCAL_BUFFER_LIMIT;
    let lifted = max_spec(height as int, pow2(l_skip as nat) as int);
    GkrInputShape {
        is_global,
        intermediates_len: if is_global { (TASK_SIZE * buffer_size) as usize } else { 1 },
        rows_per_tile: max_spec(ceil_div(height as int, TASK_SIZE as int), 1) as usize,
        lifted_height: lifted as usize,
        repeat_factor: if lifted != height { Some((lifted / (height as int)) as usize) } else { None },
    }
}

/// Computes the launch shape of the input evaluation of one trace.
pub fn gkr_input_shape(height: usize, buffer_size: u32, l_skip: usize) -> (r: GkrInputShape)
    requires
        height > 0,
        l_skip < usize::BITS,
        buffer_size > LOCAL_BUFFER_LIMIT ==> TASK_SIZE * buffer_size <= usize::MAX,
    ensures
        r == spec_gkr_input_shape(height, buffer_size, l_skip),
        r.lifted_height >= height,
        r.rows_per_tile >= 1,
        r.is_global == (buffer_size > 10),
        r.intermediates_len == if buffer_size > 10 { 65536 * buffer_size } else { 1 },
        (r.rows_per_tile - 1) * 65536 < height <= r.rows_per_tile * 65536,
        r.lifted_height == if height >= pow2(l_skip as nat) { height as int } else { pow2(l_skip as nat) as int },
        r.repeat_factor is None <==> r.lifted_height == height,
        r.repeat_factor matches Some(f) ==> f * height <= r.lifted_height < (f + 1) * height,
        r.repeat_factor matches Some(f) ==> (exists|k: nat| pow2(k) == height) ==> f * height == r.lifted_height,
{
    let is_global = buffer_size > LOCAL_BUFFER_LIMIT;
    let intermediates_len: usize = if is_global {
        (TASK_SIZE as usize) * (buffer_size as usize)
    } else {
        1
    };
    let q = height / (TASK_SIZE as usize);
    let tiles = if height % (TASK_SIZE as usize) == 0 {
        q
    } else {
        q + 1
    };
    proof {
        vstd::arithmetic::div_mod::lemma_fundamental_div_mod(height as int, TASK_SIZE as int);
        let t = TASK_SIZE as int;
        if height % (TASK_SIZE as usize) == 0 {
            vstd::arithmetic::div_mod::lemma_div_multiples_vanish_fancy(q as int, t - 1, t);
            assert(height as int + t - 1 == t * q + (t - 1)) by (nonlinear_arith)
                requires height as int == t * q + height as int % t, height as int % t == 0;
        } else {
            let m = height as int % t;
            assert(height as int + t - 1 == t * (q + 1) + (m - 1)) by (nonlinear_arith)
                requires height as int == t * q + m;
            vstd::arithmetic::div_mod::lemma_div_multiples_vanish_fancy(q as int + 1, m - 1, t);
        }
    }
    let rows_per_tile = if tiles >= 1 {
        tiles
    } else {
        1
    };
    proof {
        vstd::bits::lemma_usize_pow2_no_overflow(l_skip as nat);
        vstd::bits::lemma_usize_shl_is_mul(1, l_skip);
    }
    let skip_rows: usize = 1usize << l_skip;
    let lifted_height = if height >= skip_rows {
        height
    } else {
        skip_rows
    };
    let repeat_factor = if lifted_height != height {
        Some(lifted_height / height)
    } else {
        None
    };
    proof {
        if lifted_height != height {
            let f = lifted_height / height;
            vstd::arithmetic::div_mod::lemma_fundamental_div_mod(lifted_height as int, height as int);
            assert(f * height <= lifted_height < (f + 1) * height) by (nonlinear_arith)
                requires
                    lifted_height as int == height * f + (lifted_height as int % (height as int)),
                    0 <= (lifted_height as int % (height as int)) < height;
            if exists|k: nat| pow2(k) == height {
                let k = choose|k: nat| pow2(k) == height;
                lemma_pow2_divides(k, l_skip as nat);
                vstd::arithmetic::div_mod::lemma_div_multiples_vanish(
                    pow2((l_skip - k) as nat) as int,
                    height as int,
                );
                assert(pow2((l_skip - k) as nat) * pow2(k) == pow2(k) * pow2((l_skip - k) as nat)) by (nonlinear_arith);
            }
        }
    }
    GkrInputShape { is_global, intermediates_len, rows_per_tile, lifted_height, repeat_factor }
}

/// `2^l = 2^(l - k) 2^k` when `2^k < 2^l`.
proof fn lemma_pow2_divides(k: nat, l: nat)
    requires
        pow2(k) < pow2(l),
    ensures
        k < l,
        pow2(l) == pow2(k) * pow2((l - k) as nat),
{
    if k >= l {
        if k > l {
            vstd::arithmetic::power2::lemma_pow2_strictly_increases(l, k);
        }
    }
    vstd::arithmetic::power2::lemma_pow2_adds(k, (l - k) as nat);
}

/// Law of the lift: a trace whose height is a power of two is lifted to exactly
/// `repeat_factor` copies of each row, `repeat_factor * height == lifted_height`,
/// and the lifted height is the larger of the height and the skip domain.
pub proof fn lemma_lift_is_exact_repeat(height: usize, buffer_size: u32, l_skip: usize, k: nat)
    requires
        pow2(k) == height,
        l_skip < usize::BITS,
    ensures
        ({
            let r = spec_gkr_input_shape(height, buffer_size, l_skip);
            &&& r.lifted_height >= height
            &&& r.lifted_height >= pow2(l_skip as nat)
            &&& (r.repeat_factor matches Some(f) ==> f * height == r.lifted_height)
            &&& (r.repeat_factor is None ==> r.lifted_height == height)
        }),
{
    vstd::bits::lemma_usize_pow2_no_overflow(l_skip as nat);
    vstd::arithmetic::power2::lemma_pow2_pos(k);
    let lifted = max_spec(height as int, pow2(l_skip as nat) as int);
    if lifted != height {
        lemma_pow2_divides(k, l_skip as nat);
        vstd::arithmetic::div_mod::lemma_div_multiples_vanish(pow2((l_skip - k) as nat) as int, height as int);
        assert(pow2((l_skip - k) as nat) * pow2(k) == pow2(k) * pow2((l_skip - k) as nat)) by (nonlinear_arith);
    }
}

/// Where a column of an unstacked matrix sits in the stacked matrix.
#[derive(Debug, Clone, Copy, PartialEq, Eq, Structural)]
pub struct StackedSlice {
    pub col_idx: usize,
    pub row_idx: usize,
    pub log_height: usize,
}

/// A trace with interactions, with the stacked slice of each of its interaction
/// columns.
#[derive(Debug, Clone)]
pub struct TraceInteractionMeta {
    pub trace_idx: usize,
    pub air_idx: usize,
    pub layout_slices: Vec<StackedSlice>,
}

/// The slice listed last for interaction `i` of trace `t` among the first `k`
/// entries `(trace, interaction, slice)` of the stacked layout.
pub open spec fn last_slice(cols: Seq<(usize, usize, StackedSlice)>, t: int, i: int, k: int) -> Option<StackedSlice>
    decreases k,
{
    if k <= 0 {
        None
    } else if cols[k - 1].0 == t && cols[k - 1].1 == i {
        Some(cols[k - 1].2)
    } else {
        last_slice(cols, t, i, k - 1)
    }
}

/// Number of interactions of the AIR of trace `t`.
pub open spec fn trace_num_interactions(trace_airs: Seq<usize>, air_num_interactions: Seq<usize>, t: int) -> int {
    air_num_interactions[trace_airs[t] as int] as int
}

/// Every AIR index is valid and every interaction of every trace has a slice in
/// the layout (a missing slice is a broken layout).
pub open spec fn interaction_layout_complete(
    trace_airs: Seq<usize>,
    air_num_interactions: Seq<usize>,
    cols: Seq<(usize, usize, StackedSlice)>,
) -> bool {
    &&& forall|t: int| 0 <= t < trace_airs.len() ==> (#[trigger] trace_airs[t]) < air_num_interactions.len()
    &&& forall|t: int, i: int|
        0 <= t < trace_airs.len() && 0 <= i < trace_num_interactions(trace_airs, air_num_interactions, t)
            ==> (#[trigger] last_slice(cols, t, i, cols.len() as int)) is Some
}

/// For each trace (given by the index of its AIR), the slices of its interaction
/// columns in the stacked layout `sorted_cols` of `(trace, interaction, slice)`
/// entries; `None` for a trace whose AIR has no interactions. When an entry is
/// listed twice, the later one counts.
pub fn collect_trace_interactions(
    trace_airs: &Vec<usize>,
    air_num_interactions: &Vec<usize>,
    sorted_cols: &Vec<(usize, usize, StackedSlice)>,
) -> (r: Vec<Option<TraceInteractionMeta>>)
    requires
        interaction_layout_complete(trace_airs@, air_num_interactions@, sorted_cols@),
    ensures
        r@.len() == trace_airs@.len(),
        forall|t: int|
            0 <= t < r@.len() ==> (#[trigger] r@[t] is None <==> trace_num_interactions(
                trace_airs@,
                air_num_interactions@,
                t,
            ) == 0),
        forall|t: int|
            0 <= t < r@.len() && r@[t] is Some ==> {
                let meta = (#[trigger] r@[t])->0;
                &&& meta.trace_idx == t
                &&& meta.air_idx == trace_airs@[t]
                &&& meta.layout_slices@.len() == trace_num_interactions(trace_airs@, air_num_interactions@, t)
                &&& forall|i: int|
                    0 <= i < meta.layout_slices@.len() ==> Some(#[trigger] meta.layout_slices@[i]) == last_slice(
                        sorted_cols@,
                        t,
                        i,
                        sorted_cols@.len() as int,
                    )
            },
{
    let mut out: Vec<Option<TraceInteractionMeta>> = Vec::new();
    let mut t: usize = 0;
    while t < trace_airs.len()
        invariant
            interaction_layout_complete(trace_airs@, air_num_interactions@, sorted_cols@),
            t <= trace_airs@.len(),
            out@.len() == t,
            forall|u: int|
                0 <= u < t ==> (#[trigger] out@[u] is None <==> trace_num_interactions(
                    trace_airs@,
                    air_num_interactions@,
                    u,
                ) == 0),
            forall|u: int|
                0 <= u < t && out@[u] is Some ==> {
                    let meta = (#[trigger] out@[u])->0;
                    &&& meta.trace_idx == u
                    &&& meta.air_idx == trace_airs@[u]
                    &&& meta.layout_slices@.len() == trace_num_interactions(trace_airs@, air_num_interactions@, u)
                    &&& forall|i: int|
                        0 <= i < meta.layout_slices@.len() ==> Some(#[trigger] meta.layout_slices@[i])
                            == last_slice(sorted_cols@, u, i, sorted_cols@.len() as int)
                },
        decreases trace_airs@.len() - t,
    {
        let air_idx = trace_airs[t];
        let n = air_num_interactions[air_idx];
        if n == 0 {
            out.push(None);
        } else {
            let mut slots: Vec<Option<StackedSlice>> = Vec::new();
            let mut i: usize = 0;
            while i < n
                invariant
                    i <= n,
                    slots@.len() == i,
                    forall|j: int| 0 <= j < i ==> #[trigger] slots@[j] is None,
                decreases n - i,
            {
                slots.push(None);
                i = i + 1;
            }
            let mut k: usize = 0;
            while k < sorted_cols.len()
                invariant
                    k <= sorted_cols@.len(),
                    slots@.len() == n,
                    forall|j: int| 0 <= j < n ==> #[trigger] slots@[j] == last_slice(sorted_cols@, t as int, j, k as int),
                decreases sorted_cols@.len() - k,
            {
                let (ct, ci, slice) = sorted_cols[k];
                if ct == t && ci < n {
                    slots.set(ci, Some(slice));
                }
                k = k + 1;
            }
            let mut slices: Vec<StackedSlice> = Vec::new();
            let mut j: usize = 0;
            while j < n
                invariant
                    interaction_layout_complete(trace_airs@, air_num_interactions@, sorted_cols@),
                    t < trace_airs@.len(),
                    n == trace_num_interactions(trace_airs@, air_num_interactions@, t as int),
                    j <= n,
                    slots@.len() == n,
                    slices@.len() == j,
                    forall|x: int| 0 <= x < n ==> #[trigger] slots@[x] == last_slice(sorted_cols@, t as int, x, sorted_cols@.len() as int),
                    forall|x: int| 0 <= x < j ==> Some(#[trigger] slices@[x]) == slots@[x],
                decreases n - j,
            {
                assert(last_slice(sorted_cols@, t as int, j as int, sorted_cols@.len() as int) is Some);
                let s = slots[j].unwrap();
                slices.push(s);
                j = j + 1;
            }
            out.push(Some(TraceInteractionMeta { trace_idx: t, air_idx, layout_slices: slices }));
        }
        t = t + 1;
    }
    out
}

/// Where the input evaluation of a trace writes its leaves: the row of its first
/// interaction slice, which must start the stacked matrix's first column.
pub fn gkr_input_destination(meta: &TraceInteractionMeta) -> (r: Result<usize, GkrInputLayoutError>)
    requires
        meta.layout_slices@.len() > 0,
    ensures
        r is Err <==> meta.layout_slices@[0].col_idx != 0,
        r matches Ok(row) ==> row == meta.layout_slices@[0].row_idx,
        r is Err ==> r == Err::<usize, GkrInputLayoutError>(GkrInputLayoutError::Layout),
{
    let slice = meta.layout_slices[0];
    if slice.col_idx != 0 {
        return Err(GkrInputLayoutError::Layout);
    }
    Ok(slice.row_idx)
}

/// The interaction slices do not start the stacked matrix's first column.
#[derive(Debug, Clone, Copy, PartialEq, Eq, Structural)]
pub enum GkrInputLayoutError {
    Layout,
}

/// True when no trace has interactions: the GKR input is then empty.
pub fn gkr_input_is_empty(metas: &Vec<Option<TraceInteractionMeta>>) -> (r: bool)
    ensures
        r == forall|t: int| 0 <= t < metas@.len() ==> #[trigger] metas@[t] is None,
{
    let mut t: usize = 0;
    while t < metas.len()
        invariant
            t <= metas@.len(),
            forall|u: int| 0 <= u < t ==> #[trigger] metas@[u] is None,
        decreases metas@.len() - t,
    {
        if metas[t].is_some() {
            return false;
        }
        t = t + 1;
    }
    true
}

} // verus!
