//! Launch planning of the KoalaBear NTT and its small-domain host fallback.

use vstd::arithmetic::power2::pow2;
use p3_dft::TwoAdicSubgroupDft;
use p3_field::PrimeField32;
use vstd::prelude::*;

use crate::kb_field::KB_P;
use crate::launch_checks::{LaunchError, MAX_CUDA_KB_NTT_LOG_DOMAIN_SIZE, MAX_SMALL_NTT_LEVEL};

verus! {

/// Log2 of the window size of the KoalaBear partial twiddle table.
pub const KB_LG_WINDOW_SIZE: u32 = (MAX_CUDA_KB_NTT_LOG_DOMAIN_SIZE + 4) / 5;

/// Window size of the KoalaBear partial twiddle table.
pub const KB_WINDOW_SIZE: u32 = 32;

/// Number of windows of the KoalaBear partial twiddle table.
pub const KB_WINDOW_NUM: u32 = (MAX_CUDA_KB_NTT_LOG_DOMAIN_SIZE + KB_LG_WINDOW_SIZE - 1) / KB_LG_WINDOW_SIZE;

/// Number of entries of the KoalaBear radix twiddle table (radices 32 to 512).
pub const KB_RADIX_TWIDDLES_SIZE: u32 = 32 + 64 + 128 + 256 + 512;

/// Largest number of butterfly levels one mixed-radix step handles.
pub const MAX_NTT_STEP_ITERATIONS: u32 = 10;

/// Generators of the two-adic subgroups of KoalaBear of orders `2^0` to `2^10`, as
/// the field's table of two-adic generators lists them.
pub const KB_TWO_ADIC_GENERATORS: [u32; 11] = [
    0x1, 0x7f000000, 0x7e010002, 0x6832fe4a, 0x8dbd69c, 0xa28f031, 0x5c4a5b99, 0x29b75a80,
    0x17668b8a, 0x27ad539b, 0x334d48c7,
];

/// `x^e` modulo the KoalaBear prime.
pub open spec fn kb_pow(x: int, e: nat) -> int
    decreases e,
{
    if e == 0 {
        1
    } else {
        (x * kb_pow(x, (e - 1) as nat)) % (KB_P as int)
    }
}

/// The generator of the two-adic subgroup of order `n` (a power of two up to `2^10`).
pub open spec fn subgroup_generator(n: int) -> int {
    KB_TWO_ADIC_GENERATORS@[(choose|k: nat| k <= 10 && pow2(k) == n) as int] as int
}

/// `sum_{j < k} c_j w^(i j)` modulo the KoalaBear prime.
pub open spec fn eval_sum(c: Seq<u32>, w: int, i: int, k: int) -> int
    decreases k,
{
    if k <= 0 {
        0
    } else {
        (eval_sum(c, w, i, k - 1) + c[k - 1] * kb_pow(w, (i * (k - 1)) as nat)) % (KB_P as int)
    }
}

/// The DFT over the KoalaBear field of the polynomial with coefficients `coeffs`:
/// its evaluations at `w^0, w^1, ..., w^(n-1)`, with `w` the generator of the
/// subgroup of order `n = coeffs.len()`.
#[verifier::opaque]
pub open spec fn kb_dft_values(coeffs: Seq<u32>) -> Seq<u32> {
    let n = coeffs.len() as int;
    let w = subgroup_generator(n);
    Seq::new(coeffs.len(), |i: int| eval_sum(coeffs, w, i, n) as u32)
}

/// The inverse DFT over the KoalaBear field of the evaluations `evals` on the
/// subgroup of order `n = evals.len()`: `n^(-1) sum_j e_j w^(-i j)`, where `w^(-1)`
/// is `w^(n-1)` and `n^(-1)` is `n^(p-2)`.
#[verifier::opaque]
pub open spec fn kb_idft_values(evals: Seq<u32>) -> Seq<u32> {
    let n = evals.len() as int;
    let w_inv = kb_pow(subgroup_generator(n), (n - 1) as nat);
    let n_inv = kb_pow(n, (KB_P - 2) as nat);
    Seq::new(evals.len(), |i: int| ((n_inv * eval_sum(evals, w_inv, i, n)) % (KB_P as int)) as u32)
}

/// A length the DFT accepts: a power of two, at most the small-NTT limit.
pub open spec fn small_pow2_len(n: int) -> bool {
    exists|k: nat| k <= 10 && #[trigger] pow2(k) == n
}

/// Arguments of one mixed-radix NTT kernel launch.
#[derive(Debug, Clone, Copy, PartialEq, Eq)]
pub struct NttStepLaunch {
    /// Radix of the kernel (at least 6).
    pub radix: u32,
    /// Number of butterfly levels already done before this step.
    pub stage: u32,
    /// Number of butterfly levels done by this step.
    pub iterations: u32,
}

/// Radix used for a step of `iterations` levels: the kernel has no radix below 6.
pub open spec fn spec_step_radix(iterations: u32) -> u32 {
    if iterations < 6 {
        6
    } else {
        iterations
    }
}

/// State of a KoalaBear mixed-radix NTT over one buffer: the launch arguments that
/// stay fixed and the number of levels done so far.
#[derive(Debug, Clone, Copy)]
pub struct KbNttImpl {
    /// Log2 of the transform size.
    pub lg_domain_size: u32,
    /// Distance between consecutive polynomials in the buffer.
    pub padded_poly_size: u32,
    /// Number of polynomials transformed together.
    pub poly_count: u32,
    /// True for the inverse transform.
    pub is_intt: bool,
    /// Number of butterfly levels done so far.
    pub stage: u32,
}

impl KbNttImpl {
    /// Starts a transform with no level done.
    pub fn new(lg_domain_size: u32, padded_poly_size: u32, poly_count: u32, is_intt: bool) -> (s: Self)
        ensures
            s.lg_domain_size == lg_domain_size,
            s.padded_poly_size == padded_poly_size,
            s.poly_count == poly_count,
            s.is_intt == is_intt,
            s.stage == 0,
    {
        KbNttImpl { lg_domain_size, padded_poly_size, poly_count, is_intt, stage: 0 }
    }

    /// The launch of the next step of `iterations` levels; the stage advances by them.
    pub fn step(&mut self, iterations: u32) -> (l: NttStepLaunch)
        requires
            iterations <= MAX_NTT_STEP_ITERATIONS,
            old(self).stage + iterations <= u32::MAX,
        ensures
            l == (NttStepLaunch {
                radix: spec_step_radix(iterations),
                stage: old(self).stage,
                iterations,
            }),
            final(self).stage == old(self).stage + iterations,
            final(self).lg_domain_size == old(self).lg_domain_size,
            final(self).padded_poly_size == old(self).padded_poly_size,
            final(self).poly_count == old(self).poly_count,
            final(self).is_intt == old(self).is_intt,
    {
        let radix = if iterations < 6 { 6 } else { iterations };
        let launch = NttStepLaunch { radix, stage: self.stage, iterations };
        self.stage = self.stage + iterations;
        launch
    }
}

/// Levels done by each step of a transform of log size `h`: one step up to 10
/// levels, two nearly equal steps up to 17, three steps beyond (the last one taking
/// the remainder).
pub open spec fn spec_step_iterations(h: u32) -> Seq<u32> {
    if h <= 10 {
        seq![h]
    } else if h <= 17 {
        seq![(h / 2 + h % 2) as u32, (h / 2) as u32]
    } else {
        seq![(h / 3) as u32, (h / 3) as u32, (h / 3 + h % 3) as u32]
    }
}

/// Sum of a sequence of step sizes.
pub open spec fn sum_u32(s: Seq<u32>) -> int
    decreases s.len(),
{
    if s.len() == 0 {
        0
    } else {
        sum_u32(s.drop_last()) + s.last()
    }
}

/// The launches of a KoalaBear batch NTT.
#[derive(Debug, Clone)]
pub struct KbNttPlan {
    /// True when a bit-reversal permutation runs before the butterflies.
    pub bit_reverse: bool,
    /// Distance between consecutive columns (`2^(log_trace_height + log_blowup)`).
    pub padded_poly_size: u32,
    /// The mixed-radix steps, in order.
    pub steps: Vec<NttStepLaunch>,
}

/// Plans a column-wise KoalaBear batch NTT of log height `log_trace_height` over
/// columns padded to `2^(log_trace_height + log_blowup)`: nothing for height 1,
/// otherwise an optional bit reversal followed by the mixed-radix steps.
pub fn batch_ntt_kb_plan(log_trace_height: u32, log_blowup: u32, bit_reverse: bool) -> (r: Option<KbNttPlan>)
    requires
        log_trace_height <= MAX_CUDA_KB_NTT_LOG_DOMAIN_SIZE,
        log_trace_height + log_blowup < 32,
    ensures
        r is None <==> log_trace_height == 0,
        r matches Some(p) ==> {
            &&& p.bit_reverse == bit_reverse
            &&& p.padded_poly_size as int == pow2((log_trace_height + log_blowup) as nat)
            &&& p.steps.len() == spec_step_iterations(log_trace_height).len()
            &&& forall|i: int|
                0 <= i < p.steps.len() ==> (#[trigger] p.steps[i]).iterations == spec_step_iterations(
                    log_trace_height,
                )[i] && p.steps[i].radix == spec_step_radix(p.steps[i].iterations)
            &&& p.steps[0].stage == 0
            &&& forall|i: int|
                0 < i < p.steps.len() ==> (#[trigger] p.steps[i]).stage == p.steps[i - 1].stage
                    + p.steps[i - 1].iterations
            &&& p.steps@.last().stage + p.steps@.last().iterations == log_trace_height
            &&& forall|i: int|
                0 <= i < p.steps.len() ==> 1 <= (#[trigger] p.steps[i]).iterations
                    <= MAX_NTT_STEP_ITERATIONS
        },
{
    if log_trace_height == 0 {
        return None;
    }
    let shift = log_trace_height + log_blowup;
    proof {
        vstd::bits::lemma_u32_pow2_no_overflow(shift as nat);
        vstd::bits::lemma_u32_shl_is_mul(1, shift);
    }
    let padded_poly_size: u32 = 1u32 << shift;
    let mut ntt = KbNttImpl::new(log_trace_height, padded_poly_size, 0, false);
    let mut steps: Vec<NttStepLaunch> = Vec::new();
    let h = log_trace_height;
    if h <= 10 {
        steps.push(ntt.step(h));
    } else if h <= 17 {
        let step = h / 2;
        steps.push(ntt.step(step + h % 2));
        steps.push(ntt.step(step));
    } else {
        let step = h / 3;
        let rem = h % 3;
        steps.push(ntt.step(step));
        steps.push(ntt.step(step));
        steps.push(ntt.step(step + rem));
    }
    Some(KbNttPlan { bit_reverse, padded_poly_size, steps })
}

/// Law of the NTT plan: the steps of every transform of log size `1..=24` do all
/// its levels, none more than the kernel's maximum, and each radix covers its step.
pub proof fn lemma_ntt_steps_cover_domain(h: u32)
    requires
        1 <= h <= MAX_CUDA_KB_NTT_LOG_DOMAIN_SIZE,
    ensures
        sum_u32(spec_step_iterations(h)) == h,
        forall|i: int|
            0 <= i < spec_step_iterations(h).len() ==> 1 <= #[trigger] spec_step_iterations(h)[i]
                <= MAX_NTT_STEP_ITERATIONS,
        forall|i: int|
            0 <= i < spec_step_iterations(h).len() ==> spec_step_radix(
                #[trigger] spec_step_iterations(h)[i],
            ) >= spec_step_iterations(h)[i],
{
    let s = spec_step_iterations(h);
    reveal_with_fuel(sum_u32, 4);
    if h <= 10 {
        assert(s.drop_last().len() == 0);
    } else if h <= 17 {
        assert(s.drop_last() =~= seq![(h / 2 + h % 2) as u32]);
        assert(s.drop_last().drop_last().len() == 0);
    } else {
        assert(s.drop_last() =~= seq![(h / 3) as u32, (h / 3) as u32]);
        assert(s.drop_last().drop_last() =~= seq![(h / 3) as u32]);
        assert(s.drop_last().drop_last().drop_last().len() == 0);
    }
}

/// Chunk `c` of `s` when `s` is cut into chunks of `n` values.
pub open spec fn chunk_of(s: Seq<u32>, n: int, c: int) -> Seq<u32> {
    s.subrange(c * n, c * n + n)
}

/// True when every value is canonical (below the prime).
pub open spec fn all_canonical(s: Seq<u32>) -> bool {
    forall|i: int| 0 <= i < s.len() ==> #[trigger] s[i] < KB_P
}

/// Number of chunks of `2^l_skip` values the small NTT transforms: the first
/// `cnt_blocks`, or as many full chunks as the buffer holds when it is shorter.
pub open spec fn small_ntt_chunks(len: int, l_skip: usize, cnt_blocks: usize) -> int {
    let full = len / (pow2(l_skip as nat) as int);
    if full < cnt_blocks { full } else { cnt_blocks as int }
}

/// The transform `after` of `before` by the small NTT over `cnt_blocks` chunks: each
/// of the first `cnt_blocks` chunks of `2^l_skip` values is replaced by its DFT
/// (inverse DFT when `is_intt`), and the opposite transform of an output chunk gives
/// back a canonical input chunk; every value past those chunks is kept.
pub open spec fn small_ntt_post(
    before: Seq<u32>,
    after: Seq<u32>,
    l_skip: usize,
    cnt_blocks: usize,
    is_intt: bool,
) -> bool {
    let n = pow2(l_skip as nat) as int;
    let full = small_ntt_chunks(before.len() as int, l_skip, cnt_blocks);
    &&& after.len() == before.len()
    &&& forall|c: int|
        0 <= c < full ==> #[trigger] chunk_of(after, n, c) == if is_intt {
            kb_idft_values(chunk_of(before, n, c))
        } else {
            kb_dft_values(chunk_of(before, n, c))
        }
    &&& forall|c: int|
        0 <= c < full && all_canonical(#[trigger] chunk_of(before, n, c)) ==> (if is_intt {
            kb_dft_values(chunk_of(after, n, c))
        } else {
            kb_idft_values(chunk_of(after, n, c))
        }) == chunk_of(before, n, c)
    &&& after.subrange(full * n, before.len() as int) == before.subrange(full * n, before.len() as int)
}

/// Small-domain NTT of a host buffer of KoalaBear values laid out as `cnt_blocks`
/// consecutive chunks of `2^l_skip` values: each of those chunks is replaced by its
/// DFT (inverse DFT when `is_intt`), and every value after `cnt_blocks << l_skip`
/// is left as it is (a shorter buffer has only its full chunks transformed).
/// Nothing happens when `l_skip` or `cnt_blocks` is zero; a domain beyond the
/// small-NTT limit is refused.
pub fn batch_ntt_small_kb(
    buffer: &mut Vec<u32>,
    l_skip: usize,
    cnt_blocks: usize,
    is_intt: bool,
) -> (r: Result<(), LaunchError>)
    ensures
        r is Err <==> (l_skip != 0 && cnt_blocks != 0 && l_skip > MAX_SMALL_NTT_LEVEL),
        r is Err ==> r == Err::<(), LaunchError>(LaunchError::InvalidArgument),
        (r is Err || l_skip == 0 || cnt_blocks == 0) ==> final(buffer)@ == old(buffer)@,
        (r is Ok && l_skip != 0 && cnt_blocks != 0) ==> small_ntt_post(
            old(buffer)@,
            final(buffer)@,
            l_skip,
            cnt_blocks,
            is_intt,
        ),
{
    if l_skip == 0 || cnt_blocks == 0 {
        return Ok(());
    }
    if l_skip > MAX_SMALL_NTT_LEVEL {
        return Err(LaunchError::InvalidArgument);
    }
    proof {
        vstd::arithmetic::power2::lemma2_to64();
        vstd::arithmetic::power2::lemma_pow2_strictly_increases(l_skip as nat, 11);
        vstd::arithmetic::power2::lemma_pow2_pos(l_skip as nat);
        vstd::bits::lemma_usize_shl_is_mul(1, l_skip);
    }
    let chunk_len: usize = 1usize << l_skip;
    let full_chunks = buffer.len() / chunk_len;
    let n_chunks = if full_chunks < cnt_blocks { full_chunks } else { cnt_blocks };
    let ghost orig = buffer@;
    let ghost n = chunk_len as int;
    assert(n_chunks * chunk_len <= orig.len()) by (nonlinear_arith)
        requires full_chunks == orig.len() as int / chunk_len as int, chunk_len >= 1, n_chunks <= full_chunks;
    let mut c: usize = 0;
    while c < n_chunks
        invariant
            chunk_len as int == pow2(l_skip as nat),
            n == chunk_len,
            1 <= l_skip <= MAX_SMALL_NTT_LEVEL,
            chunk_len >= 1,
            n_chunks == small_ntt_chunks(orig.len() as int, l_skip, cnt_blocks),
            n_chunks * chunk_len <= orig.len(),
            c <= n_chunks,
            buffer@.len() == orig.len(),
            forall|k: int|
                0 <= k < c ==> #[trigger] chunk_of(buffer@, n, k) == if is_intt {
                    kb_idft_values(chunk_of(orig, n, k))
                } else {
                    kb_dft_values(chunk_of(orig, n, k))
                },
            forall|k: int|
                0 <= k < c && all_canonical(#[trigger] chunk_of(orig, n, k)) ==> (if is_intt {
                    kb_dft_values(chunk_of(buffer@, n, k))
                } else {
                    kb_idft_values(chunk_of(buffer@, n, k))
                }) == chunk_of(orig, n, k),
            forall|t: int| c * chunk_len <= t < orig.len() ==> #[trigger] buffer@[t] == orig[t],
        decreases n_chunks - c,
    {
        proof {
            assert((c + 1) * chunk_len <= n_chunks * chunk_len) by (nonlinear_arith)
                requires c < n_chunks, chunk_len >= 1;
            assert((c + 1) * chunk_len == c * chunk_len + chunk_len) by (nonlinear_arith);
            assert(c * chunk_len + chunk_len <= buffer.len());
        }
        let start = c * chunk_len;
        let mut chunk: Vec<u32> = Vec::new();
        let mut j: usize = 0;
        while j < chunk_len
            invariant
                start as int == c * chunk_len,
                start + chunk_len <= buffer.len(),
                j <= chunk_len,
                chunk@ == buffer@.subrange(start as int, start + j),
            decreases chunk_len - j,
        {
            chunk.push(buffer[start + j]);
            j = j + 1;
        }
        assert(chunk@ == chunk_of(orig, n, c as int));
        assert(small_pow2_len(chunk@.len() as int)) by {
            assert(pow2(l_skip as nat) == chunk@.len());
        }
        let result = if is_intt {
            kb_idft_chunk(&chunk)
        } else {
            kb_dft_chunk(&chunk)
        };
        let ghost before = buffer@;
        let mut j: usize = 0;
        while j < chunk_len
            invariant
                start as int == c * chunk_len,
                start + chunk_len <= buffer.len(),
                buffer@.len() == before.len(),
                result@.len() == chunk_len,
                j <= chunk_len,
                forall|t: int| 0 <= t < start + j ==> #[trigger] buffer@[t] == if t < start { before[t] } else { result@[t - start] },
                forall|t: int| start + j <= t < buffer@.len() ==> #[trigger] buffer@[t] == before[t],
            decreases chunk_len - j,
        {
            buffer.set(start + j, result[j]);
            j = j + 1;
        }
        proof {
            assert(chunk_of(buffer@, n, c as int) =~= result@);
            assert forall|k: int| 0 <= k < c implies #[trigger] chunk_of(buffer@, n, k) == chunk_of(before, n, k) by {
                assert(k * chunk_len + chunk_len <= start) by (nonlinear_arith)
                    requires k < c, start == c * chunk_len, chunk_len >= 1;
                assert(chunk_of(buffer@, n, k) =~= chunk_of(before, n, k));
            }
            assert forall|t: int| (c + 1) * chunk_len <= t < orig.len() implies #[trigger] buffer@[t] == orig[t] by {
                assert(buffer@[t] == before[t]);
            }
        }
        c = c + 1;
    }
    proof {
        let m = n_chunks * n;
        assert forall|t: int| 0 <= t < orig.len() - m implies #[trigger] buffer@.subrange(m, orig.len() as int)[t]
            == orig.subrange(m, orig.len() as int)[t] by {
            assert(buffer@[m + t] == orig[m + t]);
        }
        assert(buffer@.subrange(m, orig.len() as int) =~= orig.subrange(m, orig.len() as int));
    }
    Ok(())
}

/// Law of the small NTT: over the same chunks, the forward transform followed by the inverse one (or the
/// inverse followed by the forward one) gives back a buffer of canonical values
/// exactly.
pub proof fn lemma_small_ntt_roundtrip(
    orig: Seq<u32>,
    mid: Seq<u32>,
    fin: Seq<u32>,
    l_skip: usize,
    cnt_blocks: usize,
    inverse_first: bool,
)
    requires
        1 <= l_skip <= MAX_SMALL_NTT_LEVEL,
        all_canonical(orig),
        small_ntt_post(orig, mid, l_skip, cnt_blocks, inverse_first),
        small_ntt_post(mid, fin, l_skip, cnt_blocks, !inverse_first),
    ensures
        fin == orig,
{
    let n = pow2(l_skip as nat) as int;
    vstd::arithmetic::power2::lemma_pow2_pos(l_skip as nat);
    let full = orig.len() as int / n;
    let chunks = small_ntt_chunks(orig.len() as int, l_skip, cnt_blocks);
    assert(chunks * n <= orig.len()) by (nonlinear_arith)
        requires full == orig.len() as int / n, n >= 1, chunks <= full;
    let m = chunks * n;
    assert forall|t: int| 0 <= t < orig.len() implies #[trigger] fin[t] == orig[t] by {
        if t < m {
            let c = t / n;
            let i = t % n;
            vstd::arithmetic::div_mod::lemma_fundamental_div_mod(t, n);
            assert(0 <= c < chunks) by (nonlinear_arith)
                requires t == n * c + i, 0 <= i < n, 0 <= t < m, m == chunks * n, n >= 1;
            assert(c * n + n <= m) by (nonlinear_arith)
                requires c < chunks, m == chunks * n, n >= 1;
            assert(c * n == n * c) by (nonlinear_arith);
            let oc = chunk_of(orig, n, c);
            assert(all_canonical(oc)) by {
                assert forall|k: int| 0 <= k < oc.len() implies #[trigger] oc[k] < KB_P by {
                    assert(oc[k] == orig[c * n + k]);
                }
            }
            assert(chunk_of(fin, n, c) == oc);
            assert(chunk_of(fin, n, c)[i] == fin[t]);
        } else {
            assert(fin.subrange(m, orig.len() as int)[t - m] == fin[t]);
            assert(mid.subrange(m, orig.len() as int)[t - m] == mid[t]);
        }
    }
    assert(fin =~= orig);
}

/// Replaces `chunk` by its DFT over the KoalaBear field.
///
/// Calls `openvm_stark_backend::dft::Radix2BowersSerial::dft` (its implementation of
/// `p3_dft::TwoAdicSubgroupDft::dft`: the evaluations of the polynomial on the
/// subgroup generated by `two_adic_generator(log2 n)`, in the order of `NaiveDft`).
/// The contract claims that the result is that DFT of the chunk's values, that the
/// length is kept, that the values come back canonical (below the prime), and, as
/// the trait documents the inverse DFT as recovering the coefficients from the
/// evaluations, that the inverse DFT of the result gives back a canonical chunk.
#[verifier::external_body]
fn kb_dft_chunk(chunk: &Vec<u32>) -> (r: Vec<u32>)
    requires
        small_pow2_len(chunk@.len() as int),
    ensures
        r@ == kb_dft_values(chunk@),
        r@.len() == chunk@.len(),
        forall|i: int| 0 <= i < r@.len() ==> #[trigger] r@[i] < KB_P,
        (forall|i: int| 0 <= i < chunk@.len() ==> #[trigger] chunk@[i] < KB_P) ==> kb_idft_values(r@)
            == chunk@,
{
    let input: Vec<p3_koala_bear::KoalaBear> = chunk.iter().map(|&v| p3_koala_bear::KoalaBear::new(v)).collect();
    let out = openvm_stark_backend::dft::Radix2BowersSerial.dft(input);
    out.iter().map(|v| v.as_canonical_u32()).collect()
}

/// Replaces `chunk` by its inverse DFT over the KoalaBear field.
///
/// Calls `openvm_stark_backend::dft::Radix2BowersSerial::idft` (its implementation of
/// `p3_dft::TwoAdicSubgroupDft::idft`: the coefficients of the polynomial whose
/// evaluations on the subgroup the chunk holds). The
/// contract claims that the result is that inverse DFT of the chunk's values,
/// that the length is kept, that the values come back canonical, and that the DFT of
/// the result (the evaluations of the recovered coefficients) gives back a
/// canonical chunk.
#[verifier::external_body]
fn kb_idft_chunk(chunk: &Vec<u32>) -> (r: Vec<u32>)
    requires
        small_pow2_len(chunk@.len() as int),
    ensures
        r@ == kb_idft_values(chunk@),
        r@.len() == chunk@.len(),
        forall|i: int| 0 <= i < r@.len() ==> #[trigger] r@[i] < KB_P,
        (forall|i: int| 0 <= i < chunk@.len() ==> #[trigger] chunk@[i] < KB_P) ==> kb_dft_values(r@)
            == chunk@,
{
    let input: Vec<p3_koala_bear::KoalaBear> = chunk.iter().map(|&v| p3_koala_bear::KoalaBear::new(v)).collect();
    let out = openvm_stark_backend::dft::Radix2BowersSerial.idft(input);
    out.iter().map(|v| v.as_canonical_u32()).collect()
}

} // verus!
