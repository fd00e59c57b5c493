//! The host loop of GPU proof-of-work grinding, as a state machine: the device
//! searches one window of candidate witnesses per launch.

use vstd::arithmetic::power2::pow2;
use vstd::prelude::*;

verus! {

/// Value the device leaves in the result slot when no witness was found.
pub const GRIND_NO_RESULT: u32 = u32::MAX;

/// What the host does next.
#[derive(Debug, Clone, Copy, PartialEq, Eq, Structural)]
pub enum GrindStep {
    /// Launch the kernel on the window of witnesses starting at `start`.
    Launch { start: u32 },
    /// A witness was found.
    Found(u32),
    /// Every window up to the maximal witness was searched without success.
    NotFound,
}

/// Progress of a grinding search over the witnesses `0..=max_witness`, in windows
/// of `2^bits` witnesses.
#[derive(Debug, Clone, Copy)]
pub struct GrindSearch {
    /// Log2 of the window size.
    pub bits: u32,
    /// Largest witness searched.
    pub max_witness: u32,
    /// Number of windows launched so far.
    pub launched: u64,
}

/// First witness of window `k`.
pub open spec fn window_start(bits: u32, k: int) -> int {
    k * pow2(bits as nat)
}

/// True when window `k` is searched: it starts at or below the maximal witness.
pub open spec fn window_exists(bits: u32, max_witness: u32, k: int) -> bool {
    window_start(bits, k) <= max_witness
}

/// The step that follows the search state `s` when the last launch (if any) left
/// `last_result` in the result slot.
pub open spec fn spec_next_step(s: GrindSearch, last_result: Option<u32>) -> (GrindStep, u64) {
    if last_result is Some && last_result->0 < GRIND_NO_RESULT {
        (GrindStep::Found(last_result->0), s.launched)
    } else if window_exists(s.bits, s.max_witness, s.launched as int) {
        (GrindStep::Launch { start: window_start(s.bits, s.launched as int) as u32 }, (s.launched + 1) as u64)
    } else {
        (GrindStep::NotFound, s.launched)
    }
}

/// The search state: every launched window exists, so the count stays small.
pub open spec fn search_wf(s: GrindSearch) -> bool {
    &&& s.bits < 64
    &&& s.launched == 0 || window_exists(s.bits, s.max_witness, s.launched - 1)
}

impl GrindSearch {
    /// A search that has launched nothing yet.
    pub fn new(bits: u32, max_witness: u32) -> (s: Self)
        requires
            bits < 64,
        ensures
            s.bits == bits,
            s.max_witness == max_witness,
            s.launched == 0,
            search_wf(s),
    {
        GrindSearch { bits, max_witness, launched: 0 }
    }

    /// Decides the next step: report the witness the last launch found, or launch
    /// the next window, or give up when no window is left.
    pub fn next_step(&mut self, last_result: Option<u32>) -> (step: GrindStep)
        requires
            search_wf(*old(self)),
        ensures
            (step, final(self).launched) == spec_next_step(*old(self), last_result),
            final(self).bits == old(self).bits,
            final(self).max_witness == old(self).max_witness,
            search_wf(*final(self)),
    {
        if let Some(r) = last_result {
            if r < GRIND_NO_RESULT {
                return GrindStep::Found(r);
            }
        }
        let bits = self.bits;
        let k = self.launched;
        proof {
            vstd::arithmetic::power2::lemma_pow2_pos(bits as nat);
            if k > 0 {
                // the previous window exists, so k - 1 <= max_witness / 2^bits
                assert((k - 1) * pow2(bits as nat) <= self.max_witness);
                assert(k - 1 <= self.max_witness) by (nonlinear_arith)
                    requires (k - 1) * pow2(bits as nat) <= self.max_witness, pow2(bits as nat) >= 1, k >= 1;
            }
        }
        if bits >= 32 {
            // windows are at least 2^32 wide: only the first one exists
            proof {
                if bits > 32 {
                    vstd::arithmetic::power2::lemma_pow2_strictly_increases(32, bits as nat);
                }
                vstd::arithmetic::power2::lemma2_to64();
                if k >= 1 {
                    assert(k * pow2(bits as nat) >= pow2(bits as nat)) by (nonlinear_arith)
                        requires k >= 1, pow2(bits as nat) >= 1;
                }
            }
            if k == 0 {
                self.launched = 1;
                proof {
                    assert(0 * pow2(bits as nat) == 0);
                }
                return GrindStep::Launch { start: 0 };
            } else {
                return GrindStep::NotFound;
            }
        }
        proof {
            vstd::bits::lemma_u64_pow2_no_overflow(bits as nat);
            vstd::bits::lemma_u64_shl_is_mul(1, bits as u64);
            vstd::arithmetic::power2::lemma2_to64();
            if bits < 31 {
                vstd::arithmetic::power2::lemma_pow2_strictly_increases(bits as nat, 31);
            }
            assert(k * pow2(bits as nat) <= 0x1_0000_0000 * 0x8000_0000) by (nonlinear_arith)
                requires k <= 0x1_0000_0000, pow2(bits as nat) <= 0x8000_0000, k >= 0;
        }
        let step: u64 = 1u64 << bits;
        proof {
            vstd::arithmetic::power2::lemma2_to64();
            vstd::arithmetic::power2::lemma_pow2_strictly_increases(bits as nat, 32);
        }
        let start: u64 = k * step;
        if start <= self.max_witness as u64 {
            self.launched = k + 1;
            GrindStep::Launch { start: start as u32 }
        } else {
            GrindStep::NotFound
        }
    }
}

/// Law of the grinding search: window `k` is searched exactly when
/// `k <= max_witness / 2^bits`, so a search that never finds a witness launches
/// `max_witness / 2^bits + 1` windows, covering every witness up to the maximum.
pub proof fn lemma_grind_windows(bits: u32, max_witness: u32, k: nat)
    requires
        bits < 64,
    ensures
        window_exists(bits, max_witness, k as int) <==> k <= max_witness as int / pow2(bits as nat) as int,
        (k == max_witness as int / pow2(bits as nat) as int) ==> window_start(bits, k as int) <= max_witness
            < window_start(bits, k as int + 1),
{
    let d = pow2(bits as nat) as int;
    vstd::arithmetic::power2::lemma_pow2_pos(bits as nat);
    vstd::arithmetic::div_mod::lemma_fundamental_div_mod(max_witness as int, d);
    let q = max_witness as int / d;
    if k <= q {
        vstd::arithmetic::mul::lemma_mul_inequality(k as int, q, d);
        assert(k * d <= q * d);
        assert(q * d == d * q) by (nonlinear_arith);
    } else {
        vstd::arithmetic::mul::lemma_mul_inequality(q + 1, k as int, d);
        assert((q + 1) * d == d * q + d) by (nonlinear_arith);
    }
    if k == q {
        assert((k + 1) * d == d * q + d) by (nonlinear_arith) requires k == q;
        assert(k * d == d * q) by (nonlinear_arith) requires k == q;
    }
}

} // verus!
