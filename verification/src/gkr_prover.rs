//! The GKR fractional-sumcheck prover as a state machine: from its state and the
//! last event (a device result or a sampled challenge) it decides what the
//! transcript observes next and which device or transcript step follows.

use vstd::arithmetic::power2::pow2;
use vstd::prelude::*;

use crate::gkr_math::{
    initial_round_claim, is_claims, is_frac, next_claim_spec, reconstruct_s_evals,
    round_claim_spec, s_evals_spec, sp_evals_spec, update_round_claim, Frac, GkrLayerClaims,
    GkrRootError,
};
use crate::gkr_math::root_observations;
use crate::gkr_schedule::{choose_round_strategy, spec_round_strategy, GkrRoundStrategy};
use crate::kb_field::{
    ext_add_spec, ext_mul_spec, ext_one, ext_one_exec, ext_sub_spec, ext_zero, ext_zero_exec, is_ext, KbExt,
};

verus! {

/// The precompute-M tuning of a proof.
#[derive(Debug, Clone, Copy, PartialEq, Eq, Structural)]
pub struct PrecomputeSettings {
    pub enabled: bool,
    pub min_blocks_threshold: usize,
    pub target_blocks: usize,
    pub tail_tile_override: Option<usize>,
    pub min_n: usize,
}

/// Where the prover stands.
#[derive(Debug, Clone, Copy, PartialEq, Eq, Structural)]
pub enum GkrPhase {
    /// Nothing done yet.
    Start,
    /// The segment tree is being built; its root is awaited.
    AwaitRoot,
    /// The claims of the next layer are awaited.
    AwaitClaims,
    /// The challenge `mu` that reduces the layer's claims is awaited.
    AwaitMu,
    /// The batching challenge `lambda` of a layer is awaited.
    AwaitLambda,
    /// The device's `s'(1), s'(2)` of a sumcheck round are awaited.
    AwaitSumEvals,
    /// The challenge `r` of a sumcheck round is awaited.
    AwaitR,
    /// The proof is complete.
    Done,
    /// The root sum was required to be zero and is not.
    Failed,
}

/// What the prover is told.
#[derive(Debug, Clone, Copy)]
pub enum GkrEvent {
    /// Starts the proof.
    Begin,
    /// The root of the segment tree.
    Root(Frac),
    /// The claims of a layer: the two halves of the folded layer.
    Claims(GkrLayerClaims),
    /// A challenge sampled from the transcript.
    Challenge(KbExt),
    /// The device's evaluations `s'(1), s'(2)` of the round polynomial.
    SumEvals([KbExt; 2]),
}

/// The step that follows, after the transcript has observed the action's values.
#[derive(Debug, Clone, Copy, PartialEq, Eq, Structural)]
pub enum GkrRequest {
    /// Build the segment tree of the leaves and report its root.
    BuildTree,
    /// Fold the active buffer with `fold_with` (if any; at the top, revert the
    /// root instead) and report the claims of layer `round`.
    ReadClaims { round: usize, fold_with: Option<KbExt> },
    /// Sample a challenge from the transcript.
    Sample,
    /// Compute the device part of sumcheck round `index` of layer `round` with the
    /// given strategy and batching challenge, first folding with `fold_with` (the
    /// first round reverts the tree layer instead).
    ComputeRound {
        round: usize,
        index: usize,
        strategy: GkrRoundStrategy,
        lambda: KbExt,
        fold_with: Option<KbExt>,
    },
    /// The proof is complete.
    Done,
    /// The proof fails.
    Fail(GkrRootError),
    /// The event does not fit the prover's state; nothing changed.
    Unexpected,
}

/// An action: the values the transcript observes, then the next step.
#[derive(Debug, Clone)]
pub struct GkrAction {
    pub observe: Vec<KbExt>,
    pub request: GkrRequest,
}

impl View for GkrAction {
    type V = (Seq<KbExt>, GkrRequest);

    open spec fn view(&self) -> (Seq<KbExt>, GkrRequest) {
        (self.observe@, self.request)
    }
}

/// The state of the prover, as sequences.
#[verifier::ext_equal]
pub struct GkrProverModel {
    pub phase: GkrPhase,
    pub total_rounds: usize,
    pub assert_zero: bool,
    pub settings: PrecomputeSettings,
    pub strategy: GkrRoundStrategy,
    pub round: usize,
    pub index: usize,
    pub lambda: KbExt,
    pub prev_s_eval: KbExt,
    pub eq_r_acc: KbExt,
    pub sp_evals: [KbExt; 3],
    pub root: Frac,
    pub xi: Seq<KbExt>,
    pub r_vec: Seq<KbExt>,
    pub claims: Seq<GkrLayerClaims>,
    pub round_polys: Seq<[KbExt; 3]>,
}

/// The state of the prover.
pub struct GkrProverState {
    /// Where the prover stands.
    pub phase: GkrPhase,
    /// Number of GKR layers (`log2` of the number of leaves; 0 for no leaves).
    pub total_rounds: usize,
    /// Whether the root sum must be zero.
    pub assert_zero: bool,
    /// The precompute-M tuning.
    pub settings: PrecomputeSettings,
    /// The strategy of the current layer.
    pub strategy: GkrRoundStrategy,
    /// The current layer (0 before the first claims).
    pub round: usize,
    /// The current sumcheck round within the layer.
    pub index: usize,
    /// The batching challenge of the current layer.
    pub lambda: KbExt,
    /// The claim of the current sumcheck round.
    pub prev_s_eval: KbExt,
    /// The product of `eq(xi_j, r_j)` over the finished rounds of the layer.
    pub eq_r_acc: KbExt,
    /// The evaluations at 0, 1, 2 of `s'` of the current round.
    pub sp_evals: [KbExt; 3],
    /// The root of the segment tree.
    pub root: Frac,
    /// The point of the current layer: `mu` followed by the previous layer's challenges.
    pub xi: Vec<KbExt>,
    /// The sumcheck challenges of the current layer so far.
    pub r_vec: Vec<KbExt>,
    /// The claims of each layer so far.
    pub claims: Vec<GkrLayerClaims>,
    /// The evaluations `s(1), s(2), s(3)` of every round polynomial so far, layer by
    /// layer (layer `k` has `k` of them).
    pub round_polys: Vec<[KbExt; 3]>,
}

impl View for GkrProverState {
    type V = GkrProverModel;

    open spec fn view(&self) -> GkrProverModel {
        GkrProverModel {
            phase: self.phase,
            total_rounds: self.total_rounds,
            assert_zero: self.assert_zero,
            settings: self.settings,
            strategy: self.strategy,
            round: self.round,
            index: self.index,
            lambda: self.lambda,
            prev_s_eval: self.prev_s_eval,
            eq_r_acc: self.eq_r_acc,
            sp_evals: self.sp_evals,
            root: self.root,
            xi: self.xi@,
            r_vec: self.r_vec@,
            claims: self.claims@,
            round_polys: self.round_polys@,
        }
    }
}

/// Number of round polynomials of the layers before layer `r`: layer `k` has `k`.
pub open spec fn polys_before(r: nat) -> nat
    decreases r,
{
    if r == 0 {
        0
    } else {
        polys_before((r - 1) as nat) + (r - 1) as nat
    }
}

/// Every value the state holds is canonical.
pub open spec fn gkr_values_canonical(m: GkrProverModel) -> bool {
    &&& is_ext(m.lambda)
    &&& is_ext(m.prev_s_eval)
    &&& is_ext(m.eq_r_acc)
    &&& is_ext(m.sp_evals[0]) && is_ext(m.sp_evals[1]) && is_ext(m.sp_evals[2])
    &&& forall|i: int| 0 <= i < m.xi.len() ==> is_ext(#[trigger] m.xi[i])
    &&& forall|i: int| 0 <= i < m.r_vec.len() ==> is_ext(#[trigger] m.r_vec[i])
    &&& forall|i: int| 0 <= i < m.claims.len() ==> is_claims(#[trigger] m.claims[i])
}

/// The state invariant: the lengths of the point, the challenges, the claims and the
/// round polynomials follow the phase, layer and round; and once a round polynomial
/// is sent, `(1 - xi) s'(0) + xi s'(1)` is the round's claim.
pub open spec fn gkr_wf(m: GkrProverModel) -> bool {
    &&& m.total_rounds < usize::BITS
    &&& m.settings.tail_tile_override matches Some(t) ==> t > 0
    &&& gkr_values_canonical(m)
    &&& match m.phase {
        GkrPhase::Start | GkrPhase::AwaitRoot => {
            &&& m.round == 0
            &&& m.claims.len() == 0
            &&& m.r_vec.len() == 0
            &&& m.round_polys.len() == 0
            &&& m.phase == GkrPhase::AwaitRoot ==> m.total_rounds >= 1
        },
        GkrPhase::AwaitClaims => {
            &&& m.round < m.total_rounds
            &&& m.claims.len() == m.round
            &&& m.r_vec.len() == m.round
            &&& m.round_polys.len() == polys_before(m.round as nat) + m.round
        },
        GkrPhase::AwaitMu => {
            &&& m.round < m.total_rounds
            &&& m.claims.len() == m.round + 1
            &&& m.r_vec.len() == m.round
            &&& m.round_polys.len() == polys_before(m.round as nat) + m.round
        },
        GkrPhase::AwaitLambda => {
            &&& 1 <= m.round < m.total_rounds
            &&& m.claims.len() == m.round
            &&& m.xi.len() == m.round
            &&& m.r_vec.len() == 0
            &&& m.round_polys.len() == polys_before(m.round as nat)
        },
        GkrPhase::AwaitSumEvals => {
            &&& 1 <= m.round < m.total_rounds
            &&& m.claims.len() == m.round
            &&& m.xi.len() == m.round
            &&& m.index < m.round
            &&& m.r_vec.len() == m.index
            &&& m.round_polys.len() == polys_before(m.round as nat) + m.index
        },
        GkrPhase::AwaitR => {
            &&& 1 <= m.round < m.total_rounds
            &&& m.claims.len() == m.round
            &&& m.xi.len() == m.round
            &&& m.index < m.round
            &&& m.r_vec.len() == m.index
            &&& m.round_polys.len() == polys_before(m.round as nat) + m.index + 1
            &&& ext_add_spec(
                ext_mul_spec(ext_sub_spec(ext_one(), m.xi[m.index as int]), m.sp_evals[0]),
                ext_mul_spec(m.xi[m.index as int], m.sp_evals[1]),
            ) == m.prev_s_eval
        },
        GkrPhase::Done => m.total_rounds >= 1 ==> {
            &&& m.xi.len() == m.total_rounds
            &&& m.claims.len() == m.total_rounds
            &&& m.round_polys.len() == polys_before(m.total_rounds as nat)
        },
        GkrPhase::Failed => true,
    }
}

/// The events the prover accepts in a state: canonical values, and a point
/// coordinate other than one for the round being reconstructed (`1 - xi` is
/// inverted there).
pub open spec fn gkr_event_ok(m: GkrProverModel, e: GkrEvent) -> bool {
    match e {
        GkrEvent::Begin => true,
        GkrEvent::Root(f) => is_frac(f),
        GkrEvent::Claims(c) => is_claims(c),
        GkrEvent::Challenge(c) => is_ext(c),
        GkrEvent::SumEvals(sp) => {
            &&& is_ext(sp[0])
            &&& is_ext(sp[1])
            &&& m.phase == GkrPhase::AwaitSumEvals ==> m.xi[m.index as int] != ext_one()
        },
    }
}

/// The state before a proof of `total_rounds` layers.
pub open spec fn gkr_initial(total_rounds: usize, assert_zero: bool, settings: PrecomputeSettings) -> GkrProverModel {
    GkrProverModel {
        phase: GkrPhase::Start,
        total_rounds,
        assert_zero,
        settings,
        strategy: GkrRoundStrategy::FoldEval,
        round: 0,
        index: 0,
        lambda: ext_zero(),
        prev_s_eval: ext_zero(),
        eq_r_acc: ext_one(),
        sp_evals: [ext_zero(), ext_zero(), ext_zero()],
        root: Frac { p: ext_zero(), q: ext_zero() },
        xi: Seq::empty(),
        r_vec: Seq::empty(),
        claims: Seq::empty(),
        round_polys: Seq::empty(),
    }
}

/// Result of an event that does not fit the state.
pub open spec fn gkr_unexpected(m: GkrProverModel) -> (Seq<KbExt>, GkrRequest, GkrProverModel) {
    (Seq::empty(), GkrRequest::Unexpected, m)
}

/// The protocol: what the transcript observes, the next step, and the new state.
pub open spec fn spec_gkr_step(m: GkrProverModel, e: GkrEvent) -> (Seq<KbExt>, GkrRequest, GkrProverModel) {
    match m.phase {
        GkrPhase::Start => match e {
            GkrEvent::Begin => if m.total_rounds == 0 {
                (Seq::empty(), GkrRequest::Done, GkrProverModel { phase: GkrPhase::Done, ..m })
            } else {
                (Seq::empty(), GkrRequest::BuildTree, GkrProverModel { phase: GkrPhase::AwaitRoot, ..m })
            },
            _ => gkr_unexpected(m),
        },
        GkrPhase::AwaitRoot => match e {
            GkrEvent::Root(f) => if m.assert_zero && f.p != ext_zero() {
                (
                    Seq::empty(),
                    GkrRequest::Fail(GkrRootError::NonzeroRootSum),
                    GkrProverModel { phase: GkrPhase::Failed, root: f, ..m },
                )
            } else {
                (
                    if m.assert_zero { seq![f.q] } else { seq![f.p, f.q] },
                    GkrRequest::ReadClaims { round: 0, fold_with: None },
                    GkrProverModel { phase: GkrPhase::AwaitClaims, root: f, ..m },
                )
            },
            _ => gkr_unexpected(m),
        },
        GkrPhase::AwaitClaims => match e {
            GkrEvent::Claims(c) => (
                seq![c.p_xi_0, c.q_xi_0, c.p_xi_1, c.q_xi_1],
                GkrRequest::Sample,
                GkrProverModel { phase: GkrPhase::AwaitMu, claims: m.claims.push(c), ..m },
            ),
            _ => gkr_unexpected(m),
        },
        GkrPhase::AwaitMu => match e {
            GkrEvent::Challenge(mu) => {
                let xi = seq![mu] + m.r_vec;
                if m.round + 1 >= m.total_rounds {
                    (
                        Seq::empty(),
                        GkrRequest::Done,
                        GkrProverModel { phase: GkrPhase::Done, xi, r_vec: Seq::empty(), ..m },
                    )
                } else {
                    (
                        Seq::empty(),
                        GkrRequest::Sample,
                        GkrProverModel {
                            phase: GkrPhase::AwaitLambda,
                            xi,
                            r_vec: Seq::empty(),
                            round: (m.round + 1) as usize,
                            ..m
                        },
                    )
                }
            },
            _ => gkr_unexpected(m),
        },
        GkrPhase::AwaitLambda => match e {
            GkrEvent::Challenge(lambda) => {
                let strategy = spec_round_strategy(
                    m.round,
                    m.settings.enabled,
                    m.settings.min_blocks_threshold,
                    m.settings.target_blocks,
                    m.settings.tail_tile_override,
                    m.settings.min_n,
                );
                (
                    Seq::empty(),
                    GkrRequest::ComputeRound { round: m.round, index: 0, strategy, lambda, fold_with: None },
                    GkrProverModel {
                        phase: GkrPhase::AwaitSumEvals,
                        strategy,
                        lambda,
                        prev_s_eval: round_claim_spec(m.claims.last(), m.xi[0], lambda),
                        eq_r_acc: ext_one(),
                        index: 0,
                        ..m
                    },
                )
            },
            _ => gkr_unexpected(m),
        },
        GkrPhase::AwaitSumEvals => match e {
            GkrEvent::SumEvals(sp) => {
                let xi_j = m.xi[m.index as int];
                let spe = sp_evals_spec(sp, m.prev_s_eval, xi_j, m.eq_r_acc);
                let s = s_evals_spec(spe, xi_j);
                (
                    seq![s[0], s[1], s[2]],
                    GkrRequest::Sample,
                    GkrProverModel {
                        phase: GkrPhase::AwaitR,
                        sp_evals: spe,
                        round_polys: m.round_polys.push(s),
                        ..m
                    },
                )
            },
            _ => gkr_unexpected(m),
        },
        GkrPhase::AwaitR => match e {
            GkrEvent::Challenge(r) => {
                let next = next_claim_spec(m.sp_evals, m.xi[m.index as int], r, m.eq_r_acc);
                let index = m.index + 1;
                if index < m.round {
                    (
                        Seq::empty(),
                        GkrRequest::ComputeRound {
                            round: m.round,
                            index: index as usize,
                            strategy: m.strategy,
                            lambda: m.lambda,
                            fold_with: Some(r),
                        },
                        GkrProverModel {
                            phase: GkrPhase::AwaitSumEvals,
                            eq_r_acc: next.0,
                            prev_s_eval: next.1,
                            r_vec: m.r_vec.push(r),
                            index: index as usize,
                            ..m
                        },
                    )
                } else {
                    (
                        Seq::empty(),
                        GkrRequest::ReadClaims { round: m.round, fold_with: Some(r) },
                        GkrProverModel {
                            phase: GkrPhase::AwaitClaims,
                            eq_r_acc: next.0,
                            prev_s_eval: next.1,
                            r_vec: m.r_vec.push(r),
                            index: index as usize,
                            ..m
                        },
                    )
                }
            },
            _ => gkr_unexpected(m),
        },
        GkrPhase::Done | GkrPhase::Failed => gkr_unexpected(m),
    }
}

/// The state with the precompute-M tuning and the chosen strategy left out: what
/// the protocol itself depends on.
pub open spec fn protocol_part(m: GkrProverModel) -> GkrProverModel {
    GkrProverModel {
        settings: PrecomputeSettings {
            enabled: false,
            min_blocks_threshold: 0,
            target_blocks: 0,
            tail_tile_override: None,
            min_n: 0,
        },
        strategy: GkrRoundStrategy::FoldEval,
        ..m
    }
}

/// A request with its strategy left out.
pub open spec fn without_strategy(req: GkrRequest) -> GkrRequest {
    match req {
        GkrRequest::ComputeRound { round, index, strategy, lambda, fold_with } => GkrRequest::ComputeRound {
            round,
            index,
            strategy: GkrRoundStrategy::FoldEval,
            lambda,
            fold_with,
        },
        _ => req,
    }
}

/// Law of the round strategies: the fold-eval and precompute-M strategies are
/// interchangeable. Two provers that differ only in their tuning and strategy
/// observe the same values, ask for the same steps (up to the strategy of a device
/// round), and stay alike after every event.
pub proof fn lemma_gkr_strategy_independent(m1: GkrProverModel, m2: GkrProverModel, e: GkrEvent)
    requires
        protocol_part(m1) == protocol_part(m2),
    ensures
        spec_gkr_step(m1, e).0 == spec_gkr_step(m2, e).0,
        without_strategy(spec_gkr_step(m1, e).1) == without_strategy(spec_gkr_step(m2, e).1),
        protocol_part(spec_gkr_step(m1, e).2) == protocol_part(spec_gkr_step(m2, e).2),
{
    assert(m1.phase == m2.phase);
    assert(m1.xi == m2.xi);
    assert(m1.r_vec == m2.r_vec);
    assert(m1.claims == m2.claims);
    assert(m1.round_polys == m2.round_polys);
    assert(protocol_part(spec_gkr_step(m1, e).2) =~= protocol_part(spec_gkr_step(m2, e).2));
}

/// An action that only requests `request`.
fn request_only(request: GkrRequest) -> (a: GkrAction)
    ensures
        a.observe@ == Seq::<KbExt>::empty(),
        a.request == request,
{
    GkrAction { observe: Vec::new(), request }
}

impl GkrProverState {
    /// The prover before a proof of `total_rounds` layers (0 when there are no leaves).
    pub fn new(total_rounds: usize, assert_zero: bool, settings: PrecomputeSettings) -> (s: Self)
        requires
            total_rounds < usize::BITS,
            settings.tail_tile_override matches Some(t) ==> t > 0,
        ensures
            s@ == gkr_initial(total_rounds, assert_zero, settings),
            gkr_wf(s@),
    {
        let z = ext_zero_exec();
        GkrProverState {
            phase: GkrPhase::Start,
            total_rounds,
            assert_zero,
            settings,
            strategy: GkrRoundStrategy::FoldEval,
            round: 0,
            index: 0,
            lambda: z,
            prev_s_eval: z,
            eq_r_acc: ext_one_exec(),
            sp_evals: [z, z, z],
            root: Frac { p: z, q: z },
            xi: Vec::new(),
            r_vec: Vec::new(),
            claims: Vec::new(),
            round_polys: Vec::new(),
        }
    }
}

/// One step of the prover: takes the event, updates the state, and says what the
/// transcript observes and what happens next.
pub fn gkr_step(state: &mut GkrProverState, event: GkrEvent) -> (a: GkrAction)
    requires
        gkr_wf(old(state)@),
        gkr_event_ok(old(state)@, event),
    ensures
        ({
            let (obs, req, next) = spec_gkr_step(old(state)@, event);
            &&& a.observe@ == obs
            &&& a.request == req
            &&& final(state)@ == next
        }),
        gkr_wf(final(state)@),
{
    match state.phase {
        GkrPhase::Start => match event {
            GkrEvent::Begin => {
                if state.total_rounds == 0 {
                    state.phase = GkrPhase::Done;
                    request_only(GkrRequest::Done)
                } else {
                    state.phase = GkrPhase::AwaitRoot;
                    request_only(GkrRequest::BuildTree)
                }
            },
            _ => request_only(GkrRequest::Unexpected),
        },
        GkrPhase::AwaitRoot => match event {
            GkrEvent::Root(f) => {
                state.root = f;
                match root_observations(f, state.assert_zero) {
                    Ok(observe) => {
                        state.phase = GkrPhase::AwaitClaims;
                        GkrAction { observe, request: GkrRequest::ReadClaims { round: 0, fold_with: None } }
                    },
                    Err(err) => {
                        state.phase = GkrPhase::Failed;
                        request_only(GkrRequest::Fail(err))
                    },
                }
            },
            _ => request_only(GkrRequest::Unexpected),
        },
        GkrPhase::AwaitClaims => match event {
            GkrEvent::Claims(c) => {
                state.claims.push(c);
                state.phase = GkrPhase::AwaitMu;
                GkrAction { observe: vec![c.p_xi_0, c.q_xi_0, c.p_xi_1, c.q_xi_1], request: GkrRequest::Sample }
            },
            _ => request_only(GkrRequest::Unexpected),
        },
        GkrPhase::AwaitMu => match event {
            GkrEvent::Challenge(mu) => {
                let ghost r_old = state.r_vec@;
                let mut xi: Vec<KbExt> = Vec::new();
                xi.push(mu);
                xi.append(&mut state.r_vec);
                state.xi = xi;
                proof {
                    assert(state.xi@ =~= seq![mu] + r_old);
                    assert(state.r_vec@ =~= Seq::<KbExt>::empty());
                    assert forall|i: int| 0 <= i < state.xi@.len() implies is_ext(#[trigger] state.xi@[i]) by {
                        if i > 0 {
                            assert(state.xi@[i] == r_old[i - 1]);
                        }
                    }
                }
                if state.round + 1 >= state.total_rounds {
                    state.phase = GkrPhase::Done;
                    request_only(GkrRequest::Done)
                } else {
                    state.round = state.round + 1;
                    state.phase = GkrPhase::AwaitLambda;
                    request_only(GkrRequest::Sample)
                }
            },
            _ => request_only(GkrRequest::Unexpected),
        },
        GkrPhase::AwaitLambda => match event {
            GkrEvent::Challenge(lambda) => {
                let strategy = choose_round_strategy(
                    state.round,
                    state.settings.enabled,
                    state.settings.min_blocks_threshold,
                    state.settings.target_blocks,
                    state.settings.tail_tile_override,
                    state.settings.min_n,
                );
                let last = state.claims.len() - 1;
                let claim = initial_round_claim(state.claims[last], state.xi[0], lambda);
                state.strategy = strategy;
                state.lambda = lambda;
                state.prev_s_eval = claim;
                state.eq_r_acc = ext_one_exec();
                state.index = 0;
                state.phase = GkrPhase::AwaitSumEvals;
                request_only(
                    GkrRequest::ComputeRound { round: state.round, index: 0, strategy, lambda, fold_with: None },
                )
            },
            _ => request_only(GkrRequest::Unexpected),
        },
        GkrPhase::AwaitSumEvals => match event {
            GkrEvent::SumEvals(sp) => {
                let xi_j = state.xi[state.index];
                let (s, spe) = reconstruct_s_evals(sp, state.prev_s_eval, xi_j, state.eq_r_acc);
                state.round_polys.push(s);
                state.sp_evals = spe;
                state.phase = GkrPhase::AwaitR;
                GkrAction { observe: vec![s[0], s[1], s[2]], request: GkrRequest::Sample }
            },
            _ => request_only(GkrRequest::Unexpected),
        },
        GkrPhase::AwaitR => match event {
            GkrEvent::Challenge(r) => {
                let xi_j = state.xi[state.index];
                let (acc, next) = update_round_claim(state.sp_evals, xi_j, r, state.eq_r_acc);
                state.eq_r_acc = acc;
                state.prev_s_eval = next;
                state.r_vec.push(r);
                state.index = state.index + 1;
                if state.index < state.round {
                    state.phase = GkrPhase::AwaitSumEvals;
                    request_only(
                        GkrRequest::ComputeRound {
                            round: state.round,
                            index: state.index,
                            strategy: state.strategy,
                            lambda: state.lambda,
                            fold_with: Some(r),
                        },
                    )
                } else {
                    state.phase = GkrPhase::AwaitClaims;
                    request_only(GkrRequest::ReadClaims { round: state.round, fold_with: Some(r) })
                }
            },
            _ => request_only(GkrRequest::Unexpected),
        },
        GkrPhase::Done | GkrPhase::Failed => request_only(GkrRequest::Unexpected),
    }
}


/// The leaf counts a proof accepts: none, or a power of two with at least one layer.
pub open spec fn gkr_leaf_count_ok(total_leaves: usize) -> bool {
    total_leaves == 0 || exists|k: nat| 1 <= k < 64 && #[trigger] pow2(k) == total_leaves
}

/// Number of GKR layers of a proof over `total_leaves` leaves: 0 for no leaves,
/// otherwise `log2` of the count.
pub fn gkr_total_rounds(total_leaves: usize) -> (r: usize)
    requires
        gkr_leaf_count_ok(total_leaves),
    ensures
        total_leaves == 0 ==> r == 0,
        total_leaves != 0 ==> 1 <= r < 64 && pow2(r as nat) == total_leaves,
{
    if total_leaves == 0 {
        return 0;
    }
    let ghost k = choose|k: nat| 1 <= k < 64 && #[trigger] pow2(k) == total_leaves;
    let mut r: usize = 0;
    let mut p: usize = 1;
    proof {
        vstd::arithmetic::power2::lemma2_to64();
    }
    while p < total_leaves
        invariant
            1 <= k < 64,
            pow2(k) == total_leaves,
            r <= k,
            p as nat == pow2(r as nat),
        decreases k - r,
    {
        proof {
            if r == k {
                assert(false);
            }
            vstd::arithmetic::power2::lemma_pow2_adds(r as nat, 1);
            vstd::arithmetic::power2::lemma2_to64();
            if r + 1 < k {
                vstd::arithmetic::power2::lemma_pow2_strictly_increases((r + 1) as nat, k);
            }
            assert(pow2((r + 1) as nat) == p * 2);
            assert(p * 2 <= total_leaves);
        }
        p = p * 2;
        r = r + 1;
    }
    proof {
        if r < k {
            vstd::arithmetic::power2::lemma_pow2_strictly_increases(r as nat, k);
        }
    }
    r
}

/// The fractional sum a finished proof reports: `0 / 1` without leaves, the root
/// of the segment tree otherwise.
pub open spec fn spec_fractional_sum(m: GkrProverModel) -> (KbExt, KbExt) {
    if m.total_rounds == 0 {
        (ext_zero(), ext_one())
    } else {
        (m.root.p, m.root.q)
    }
}

/// The round polynomials of layer `l` (which has `l` sumcheck rounds).
pub open spec fn spec_layer_polys(m: GkrProverModel, l: int) -> Seq<[KbExt; 3]> {
    m.round_polys.subrange(polys_before(l as nat) as int, polys_before(l as nat) + l)
}

/// Layers before `a` hold no more round polynomials than layers before `b >= a`.
proof fn lemma_polys_before_mono(a: nat, b: nat)
    requires
        a <= b,
    ensures
        polys_before(a) <= polys_before(b),
    decreases b,
{
    if a < b {
        lemma_polys_before_mono(a, (b - 1) as nat);
    }
}

/// The parts of a finished proof: the fractional sum, and the round polynomials
/// grouped by layer (layers 1 to `total_rounds - 1`, layer `l` with its `l` rounds).
pub fn gkr_proof_parts(state: &GkrProverState) -> (r: ((KbExt, KbExt), Vec<Vec<[KbExt; 3]>>))
    requires
        gkr_wf(state@),
        state.phase == GkrPhase::Done,
    ensures
        r.0 == spec_fractional_sum(state@),
        r.1@.len() == if state.total_rounds == 0 { 0 } else { state.total_rounds - 1 },
        forall|k: int| 0 <= k < r.1@.len() ==> (#[trigger] r.1@[k])@ == spec_layer_polys(state@, k + 1),
{
    if state.total_rounds == 0 {
        return ((ext_zero_exec(), ext_one_exec()), Vec::new());
    }
    let total = state.total_rounds;
    let mut layers: Vec<Vec<[KbExt; 3]>> = Vec::new();
    let mut offset: usize = 0;
    let mut l: usize = 1;
    let n_polys = state.round_polys.len();
    assert(polys_before(0) == 0);
    assert(polys_before(1) == 0);
    while l < total
        invariant
            gkr_wf(state@),
            state.phase == GkrPhase::Done,
            total == state.total_rounds,
            total >= 1,
            1 <= l <= total,
            offset == polys_before(l as nat),
            state.round_polys@.len() == polys_before(total as nat),
            n_polys == state.round_polys@.len(),
            layers@.len() == l - 1,
            forall|k: int| 0 <= k < layers@.len() ==> (#[trigger] layers@[k])@ == spec_layer_polys(state@, k + 1),
        decreases total - l,
    {
        proof {
            lemma_polys_before_mono((l + 1) as nat, total as nat);
            assert(polys_before((l + 1) as nat) == polys_before(l as nat) + l);
        }
        let mut layer: Vec<[KbExt; 3]> = Vec::new();
        let mut j: usize = 0;
        while j < l
            invariant
                offset + l <= n_polys,
                n_polys == state.round_polys@.len(),
                j <= l,
                layer@ == state.round_polys@.subrange(offset as int, offset + j),
            decreases l - j,
        {
            layer.push(state.round_polys[offset + j]);
            j = j + 1;
            assert(layer@ =~= state.round_polys@.subrange(offset as int, offset + j));
        }
        layers.push(layer);
        offset = offset + l;
        l = l + 1;
    }
    ((state.root.p, state.root.q), layers)
}

} // verus!
