// The GKR prover state machine driven by a host simulation of the device, checked
// against a host reference of the fractional sumcheck built from the backend's own
// sumcheck, fold and eq routines.

use cuda_backend::gkr_math::{Frac, GkrLayerClaims, GkrRootError};
use cuda_backend::gkr_prover::{
    gkr_proof_parts, gkr_step, gkr_total_rounds, GkrEvent, GkrPhase, GkrProverState, GkrRequest,
    PrecomputeSettings,
};
use cuda_backend::gkr_schedule::GkrRoundStrategy;
use cuda_backend::kb_field::{KbExt, KB_P};
use openvm_stark_backend::prover::poly::evals_eq_hypercube;
use openvm_stark_backend::prover::sumcheck::{fold_mle_evals, sumcheck_round_poly_evals};
use openvm_stark_backend::prover::ColMajorMatrix;
use p3_field::extension::BinomialExtensionField;
use p3_field::{BasedVectorSpace, PrimeCharacteristicRing, PrimeField32};
use p3_koala_bear::KoalaBear;

type KbEF = BinomialExtensionField<KoalaBear, 4>;

fn p3(e: KbExt) -> KbEF {
    let cs = [e.c0, e.c1, e.c2, e.c3];
    KbEF::from_basis_coefficients_fn(|i| KoalaBear::new(cs[i]))
}

fn back(x: KbEF) -> KbExt {
    let c: &[KoalaBear] = x.as_basis_coefficients_slice();
    KbExt { c0: c[0].as_canonical_u32(), c1: c[1].as_canonical_u32(), c2: c[2].as_canonical_u32(), c3: c[3].as_canonical_u32() }
}

fn ef(a: u32, b: u32, c: u32, d: u32) -> KbEF {
    p3(KbExt { c0: a % KB_P, c1: b % KB_P, c2: c % KB_P, c3: d % KB_P })
}

/// A deterministic transcript: every observed value and every sample moves the state.
#[derive(Clone, Copy, PartialEq, Debug)]
struct Transcript {
    state: KbEF,
}

impl Transcript {
    fn new() -> Self {
        Transcript { state: ef(7, 11, 13, 17) }
    }
    fn observe(&mut self, v: KbEF) {
        self.state = self.state * ef(31, 1, 0, 5) + v;
    }
    fn sample(&mut self) -> KbEF {
        self.state = self.state * ef(101, 3, 2, 9) + ef(1, 2, 3, 4);
        self.state
    }
}

#[derive(Clone, Copy, Debug)]
struct PFrac {
    p: KbEF,
    q: KbEF,
}

fn frac_add(a: PFrac, b: PFrac) -> PFrac {
    PFrac { p: a.p * b.q + a.q * b.p, q: a.q * b.q }
}

/// The segment tree of the leaves: layer `i` sits at `2^i .. 2^(i+1)`.
fn tree_of(leaves: &[PFrac]) -> Vec<PFrac> {
    let n = leaves.len();
    let zero = PFrac { p: KbEF::ZERO, q: KbEF::ZERO };
    let mut t = vec![zero; 2 * n];
    t[n..].copy_from_slice(leaves);
    for i in (1..n).rev() {
        t[i] = frac_add(t[2 * i], t[2 * i + 1]);
    }
    t
}

fn layer_columns(tree: &[PFrac], round: usize) -> ColMajorMatrix<KbEF> {
    let eval_size = 1 << round;
    let seg = &tree[2 * eval_size..4 * eval_size];
    let mut v = vec![KbEF::ZERO; 4 * eval_size];
    for x in 0..eval_size {
        v[x] = seg[2 * x].p;
        v[eval_size + x] = seg[2 * x].q;
        v[2 * eval_size + x] = seg[2 * x + 1].p;
        v[3 * eval_size + x] = seg[2 * x + 1].q;
    }
    ColMajorMatrix::new(v, 4)
}

struct Reference {
    root: PFrac,
    claims: Vec<[KbEF; 4]>,
    polys: Vec<[KbEF; 3]>,
    xi: Vec<KbEF>,
    transcript: Transcript,
}

/// The host fractional sumcheck, layer by layer, with the backend's routines.
fn host_reference(leaves: &[PFrac], assert_zero: bool) -> Result<Reference, ()> {
    let total_rounds = leaves.len().trailing_zeros() as usize;
    let tree = tree_of(leaves);
    let root = tree[1];
    let mut ts = Transcript::new();
    if assert_zero {
        if root.p != KbEF::ZERO {
            return Err(());
        }
    } else {
        ts.observe(root.p);
    }
    ts.observe(root.q);
    let mut claims = vec![[tree[2].p, tree[2].q, tree[3].p, tree[3].q]];
    for v in claims[0] {
        ts.observe(v);
    }
    let mut xi_prev = vec![ts.sample()];
    let mut polys = Vec::new();
    for round in 1..total_rounds {
        let lambda = ts.sample();
        let mut pq = layer_columns(&tree, round);
        let mut eq = ColMajorMatrix::new(evals_eq_hypercube(&xi_prev), 1);
        let mut rho = Vec::new();
        for sc in 0..round {
            let [s] = sumcheck_round_poly_evals(round - sc, 3, &[eq.as_view(), pq.as_view()], |_x, _y, row| {
                let eq_xi = row[0][0];
                let (p0, q0, p1, q1) = (row[1][0], row[1][1], row[1][2], row[1][3]);
                [eq_xi * (p0 * q1 + p1 * q0 + lambda * (q0 * q1))]
            });
            let s: [KbEF; 3] = s.try_into().unwrap();
            for &v in &s {
                ts.observe(v);
            }
            polys.push(s);
            let r = ts.sample();
            pq = fold_mle_evals(pq, r);
            eq = fold_mle_evals(eq, r);
            rho.push(r);
        }
        let c = [pq.column(0)[0], pq.column(1)[0], pq.column(2)[0], pq.column(3)[0]];
        for v in c {
            ts.observe(v);
        }
        claims.push(c);
        let mu = ts.sample();
        xi_prev = [vec![mu], rho].concat();
    }
    Ok(Reference { root, claims, polys, xi: xi_prev, transcript: ts })
}

/// What the device computes for round `index` of a layer: `s'(1), s'(2)`, the sum over
/// the remaining coordinates of `eq(xi_tail, y) (p0 q1 + p1 q0 + lambda q0 q1)` at the
/// round's coordinate.
fn device_round(pq: &ColMajorMatrix<KbEF>, xi_tail: &[KbEF], lambda: KbEF) -> [KbEF; 2] {
    let h = pq.column(0).len();
    let eq = evals_eq_hypercube(xi_tail);
    let mut out = [KbEF::ZERO; 2];
    for (k, x) in [KbEF::ONE, KbEF::ONE + KbEF::ONE].into_iter().enumerate() {
        for y in 0..h / 2 {
            let at = |c: usize| {
                let col = pq.column(c);
                col[2 * y] + x * (col[2 * y + 1] - col[2 * y])
            };
            let (p0, q0, p1, q1) = (at(0), at(1), at(2), at(3));
            out[k] += eq[y] * (p0 * q1 + p1 * q0 + lambda * (q0 * q1));
        }
    }
    out
}

struct Run {
    state: GkrProverState,
    transcript: Transcript,
    requests: Vec<GkrRequest>,
}

/// Drives the prover to its end: the transcript observes what each action says, the
/// simulated device answers each request.
fn run(leaves: &[PFrac], assert_zero: bool, settings: PrecomputeSettings) -> Run {
    let total_rounds = leaves.len().trailing_zeros() as usize;
    let tree = tree_of(leaves);
    let mut state = GkrProverState::new(total_rounds, assert_zero, settings);
    let mut ts = Transcript::new();
    let mut requests = Vec::new();
    let mut pq: Option<ColMajorMatrix<KbEF>> = None;
    let mut event = GkrEvent::Begin;
    loop {
        let action = gkr_step(&mut state, event);
        for v in &action.observe {
            ts.observe(p3(*v));
        }
        requests.push(action.request);
        event = match action.request {
            GkrRequest::BuildTree => GkrEvent::Root(Frac { p: back(tree[1].p), q: back(tree[1].q) }),
            GkrRequest::Sample => GkrEvent::Challenge(back(ts.sample())),
            GkrRequest::ReadClaims { round, fold_with } => {
                let c = if round == 0 {
                    [tree[2].p, tree[2].q, tree[3].p, tree[3].q]
                } else {
                    let folded = fold_mle_evals(pq.take().unwrap(), p3(fold_with.unwrap()));
                    [folded.column(0)[0], folded.column(1)[0], folded.column(2)[0], folded.column(3)[0]]
                };
                GkrEvent::Claims(GkrLayerClaims { p_xi_0: back(c[0]), q_xi_0: back(c[1]), p_xi_1: back(c[2]), q_xi_1: back(c[3]) })
            }
            GkrRequest::ComputeRound { round, index, lambda, fold_with, .. } => {
                let cols = match fold_with {
                    None => layer_columns(&tree, round),
                    Some(r) => fold_mle_evals(pq.take().unwrap(), p3(r)),
                };
                let xi: Vec<KbEF> = state.xi.iter().map(|v| p3(*v)).collect();
                let sp = device_round(&cols, &xi[index + 1..], p3(lambda));
                pq = Some(cols);
                GkrEvent::SumEvals([back(sp[0]), back(sp[1])])
            }
            GkrRequest::Done | GkrRequest::Fail(_) | GkrRequest::Unexpected => break,
        };
    }
    Run { state, transcript: ts, requests }
}

fn leaves(n: usize, seed: u32) -> Vec<PFrac> {
    (0..n as u32)
        .map(|i| PFrac {
            p: ef(seed * 7 + i * 3 + 1, i * 5 + 2, seed + i, 9 * i + 4),
            q: ef(seed * 13 + i * 11 + 5, i + 1, 2 * i + seed, 3 * i + 7),
        })
        .collect()
}

fn default_settings() -> PrecomputeSettings {
    PrecomputeSettings { enabled: false, min_blocks_threshold: 0, target_blocks: 0, tail_tile_override: None, min_n: 0 }
}

fn assert_matches_reference(r: &Run, reference: &Reference) {
    assert_eq!(r.state.phase, GkrPhase::Done);
    assert_eq!(r.state.root, Frac { p: back(reference.root.p), q: back(reference.root.q) });
    let claims: Vec<[KbEF; 4]> =
        r.state.claims.iter().map(|c| [p3(c.p_xi_0), p3(c.q_xi_0), p3(c.p_xi_1), p3(c.q_xi_1)]).collect();
    assert_eq!(claims, reference.claims);
    let polys: Vec<[KbEF; 3]> = r.state.round_polys.iter().map(|s| [p3(s[0]), p3(s[1]), p3(s[2])]).collect();
    assert_eq!(polys, reference.polys);
    let xi: Vec<KbEF> = r.state.xi.iter().map(|v| p3(*v)).collect();
    assert_eq!(xi, reference.xi);
    assert_eq!(r.transcript, reference.transcript);
}

#[test]
fn prover_matches_host_reference() {
    for (n, seed) in [(2usize, 1u32), (4, 2), (8, 3), (16, 4), (32, 5)] {
        let ls = leaves(n, seed);
        let r = run(&ls, false, default_settings());
        let reference = host_reference(&ls, false).unwrap();
        assert_matches_reference(&r, &reference);
        let k = n.trailing_zeros() as usize;
        assert_eq!(r.state.claims.len(), k);
        assert_eq!(r.state.round_polys.len(), k * (k - 1) / 2);
        assert_eq!(r.state.xi.len(), k);
    }
}

#[test]
fn prover_request_sequence() {
    let r = run(&leaves(4, 9), false, default_settings());
    let l = r.state.lambda;
    let rq = &r.requests;
    assert_eq!(rq[0], GkrRequest::BuildTree);
    assert_eq!(rq[1], GkrRequest::ReadClaims { round: 0, fold_with: None });
    assert_eq!(rq[2], GkrRequest::Sample); // mu
    assert_eq!(rq[3], GkrRequest::Sample); // lambda
    assert_eq!(
        rq[4],
        GkrRequest::ComputeRound { round: 1, index: 0, strategy: GkrRoundStrategy::FoldEval, lambda: l, fold_with: None }
    );
    assert_eq!(rq[5], GkrRequest::Sample); // r
    assert_eq!(rq[6], GkrRequest::ReadClaims { round: 1, fold_with: Some(r.state.xi[1]) });
    assert_eq!(rq[7], GkrRequest::Sample); // mu
    assert_eq!(rq[8], GkrRequest::Done);
    assert_eq!(rq.len(), 9);
}

#[test]
fn prover_assert_zero_root() {
    // Leaves whose sum is zero: x/q and -x/q.
    let q = ef(5, 6, 7, 8);
    let x = ef(3, 1, 4, 1);
    let ls = vec![
        PFrac { p: x, q },
        PFrac { p: -x, q },
        PFrac { p: ef(2, 0, 0, 0), q: ef(9, 0, 0, 0) },
        PFrac { p: -ef(2, 0, 0, 0), q: ef(9, 0, 0, 0) },
    ];
    let r = run(&ls, true, default_settings());
    let reference = host_reference(&ls, true).unwrap();
    assert_matches_reference(&r, &reference);

    // A nonzero root with the zero check fails before anything is observed.
    let ls = leaves(8, 3);
    let r = run(&ls, true, default_settings());
    assert!(host_reference(&ls, true).is_err());
    assert_eq!(r.state.phase, GkrPhase::Failed);
    assert_eq!(r.requests.last(), Some(&GkrRequest::Fail(GkrRootError::NonzeroRootSum)));
    assert_eq!(r.transcript, Transcript::new());
}

#[test]
fn prover_without_leaves() {
    let mut state = GkrProverState::new(0, true, default_settings());
    let a = gkr_step(&mut state, GkrEvent::Begin);
    assert!(a.observe.is_empty());
    assert_eq!(a.request, GkrRequest::Done);
    assert_eq!(state.phase, GkrPhase::Done);
    assert!(state.claims.is_empty() && state.round_polys.is_empty() && state.xi.is_empty());
}

#[test]
fn prover_rejects_out_of_order_events() {
    let mut state = GkrProverState::new(3, false, default_settings());
    let a = gkr_step(&mut state, GkrEvent::Challenge(back(ef(1, 2, 3, 4))));
    assert_eq!(a.request, GkrRequest::Unexpected);
    assert!(a.observe.is_empty());
    assert_eq!(state.phase, GkrPhase::Start);
    let a = gkr_step(&mut state, GkrEvent::Begin);
    assert_eq!(a.request, GkrRequest::BuildTree);
    let a = gkr_step(&mut state, GkrEvent::Begin);
    assert_eq!(a.request, GkrRequest::Unexpected);
    assert_eq!(state.phase, GkrPhase::AwaitRoot);
    let root = Frac { p: back(ef(4, 0, 0, 0)), q: back(ef(6, 0, 0, 0)) };
    let a = gkr_step(&mut state, GkrEvent::Root(root));
    assert_eq!(a.observe, vec![root.p, root.q]);
    assert_eq!(a.request, GkrRequest::ReadClaims { round: 0, fold_with: None });
}

#[test]
fn round_strategies_interchangeable() {
    // 256 leaves: layers 7 and up have room for a precompute-M window.
    let ls = leaves(256, 6);
    let plain = run(&ls, false, default_settings());
    let tuned = PrecomputeSettings { enabled: true, min_blocks_threshold: 1, target_blocks: 4, tail_tile_override: None, min_n: 0 };
    let precomputed = run(&ls, false, tuned);
    let reference = host_reference(&ls, false).unwrap();
    assert_matches_reference(&plain, &reference);
    assert_matches_reference(&precomputed, &reference);
    let uses_precompute = precomputed.requests.iter().any(|q| {
        matches!(q, GkrRequest::ComputeRound { strategy: GkrRoundStrategy::PrecomputeM, .. })
    });
    assert!(uses_precompute);
    assert!(plain.requests.iter().all(|q| {
        !matches!(q, GkrRequest::ComputeRound { strategy: GkrRoundStrategy::PrecomputeM, .. })
    }));
}

#[test]
fn leaf_count_gives_layer_count() {
    assert_eq!(gkr_total_rounds(0), 0);
    assert_eq!(gkr_total_rounds(2), 1);
    assert_eq!(gkr_total_rounds(8), 3);
    assert_eq!(gkr_total_rounds(1 << 20), 20);
}

#[test]
fn proof_parts_group_round_polys_by_layer() {
    let ls = leaves(16, 7);
    let r = run(&ls, false, default_settings());
    let reference = host_reference(&ls, false).unwrap();
    let ((p, q), layers) = gkr_proof_parts(&r.state);
    assert_eq!((p3(p), p3(q)), (reference.root.p, reference.root.q));
    assert_eq!(layers.len(), 3);
    let mut offset = 0;
    for (k, layer) in layers.iter().enumerate() {
        assert_eq!(layer.len(), k + 1);
        for (j, s) in layer.iter().enumerate() {
            assert_eq!([p3(s[0]), p3(s[1]), p3(s[2])], reference.polys[offset + j]);
        }
        offset += k + 1;
    }
    // Without leaves: the sum 0 / 1 and no layers.
    let mut state = GkrProverState::new(0, false, default_settings());
    gkr_step(&mut state, GkrEvent::Begin);
    let ((p, q), layers) = gkr_proof_parts(&state);
    assert_eq!((p3(p), p3(q)), (KbEF::ZERO, KbEF::ONE));
    assert!(layers.is_empty());
}
