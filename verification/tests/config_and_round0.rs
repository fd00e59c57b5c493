// Round-0 helpers, grinding, parameter sets, tuning variables, kernel flags and the
// Poseidon2 configuration.

use cuda_backend::round0::{round0_constraint_cosets, round0_has_work};
use cuda_backend::env_config::{
    parse_usize, precompute_m_enabled, precompute_m_min_blocks_threshold, precompute_m_min_n,
    precompute_m_tail_tile_override, precompute_m_target_blocks,
};
use cuda_backend::grind::{GrindSearch, GrindStep};
use cuda_backend::kb_field::{kb_mul, KbExt, KB_P};
use cuda_backend::kernels::{ntt_field_use_cpu_gkr, BabyBearKernels, KoalaBearKernels, NttField};
use cuda_backend::params::{
    app_params_with_100_bits_security, compress_params_with_100_bits_security,
    internal_params_with_100_bits_security, kb_app_params_with_100_bits_security,
    kb_compress_params_with_100_bits_security, kb_internal_params_with_100_bits_security,
    kb_leaf_params_with_100_bits_security, kb_root_params_with_100_bits_security,
    leaf_params_with_100_bits_security, root_params_with_100_bits_security, LogUpSecurity,
    WhirProximityStrategy,
};
use cuda_backend::round0::{
    round0_interaction_weights, round0_norm_factor, selector_columns, zerofier_times_quotient,
    InteractionRules,
};
use cuda_backend::stark_config::{
    poseidon2_compress_with_capacity, KOALABEAR_RC16_EXTERNAL_FINAL,
    KOALABEAR_RC16_EXTERNAL_INITIAL, KOALABEAR_RC16_INTERNAL,
};
use p3_field::extension::BinomialExtensionField;
use p3_field::{BasedVectorSpace, PrimeCharacteristicRing, PrimeField32};
use p3_koala_bear::{KoalaBear, Poseidon2KoalaBear};
use p3_poseidon2::ExternalLayerConstants;
use p3_symmetric::{Permutation, PseudoCompressionFunction, TruncatedPermutation};

type KbEF = BinomialExtensionField<KoalaBear, 4>;

fn ext(a: u32, b: u32, c: u32, d: u32) -> KbExt {
    KbExt { c0: a % KB_P, c1: b % KB_P, c2: c % KB_P, c3: d % KB_P }
}

fn p3(e: KbExt) -> KbEF {
    let cs = [e.c0, e.c1, e.c2, e.c3];
    KbEF::from_basis_coefficients_fn(|i| KoalaBear::new(cs[i]))
}

fn back(x: KbEF) -> KbExt {
    let c: &[KoalaBear] = x.as_basis_coefficients_slice();
    KbExt { c0: c[0].as_canonical_u32(), c1: c[1].as_canonical_u32(), c2: c[2].as_canonical_u32(), c3: c[3].as_canonical_u32() }
}

fn default_perm() -> Poseidon2KoalaBear<16> {
    Poseidon2KoalaBear::<16>::new(
        ExternalLayerConstants::new(
            KoalaBear::new_2d_array(KOALABEAR_RC16_EXTERNAL_INITIAL).to_vec(),
            KoalaBear::new_2d_array(KOALABEAR_RC16_EXTERNAL_FINAL).to_vec(),
        ),
        KoalaBear::new_array(KOALABEAR_RC16_INTERNAL).to_vec(),
    )
}

#[test]
fn selectors() {
    assert_eq!(selector_columns(4), vec![1, 0, 0, 0, 1, 1, 1, 0, 0, 0, 0, 1]);
    assert_eq!(selector_columns(1), vec![1, 0, 1]);
    assert_eq!(selector_columns(0), Vec::<u32>::new());
}

#[test]
fn interaction_weights() {
    let ints = vec![
        InteractionRules { count_rule: 0, message_rules: vec![1, 2], bus_index: 3 },
        InteractionRules { count_rule: 2, message_rules: vec![0], bus_index: 0 },
    ];
    let eq = vec![ext(2, 0, 0, 1), ext(5, 7, 0, 0)];
    let beta = vec![ext(1, 0, 0, 0), ext(3, 1, 0, 0), ext(0, 0, 4, 9)];
    let (numer, denom, init) = round0_interaction_weights(&ints, &eq, &beta, 3);
    assert_eq!(numer, vec![eq[0], ext(0, 0, 0, 0), eq[1]]);
    assert_eq!(
        denom,
        vec![back(p3(eq[1]) * p3(beta[0])), back(p3(eq[0]) * p3(beta[0])), back(p3(eq[0]) * p3(beta[1]))]
    );
    let four = KbEF::from(KoalaBear::new(4));
    assert_eq!(init, back(p3(eq[0]) * p3(beta[2]) * four + p3(eq[1]) * p3(beta[1])));
}

#[test]
fn zerofier_product() {
    let (a, b) = (ext(3, 0, 0, 1), ext(0, 9, 0, 0));
    let neg = |x: KbExt| back(-p3(x));
    assert_eq!(zerofier_times_quotient(&vec![a, b], 1, 3), vec![neg(a), neg(b), a, b]);
    assert_eq!(zerofier_times_quotient(&vec![a, b], 2, 5), vec![neg(a), neg(b), ext(0, 0, 0, 0), ext(0, 0, 0, 0), a, b]);
    assert_eq!(zerofier_times_quotient(&vec![a], 0, 1), vec![neg(a), a]);
}

#[test]
fn norm_factor_inverts_powers_of_two() {
    assert_eq!(round0_norm_factor(0), 1);
    assert_eq!(round0_norm_factor(1), 1065353217);
    for k in 0..32u32 {
        let r = round0_norm_factor(k);
        assert_eq!(kb_mul(r, ((1u64 << k) % KB_P as u64) as u32), 1);
    }
}

#[test]
fn grinding_windows() {
    let mut s = GrindSearch::new(2, 10);
    assert_eq!(s.next_step(None), GrindStep::Launch { start: 0 });
    assert_eq!(s.next_step(Some(u32::MAX)), GrindStep::Launch { start: 4 });
    assert_eq!(s.next_step(Some(u32::MAX)), GrindStep::Launch { start: 8 });
    assert_eq!(s.next_step(Some(u32::MAX)), GrindStep::NotFound);
    assert_eq!(s.launched, 3);
    let mut t = GrindSearch::new(2, 10);
    assert_eq!(t.next_step(None), GrindStep::Launch { start: 0 });
    assert_eq!(t.next_step(Some(7)), GrindStep::Found(7));
    let mut w = GrindSearch::new(40, u32::MAX);
    assert_eq!(w.next_step(None), GrindStep::Launch { start: 0 });
    assert_eq!(w.next_step(Some(u32::MAX)), GrindStep::NotFound);
    let mut z = GrindSearch::new(0, 2);
    assert_eq!(z.next_step(None), GrindStep::Launch { start: 0 });
    assert_eq!(z.next_step(None), GrindStep::Launch { start: 1 });
    assert_eq!(z.next_step(None), GrindStep::Launch { start: 2 });
    assert_eq!(z.next_step(None), GrindStep::NotFound);
}

#[test]
fn parameter_sets() {
    let app = app_params_with_100_bits_security(20);
    assert_eq!((app.log_blowup, app.l_skip, app.n_stack, app.w_stack), (1, 4, 16, 2048));
    assert_eq!((app.log_final_poly_len, app.folding_pow_bits, app.mu_pow_bits, app.security_bits), (10, 5, 15, 100));
    assert_eq!(app.proximity, WhirProximityStrategy::UniqueDecoding);
    assert_eq!(app.logup, LogUpSecurity::BabyBear100Bits);
    assert_eq!(app_params_with_100_bits_security(2).n_stack, 0);
    let c = compress_params_with_100_bits_security(21);
    assert_eq!((c.log_blowup, c.n_stack), (2, 17));
    let leaf = leaf_params_with_100_bits_security();
    assert_eq!((leaf.log_blowup, leaf.l_skip, leaf.n_stack, leaf.folding_pow_bits, leaf.mu_pow_bits), (2, 4, 17, 4, 13));
    let internal = internal_params_with_100_bits_security();
    assert_eq!((internal.log_blowup, internal.l_skip, internal.n_stack, internal.w_stack), (3, 2, 17, 512));
    assert_eq!(internal.proximity, WhirProximityStrategy::ListDecoding { m: 2 });
    let root = root_params_with_100_bits_security();
    assert_eq!((root.log_blowup, root.n_stack, root.w_stack, root.folding_pow_bits), (4, 19, 9, 20));
    let kb = kb_app_params_with_100_bits_security(20);
    assert_eq!(kb.logup, LogUpSecurity::KoalaBear100Bits);
    assert_eq!(kb.n_stack, app.n_stack);
    assert_eq!(kb_compress_params_with_100_bits_security(21).n_stack, 17);
    assert_eq!(kb_leaf_params_with_100_bits_security().n_stack, leaf.n_stack);
    assert_eq!(kb_internal_params_with_100_bits_security().w_stack, 512);
    let kroot = kb_root_params_with_100_bits_security();
    assert_eq!(kroot.logup, LogUpSecurity::KoalaBear100Bits);
    assert_eq!((kroot.log_blowup, kroot.n_stack), (root.log_blowup, root.n_stack));
}

#[test]
fn decimal_parsing() {
    assert_eq!(parse_usize("123"), Some(123));
    assert_eq!(parse_usize("+7"), Some(7));
    assert_eq!(parse_usize("007"), Some(7));
    assert_eq!(parse_usize(""), None);
    assert_eq!(parse_usize("+"), None);
    assert_eq!(parse_usize("-1"), None);
    assert_eq!(parse_usize("12a"), None);
    assert_eq!(parse_usize(" 1"), None);
    let max = usize::MAX.to_string();
    assert_eq!(parse_usize(&max), Some(usize::MAX));
    let over = format!("{}0", usize::MAX);
    assert_eq!(parse_usize(&over), None);
    for s in ["0", "42", "+13", "99999", "x", "4 2"] {
        assert_eq!(parse_usize(s), s.parse::<usize>().ok(), "{s}");
    }
}

#[test]
fn tuning_values() {
    assert!(precompute_m_enabled(None));
    for off in ["0", "false", "FALSE", "no", "NO"] {
        assert!(!precompute_m_enabled(Some(off)), "{off}");
    }
    for on in ["1", "No", "False", "", "yes"] {
        assert!(precompute_m_enabled(Some(on)), "{on}");
    }
    assert_eq!(precompute_m_min_blocks_threshold(None), 64);
    assert_eq!(precompute_m_min_blocks_threshold(Some("0")), 1);
    assert_eq!(precompute_m_min_blocks_threshold(Some("abc")), 64);
    assert_eq!(precompute_m_min_blocks_threshold(Some("32")), 32);
    assert_eq!(precompute_m_target_blocks(None), 1024);
    assert_eq!(precompute_m_target_blocks(Some("5")), 5);
    assert_eq!(precompute_m_target_blocks(Some("0")), 1);
    assert_eq!(precompute_m_tail_tile_override(None), None);
    assert_eq!(precompute_m_tail_tile_override(Some("100")), Some(256));
    assert_eq!(precompute_m_tail_tile_override(Some("9999")), Some(4096));
    assert_eq!(precompute_m_tail_tile_override(Some("1000")), Some(1000));
    assert_eq!(precompute_m_tail_tile_override(Some("x")), None);
    assert_eq!(precompute_m_min_n(None), 22);
    assert_eq!(precompute_m_min_n(Some("16")), 16);
    assert_eq!(precompute_m_min_n(Some("bad")), 22);
}

#[test]
fn kernel_flags() {
    assert!(!BabyBearKernels::use_cpu_gkr());
    assert!(!BabyBearKernels::use_cpu_gkr_input_eval());
    assert!(!BabyBearKernels::use_cpu_zerocheck_mle());
    assert!(!KoalaBearKernels::use_cpu_gkr());
    assert!(!KoalaBearKernels::use_cpu_gkr_input_eval());
    assert!(!KoalaBearKernels::use_cpu_zerocheck_mle());
    assert!(ntt_field_use_cpu_gkr(NttField::KoalaBear));
    assert!(!ntt_field_use_cpu_gkr(NttField::BabyBear));
}

#[test]
fn test_kb_compress_layer() {
    let left: [u32; 8] = [1, 2, 3, 4, 5, 6, 7, 8];
    let right: [u32; 8] = [9, 10, 11, 12, 13, 14, 15, 16];
    let (digest, capacity) = poseidon2_compress_with_capacity(left, right);
    let compress = TruncatedPermutation::<_, 2, 8, 16>::new(default_perm());
    let exp: [KoalaBear; 8] = compress.compress([KoalaBear::new_array(left), KoalaBear::new_array(right)]);
    assert_eq!(digest, exp.map(|v| v.as_canonical_u32()), "compress_layer mismatch!");
    let mut state = [KoalaBear::ZERO; 16];
    state[..8].copy_from_slice(&KoalaBear::new_array(left));
    state[8..].copy_from_slice(&KoalaBear::new_array(right));
    default_perm().permute_mut(&mut state);
    let full: Vec<u32> = state.iter().map(|v| v.as_canonical_u32()).collect();
    assert_eq!(&full[..8], &digest[..]);
    assert_eq!(&full[8..], &capacity[..]);
    assert_ne!(digest, left);
    assert_ne!(capacity, right);
}

#[test]
fn compress_is_deterministic_and_input_sensitive() {
    let a = poseidon2_compress_with_capacity([0; 8], [0; 8]);
    let b = poseidon2_compress_with_capacity([0; 8], [0; 8]);
    let c = poseidon2_compress_with_capacity([0; 8], [0, 0, 0, 0, 0, 0, 0, 1]);
    assert_eq!(a, b);
    assert_ne!(a.0, c.0);
    assert!(a.0.iter().chain(a.1.iter()).all(|&v| v < KB_P));
}

#[test]
fn test_kb_poseidon2_single_permutation() {
    let val = KoalaBear::new(7);
    assert_eq!((val * val * val).as_canonical_u32(), 343);
    let mut state = [KoalaBear::ZERO; 16];
    for i in 0..8 {
        state[i] = KoalaBear::new(i as u32 + 1);
    }
    default_perm().permute_mut(&mut state);
    let (lo, hi) = poseidon2_compress_with_capacity([1, 2, 3, 4, 5, 6, 7, 8], [0; 8]);
    let got: Vec<u32> = lo.iter().chain(hi.iter()).copied().collect();
    let expected: Vec<u32> = state.iter().map(|v| v.as_canonical_u32()).collect();
    assert_eq!(got, expected);
}

#[test]
fn round0_work_and_cosets() {
    assert!(round0_has_work(3, 2));
    assert!(!round0_has_work(0, 2));
    assert!(!round0_has_work(3, 0));
    assert_eq!(round0_constraint_cosets(0), None);
    assert_eq!(round0_constraint_cosets(1), None);
    assert_eq!(round0_constraint_cosets(2), Some(1));
    assert_eq!(round0_constraint_cosets(5), Some(4));
}
