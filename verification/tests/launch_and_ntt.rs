// Launch-argument checks, NTT step planning and the host small-domain NTT.

use cuda_backend::launch_checks::{
    uses_round0_coset_parallel, validate_gpu_l_skip, validate_kb_ntt_log_domain,
    validate_mle_num_x, validate_round0_num_cosets, LaunchError,
};
use cuda_backend::ntt_plan::{
    batch_ntt_kb_plan, batch_ntt_small_kb, KbNttImpl, NttStepLaunch, KB_TWO_ADIC_GENERATORS,
};
use openvm_stark_backend::dft::Radix2BowersSerial;
use p3_dft::TwoAdicSubgroupDft;
use p3_field::{Field, PrimeCharacteristicRing, PrimeField32, TwoAdicField};
use p3_koala_bear::KoalaBear;

#[test]
fn l_skip_limit() {
    assert_eq!(validate_gpu_l_skip(0), Ok(()));
    assert_eq!(validate_gpu_l_skip(10), Ok(()));
    assert_eq!(validate_gpu_l_skip(11), Err(LaunchError::InvalidArgument));
}

#[test]
fn mle_grid_limit() {
    assert_eq!(validate_mle_num_x(0), Err(LaunchError::InvalidArgument));
    assert_eq!(validate_mle_num_x(1), Ok(()));
    assert_eq!(validate_mle_num_x(65535), Ok(()));
    assert_eq!(validate_mle_num_x(65536), Err(LaunchError::InvalidArgument));
}

#[test]
fn round0_coset_rules() {
    assert!(uses_round0_coset_parallel(100, 16));
    assert!(!uses_round0_coset_parallel(2048, 16));
    assert!(uses_round0_coset_parallel(2047, 16));
    // The product saturates instead of wrapping.
    assert!(!uses_round0_coset_parallel(u32::MAX, u32::MAX));
    assert_eq!(validate_round0_num_cosets(2048, 16, 4), Ok(()));
    assert_eq!(validate_round0_num_cosets(2048, 16, 5), Err(LaunchError::InvalidArgument));
    assert_eq!(validate_round0_num_cosets(100, 16, 9), Ok(()));
}

#[test]
fn ntt_log_domain_limit() {
    assert_eq!(validate_kb_ntt_log_domain(24), Ok(()));
    assert_eq!(validate_kb_ntt_log_domain(25), Err(LaunchError::InvalidArgument));
}

#[test]
fn ntt_impl_steps() {
    let mut n = KbNttImpl::new(20, 1 << 21, 3, false);
    assert_eq!(n.stage, 0);
    let a = n.step(6);
    assert_eq!((a.radix, a.stage, a.iterations), (6, 0, 6));
    let b = n.step(7);
    assert_eq!((b.radix, b.stage, b.iterations), (7, 6, 7));
    let c = n.step(3);
    assert_eq!((c.radix, c.stage, c.iterations), (6, 13, 3));
    assert_eq!(n.stage, 16);
    assert_eq!((n.lg_domain_size, n.padded_poly_size, n.poly_count, n.is_intt), (20, 1 << 21, 3, false));
}

fn plan_steps(h: u32, blowup: u32) -> Vec<(u32, u32, u32)> {
    let p = batch_ntt_kb_plan(h, blowup, true).expect("non-empty trace");
    assert!(p.bit_reverse);
    assert_eq!(p.padded_poly_size, 1 << (h + blowup));
    p.steps.iter().map(|s: &NttStepLaunch| (s.radix, s.stage, s.iterations)).collect()
}

#[test]
fn ntt_plan_splits_levels() {
    assert!(batch_ntt_kb_plan(0, 1, false).is_none());
    assert_eq!(plan_steps(4, 1), vec![(6, 0, 4)]);
    assert_eq!(plan_steps(10, 2), vec![(10, 0, 10)]);
    assert_eq!(plan_steps(11, 1), vec![(6, 0, 6), (6, 6, 5)]);
    assert_eq!(plan_steps(17, 1), vec![(9, 0, 9), (8, 9, 8)]);
    assert_eq!(plan_steps(20, 1), vec![(6, 0, 6), (6, 6, 6), (8, 12, 8)]);
    assert_eq!(plan_steps(24, 0), vec![(8, 0, 8), (8, 8, 8), (8, 16, 8)]);
}

fn p3_dft_chunk(vals: &[u32], inverse: bool) -> Vec<u32> {
    let input: Vec<KoalaBear> = vals.iter().map(|&v| KoalaBear::new(v)).collect();
    let out = if inverse { Radix2BowersSerial.idft(input) } else { Radix2BowersSerial.dft(input) };
    out.iter().map(|v| v.as_canonical_u32()).collect()
}

#[test]
fn test_kb_ntt_known_input() {
    let mut buf = vec![1u32, 0, 0, 0];
    batch_ntt_small_kb(&mut buf, 2, 1, false).unwrap();
    assert_eq!(buf, vec![1, 1, 1, 1]);
    let mut buf = vec![1u32, 1, 1, 1];
    batch_ntt_small_kb(&mut buf, 2, 1, true).unwrap();
    assert_eq!(buf, vec![1, 0, 0, 0]);
    let mut buf = vec![0u32, 1, 0, 0];
    batch_ntt_small_kb(&mut buf, 2, 1, false).unwrap();
    assert_eq!(buf, p3_dft_chunk(&[0, 1, 0, 0], false));
    let omega4 = KoalaBear::two_adic_generator(2);
    assert_eq!(buf[1], omega4.as_canonical_u32());
    assert_eq!(buf[2], (KoalaBear::ZERO - KoalaBear::ONE).as_canonical_u32());
}

#[test]
fn test_kb_batch_ntt_small_vs_cpu() {
    let input: Vec<u32> = (0..32u32).map(|i| i * 7 + 3).collect();
    let mut buf = input.clone();
    batch_ntt_small_kb(&mut buf, 2, 8, true).unwrap();
    for c in 0..8 {
        assert_eq!(&buf[4 * c..4 * c + 4], p3_dft_chunk(&input[4 * c..4 * c + 4], true).as_slice());
    }
    assert_ne!(buf, input);
}

#[test]
fn small_ntt_roundtrip_and_edges() {
    let input: Vec<u32> = (0..19u32).map(|i| (i * 1_000_003) % 0x7f000001).collect();
    let mut buf = input.clone();
    batch_ntt_small_kb(&mut buf, 3, 2, false).unwrap();
    // The trailing partial chunk is left alone.
    assert_eq!(&buf[16..], &input[16..]);
    assert_eq!(&buf[0..8], p3_dft_chunk(&input[0..8], false).as_slice());
    batch_ntt_small_kb(&mut buf, 3, 2, true).unwrap();
    assert_eq!(buf, input);
    let mut same = input.clone();
    assert_eq!(batch_ntt_small_kb(&mut same, 0, 5, false), Ok(()));
    assert_eq!(batch_ntt_small_kb(&mut same, 4, 0, false), Ok(()));
    assert_eq!(same, input);
    assert_eq!(batch_ntt_small_kb(&mut same, 11, 1, false), Err(LaunchError::InvalidArgument));
    assert_eq!(same, input);
}

#[test]
fn small_ntt_transforms_only_cnt_blocks_chunks() {
    let input: Vec<u32> = (0..16u32).map(|i| i * i + 1).collect();
    let mut buf = input.clone();
    batch_ntt_small_kb(&mut buf, 2, 2, false).unwrap();
    for c in 0..2 {
        assert_eq!(&buf[4 * c..4 * c + 4], p3_dft_chunk(&input[4 * c..4 * c + 4], false).as_slice());
    }
    // Everything after cnt_blocks << l_skip is left as it is.
    assert_eq!(&buf[8..], &input[8..]);
    let mut buf = vec![0u32, 0, 1, 0];
    batch_ntt_small_kb(&mut buf, 1, 1, false).unwrap();
    assert_eq!(buf, vec![0, 0, 1, 0]);
    // A buffer shorter than cnt_blocks chunks has its full chunks transformed.
    let mut buf = vec![1u32, 2, 3, 4, 5];
    batch_ntt_small_kb(&mut buf, 1, 7, false).unwrap();
    assert_eq!(buf, vec![3, 0x7f000000, 7, 0x7f000000, 5]);
}

fn bitrev_chunks(v: &[u32], chunk_len: usize) -> Vec<u32> {
    let bits = chunk_len.trailing_zeros() as usize;
    let mut out = v.to_vec();
    for chunk in out.chunks_exact_mut(chunk_len) {
        for i in 0..chunk_len {
            let j = i.reverse_bits() >> (usize::BITS as usize - bits);
            if i < j {
                chunk.swap(i, j);
            }
        }
    }
    out
}

#[test]
fn test_kb_ntt_self_consistency() {
    let input: Vec<u32> = (0..16u32).map(|i| i * 3 + 5).collect();
    let mut buf = input.clone();
    batch_ntt_small_kb(&mut buf, 2, 4, false).unwrap();
    assert_ne!(buf, input);
    batch_ntt_small_kb(&mut buf, 2, 4, true).unwrap();
    assert_eq!(buf, input, "NTT is not self-consistent");
}

#[test]
fn test_kb_ntt_bitrev_consistency() {
    let input: Vec<u32> = (0..16u32).map(|i| i * 3 + 5).collect();
    let bitrev_input = bitrev_chunks(&input, 4);
    let mut buf = bitrev_input.clone();
    batch_ntt_small_kb(&mut buf, 2, 4, false).unwrap();
    batch_ntt_small_kb(&mut buf, 2, 4, true).unwrap();
    // Forward then inverse gives back its input, which is the bit-reversed one.
    assert_eq!(buf, bitrev_input);
    assert_ne!(buf, input);
}

#[test]
fn test_kb_intt_convention() {
    let values: Vec<u32> = (0..16u32).map(|i| i * 7 + 3).collect();
    let mut buf = values.clone();
    batch_ntt_small_kb(&mut buf, 2, 4, true).unwrap();
    let plain: Vec<u32> = values.chunks_exact(4).flat_map(|c| p3_dft_chunk(c, true)).collect();
    assert_eq!(buf, plain);
    let br = bitrev_chunks(&values, 4);
    let idft_bitrev: Vec<u32> = br.chunks_exact(4).flat_map(|c| p3_dft_chunk(c, true)).collect();
    assert_ne!(buf, idft_bitrev);
}

#[test]
fn test_kb_ntt_forward_inverse_identity() {
    let input: Vec<u32> = (0..16u32).map(|i| i * 7 + 3).collect();
    let mut buf = bitrev_chunks(&input, 4);
    batch_ntt_small_kb(&mut buf, 2, 4, false).unwrap();
    batch_ntt_small_kb(&mut buf, 2, 4, true).unwrap();
    assert_eq!(buf, bitrev_chunks(&input, 4));
    let mut fwd = input.clone();
    batch_ntt_small_kb(&mut fwd, 2, 4, false).unwrap();
    let mut back = bitrev_chunks(&fwd, 4);
    batch_ntt_small_kb(&mut back, 2, 4, true).unwrap();
    let expected: Vec<u32> = bitrev_chunks(&fwd, 4).chunks_exact(4).flat_map(|c| p3_dft_chunk(c, true)).collect();
    assert_eq!(back, expected);
}

#[test]
fn test_kb_ntt_twiddle_direct() {
    let omega4 = KoalaBear::two_adic_generator(2);
    for cnt_blocks in [1usize, 2, 4, 8] {
        let mut buf = vec![0u32; cnt_blocks * 4];
        buf[1] = 1;
        batch_ntt_small_kb(&mut buf, 2, cnt_blocks, false).unwrap();
        // The DFT of the monomial x evaluates it on the subgroup: 1, omega, omega^2, omega^3.
        assert_eq!(buf[0], 1);
        assert_eq!(buf[1], omega4.as_canonical_u32());
        assert_eq!(buf[2], (omega4 * omega4).as_canonical_u32());
        assert!(buf[4..].iter().all(|&v| v == 0));
    }
}

#[test]
fn test_kb_ntt_twiddle_factor() {
    let omega4 = KoalaBear::two_adic_generator(2);
    let omega6 = KoalaBear::two_adic_generator(6);
    let omega6_16 = (0..16).fold(KoalaBear::ONE, |acc, _| acc * omega6);
    assert_eq!(omega6_16, omega4, "omega_6^16 should equal omega_4");
    let mut buf = vec![0u32, 1, 0, 0];
    batch_ntt_small_kb(&mut buf, 2, 1, false).unwrap();
    assert_eq!(buf[1], omega4.as_canonical_u32());
    assert_ne!(buf[1], omega4.inverse().as_canonical_u32());
}

#[test]
fn two_adic_generator_table() {
    for (k, &g) in KB_TWO_ADIC_GENERATORS.iter().enumerate() {
        assert_eq!(g, KoalaBear::two_adic_generator(k).as_canonical_u32());
    }
}

#[test]
fn small_ntt_is_subgroup_evaluation() {
    for l_skip in 1..=6usize {
        let n = 1usize << l_skip;
        let coeffs: Vec<u32> = (0..n as u32).map(|j| (j * 2654435761u32) % 0x7f000001).collect();
        let w = KoalaBear::new(KB_TWO_ADIC_GENERATORS[l_skip]);
        // evaluations at w^i: sum_j c_j w^(i j)
        let evals: Vec<u32> = (0..n)
            .map(|i| {
                let wi = w.exp_u64(i as u64);
                let mut acc = KoalaBear::ZERO;
                for (j, &c) in coeffs.iter().enumerate() {
                    acc += KoalaBear::new(c) * wi.exp_u64(j as u64);
                }
                acc.as_canonical_u32()
            })
            .collect();
        let mut buf = coeffs.clone();
        batch_ntt_small_kb(&mut buf, l_skip, 1, false).unwrap();
        assert_eq!(buf, evals);
        // coefficients from evaluations: n^-1 sum_j e_j w^(-i j)
        let n_inv = KoalaBear::new(n as u32).inverse();
        let w_inv = w.inverse();
        let back: Vec<u32> = (0..n)
            .map(|i| {
                let wi = w_inv.exp_u64(i as u64);
                let mut acc = KoalaBear::ZERO;
                for (j, &e) in evals.iter().enumerate() {
                    acc += KoalaBear::new(e) * wi.exp_u64(j as u64);
                }
                (acc * n_inv).as_canonical_u32()
            })
            .collect();
        assert_eq!(back, coeffs);
        let mut buf = evals.clone();
        batch_ntt_small_kb(&mut buf, l_skip, 1, true).unwrap();
        assert_eq!(buf, coeffs);
    }
}
