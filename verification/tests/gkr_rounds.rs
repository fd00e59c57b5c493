// Eq polynomials, interpolation and the per-round bookkeeping of the GKR sumcheck,
// with expected values computed in the Plonky3 KoalaBear quartic extension.

use cuda_backend::gkr_math::{
    add_alpha_to_denominators, eval_eq_1, eval_eq_mle, eval_mle_table, frac_add,
    initial_round_claim, interpolate_linear_at_01, interpolate_quadratic_at_012,
    reconstruct_s_evals, reduce_to_single_evaluation, root_observations, update_round_claim, Frac,
    GkrLayerClaims, GkrRootError, KB_INV_2,
};
use cuda_backend::kb_field::{KbExt, KB_P};
use openvm_stark_backend::poly_common;
use p3_field::extension::BinomialExtensionField;
use p3_field::{BasedVectorSpace, Field, PrimeCharacteristicRing, PrimeField32};
use p3_koala_bear::KoalaBear;

type KbEF = BinomialExtensionField<KoalaBear, 4>;

fn ext(a: u32, b: u32, c: u32, d: u32) -> KbExt {
    KbExt { c0: a % KB_P, c1: b % KB_P, c2: c % KB_P, c3: d % KB_P }
}

fn base(a: u32) -> KbExt {
    ext(a, 0, 0, 0)
}

fn p3(e: KbExt) -> KbEF {
    let cs = [e.c0, e.c1, e.c2, e.c3];
    KbEF::from_basis_coefficients_fn(|i| KoalaBear::new(cs[i]))
}

fn back(x: KbEF) -> KbExt {
    let c: &[KoalaBear] = x.as_basis_coefficients_slice();
    KbExt { c0: c[0].as_canonical_u32(), c1: c[1].as_canonical_u32(), c2: c[2].as_canonical_u32(), c3: c[3].as_canonical_u32() }
}

fn p3_eq1(x: KbEF, y: KbEF) -> KbEF {
    x * y + (KbEF::ONE - x) * (KbEF::ONE - y)
}

fn p3_quad(e: [KbEF; 3], x: KbEF) -> KbEF {
    let one = KbEF::ONE;
    let two = one + one;
    let inv2 = two.inverse();
    e[0] * (x - one) * (x - two) * inv2 - e[1] * x * (x - two) + e[2] * x * (x - one) * inv2
}

#[test]
fn half_constant() {
    assert_eq!(KoalaBear::new(KB_INV_2) * KoalaBear::new(2), KoalaBear::ONE);
}

#[test]
fn eq_one_variable() {
    assert_eq!(eval_eq_1(base(0), base(0)), base(1));
    assert_eq!(eval_eq_1(base(1), base(0)), base(0));
    assert_eq!(eval_eq_1(base(1), base(1)), base(1));
    // eq(2, 3) = 6 + (-1)(-2) = 8
    assert_eq!(eval_eq_1(base(2), base(3)), base(8));
    let (x, y) = (ext(5, 6, 7, 8), ext(9, 10, KB_P - 1, 12));
    assert_eq!(eval_eq_1(x, y), back(p3_eq1(p3(x), p3(y))));
}

#[test]
fn eq_multilinear() {
    let xs = vec![ext(1, 2, 3, 4), base(7), ext(0, 0, 9, 1)];
    let ys = vec![base(3), ext(4, 4, 4, 4), base(0)];
    let exp = xs.iter().zip(ys.iter()).fold(KbEF::ONE, |acc, (x, y)| acc * p3_eq1(p3(*x), p3(*y)));
    assert_eq!(eval_eq_mle(&xs, &ys), back(exp));
    assert_eq!(eval_eq_mle(&vec![], &vec![]), base(1));
    // On the hypercube eq is the indicator of equality.
    assert_eq!(eval_eq_mle(&vec![base(1), base(0)], &vec![base(1), base(0)]), base(1));
    assert_eq!(eval_eq_mle(&vec![base(1), base(0)], &vec![base(1), base(1)]), base(0));
}

#[test]
fn linear_and_quadratic_interpolation() {
    // The line through (0, 3) and (1, 5) at 4 is 11.
    assert_eq!(interpolate_linear_at_01([base(3), base(5)], base(4)), base(11));
    // x^2 + 1: values 1, 2, 5 at 0, 1, 2; at 3 it is 10 and at 7 it is 50.
    let e = [base(1), base(2), base(5)];
    assert_eq!(interpolate_quadratic_at_012(e, base(3)), base(10));
    assert_eq!(interpolate_quadratic_at_012(e, base(7)), base(50));
    for (i, x) in [base(0), base(1), base(2)].iter().enumerate() {
        assert_eq!(interpolate_quadratic_at_012(e, *x), e[i]);
    }
    let g = [ext(1, 2, 3, 4), ext(9, 8, 7, 6), ext(KB_P - 5, 0, 11, 2)];
    let x = ext(123, 456, 789, 1011);
    assert_eq!(interpolate_quadratic_at_012(g, x), back(p3_quad([p3(g[0]), p3(g[1]), p3(g[2])], p3(x))));
}

#[test]
fn layer_claims_reduce_on_the_line() {
    let claims = GkrLayerClaims { p_xi_0: base(3), q_xi_0: base(10), p_xi_1: base(5), q_xi_1: base(4) };
    assert_eq!(reduce_to_single_evaluation(claims, base(0)), (base(3), base(10)));
    assert_eq!(reduce_to_single_evaluation(claims, base(1)), (base(5), base(4)));
    // 10 + (4 - 10) * 2 = -2
    assert_eq!(reduce_to_single_evaluation(claims, base(2)), (base(7), base(KB_P - 2)));
}

#[test]
fn round_reconstruction_meets_previous_claim() {
    let xi = ext(11, 22, 33, 44);
    let eq_acc = ext(2, 0, 0, 1);
    let sp_dev = [ext(5, 6, 7, 8), ext(9, 1, 2, 3)];
    let prev = ext(100, 200, 300, 400);
    let (s, sp) = reconstruct_s_evals(sp_dev, prev, xi, eq_acc);
    let (pxi, pacc, pprev) = (p3(xi), p3(eq_acc), p3(prev));
    let sp1 = p3(sp_dev[0]) * pacc;
    let sp2 = p3(sp_dev[1]) * pacc;
    let sp0 = (pprev - pxi * sp1) * (KbEF::ONE - pxi).inverse();
    assert_eq!(sp, [back(sp0), back(sp1), back(sp2)]);
    // (1 - xi) s'(0) + xi s'(1) = prev
    assert_eq!(back((KbEF::ONE - pxi) * p3(sp[0]) + pxi * p3(sp[1])), prev);
    let three = KbEF::from(KoalaBear::new(3));
    let sp3 = p3_quad([sp0, sp1, sp2], three);
    let two = KbEF::from(KoalaBear::new(2));
    assert_eq!(
        s,
        [back(p3_eq1(pxi, KbEF::ONE) * sp1), back(p3_eq1(pxi, two) * sp2), back(p3_eq1(pxi, three) * sp3)]
    );
    // Next round: the claim is eq(xi, r) s'(r).
    let r = ext(77, 0, 5, 0);
    let (acc, next) = update_round_claim(sp, xi, r, eq_acc);
    let eq_r = p3_eq1(pxi, p3(r));
    assert_eq!(acc, back(pacc * eq_r));
    assert_eq!(next, back(eq_r * p3_quad([sp0, sp1, sp2], p3(r))));
}

#[test]
fn alpha_shifts_denominators() {
    let mut fracs = vec![
        Frac { p: base(1), q: base(2) },
        Frac { p: ext(3, 4, 5, 6), q: ext(KB_P - 1, 0, 0, 7) },
    ];
    let alpha = ext(1, 1, 0, 0);
    add_alpha_to_denominators(&mut fracs, alpha);
    assert_eq!(fracs[0], Frac { p: base(1), q: ext(3, 1, 0, 0) });
    assert_eq!(fracs[1], Frac { p: ext(3, 4, 5, 6), q: ext(0, 1, 0, 7) });
    let sum = frac_add(fracs[0], fracs[1]);
    assert_eq!(sum.q, back(p3(fracs[0].q) * p3(fracs[1].q)));
}

#[test]
fn eq_table_entries() {
    let pts = vec![ext(3, 0, 1, 0), base(5)];
    let mut out = vec![base(42); 6];
    eval_mle_table(&pts, &mut out);
    let (x0, x1) = (p3(pts[0]), p3(pts[1]));
    let one = KbEF::ONE;
    let exp = [(one - x0) * (one - x1), (one - x0) * x1, x0 * (one - x1), x0 * x1];
    for b in 0..4 {
        assert_eq!(out[b], back(exp[b]), "entry {b}");
    }
    assert_eq!(out[4], base(42));
    assert_eq!(out[5], base(42));
    // The table sums to one.
    let total = out[..4].iter().fold(KbEF::ZERO, |acc, v| acc + p3(*v));
    assert_eq!(total, KbEF::ONE);
    let mut single = vec![base(9)];
    eval_mle_table(&vec![], &mut single);
    assert_eq!(single, vec![base(1)]);
}

#[test]
fn layer_sum_claim() {
    let claims = GkrLayerClaims { p_xi_0: base(3), q_xi_0: base(10), p_xi_1: base(5), q_xi_1: base(4) };
    // at mu = 2: numerator 7, denominator -2; 7 + 3 * (-2) = 1
    assert_eq!(initial_round_claim(claims, base(2), base(3)), base(1));
    let c = GkrLayerClaims { p_xi_0: ext(1, 2, 3, 4), q_xi_0: ext(5, 6, 7, 8), p_xi_1: ext(9, 9, 9, 9), q_xi_1: ext(0, 1, 0, 1) };
    let (mu, lambda) = (ext(11, 0, 13, 0), ext(2, 3, 5, 7));
    let numer = p3(c.p_xi_0) + (p3(c.p_xi_1) - p3(c.p_xi_0)) * p3(mu);
    let denom = p3(c.q_xi_0) + (p3(c.q_xi_1) - p3(c.q_xi_0)) * p3(mu);
    assert_eq!(initial_round_claim(c, mu, lambda), back(numer + p3(lambda) * denom));
}

#[test]
fn root_is_checked_and_observed() {
    let zero_sum = Frac { p: base(0), q: ext(4, 5, 6, 7) };
    assert_eq!(root_observations(zero_sum, true), Ok(vec![ext(4, 5, 6, 7)]));
    assert_eq!(root_observations(zero_sum, false), Ok(vec![base(0), ext(4, 5, 6, 7)]));
    let nonzero = Frac { p: ext(0, 0, 0, 1), q: base(1) };
    assert_eq!(root_observations(nonzero, true), Err(GkrRootError::NonzeroRootSum));
    assert_eq!(root_observations(nonzero, false), Ok(vec![ext(0, 0, 0, 1), base(1)]));
}

#[test]
fn agrees_with_backend_polynomial_helpers() {
    let xs = vec![ext(1, 2, 3, 4), ext(7, 0, 0, 9), ext(KB_P - 3, 5, 0, 1)];
    let ys = vec![ext(3, 1, 4, 1), ext(5, 9, 2, 6), ext(0, 0, 0, 0)];
    let px: Vec<KbEF> = xs.iter().map(|v| p3(*v)).collect();
    let py: Vec<KbEF> = ys.iter().map(|v| p3(*v)).collect();
    let expected: KbEF = poly_common::eval_eq_mle(&px, &py);
    assert_eq!(eval_eq_mle(&xs, &ys), back(expected));
    let e2 = [ext(10, 20, 30, 40), ext(KB_P - 1, 2, 3, 4)];
    let x = ext(99, 98, 97, 96);
    assert_eq!(
        interpolate_linear_at_01(e2, x),
        back(poly_common::interpolate_linear_at_01(&[p3(e2[0]), p3(e2[1])], p3(x)))
    );
    let e3 = [ext(1, 0, 0, 5), ext(6, 6, 6, 6), ext(0, 3, KB_P - 8, 2)];
    assert_eq!(
        interpolate_quadratic_at_012(e3, x),
        back(poly_common::interpolate_quadratic_at_012(&[p3(e3[0]), p3(e3[1]), p3(e3[2])], p3(x)))
    );
    // The eq table in natural order: the backend puts the first point in the lowest
    // bit, the table here puts it in the highest one.
    let mut out = vec![base(0); 8];
    eval_mle_table(&xs, &mut out);
    let table = poly_common::evals_eq_hypercube_serial(&px);
    for b in 0..8usize {
        let rev = ((b & 1) << 2) | (b & 2) | ((b >> 2) & 1);
        assert_eq!(out[b], back(table[rev]), "entry {b}");
    }
}
