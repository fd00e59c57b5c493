// The opening point built from the reduced point, against the backend's repeated
// squaring.

use cuda_backend::kb_field::{KbExt, KB_P};
use cuda_backend::opening::opening_point_cube;
use openvm_stark_backend::poly_common::Squarable;
use p3_field::extension::BinomialExtensionField;
use p3_field::{BasedVectorSpace, PrimeField32};
use p3_koala_bear::KoalaBear;

type KbEF = BinomialExtensionField<KoalaBear, 4>;

fn ext(a: u32, b: u32, c: u32, d: u32) -> KbExt {
    KbExt { c0: a % KB_P, c1: b % KB_P, c2: c % KB_P, c3: d % KB_P }
}

fn p3(e: KbExt) -> KbEF {
    let cs = [e.c0, e.c1, e.c2, e.c3];
    KbEF::from_basis_coefficients_fn(|i| KoalaBear::new(cs[i]))
}

fn back(x: KbEF) -> KbExt {
    let c: &[KoalaBear] = x.as_basis_coefficients_slice();
    KbExt { c0: c[0].as_canonical_u32(), c1: c[1].as_canonical_u32(), c2: c[2].as_canonical_u32(), c3: c[3].as_canonical_u32() }
}

#[test]
fn opening_point_matches_repeated_squares() {
    let u = vec![ext(3, 1, 4, 1), ext(5, 9, 2, 6), ext(5, 3, 5, 8)];
    for l_skip in 0..5usize {
        let got = opening_point_cube(&u, l_skip);
        let expected: Vec<KbExt> = p3(u[0])
            .exp_powers_of_2()
            .take(l_skip)
            .map(back)
            .chain(u[1..].iter().copied())
            .collect();
        assert_eq!(got, expected);
        assert_eq!(got.len(), l_skip + u.len() - 1);
    }
    // u0 = 2: 2, 4, 16, 256
    let got = opening_point_cube(&vec![ext(2, 0, 0, 0)], 4);
    assert_eq!(got, vec![ext(2, 0, 0, 0), ext(4, 0, 0, 0), ext(16, 0, 0, 0), ext(256, 0, 0, 0)]);
}
