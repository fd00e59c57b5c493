//! The KoalaBear prime field and its degree-4 binomial extension `F[X]/(X^4 - 3)`,
//! on canonical values.

use p3_field::{BasedVectorSpace, Field, PrimeField32};
use vstd::prelude::*;

verus! {

/// The KoalaBear prime `2^31 - 2^24 + 1`.
pub const KB_P: u32 = 0x7f000001;

/// The non-residue `W` of the extension: `X^4 = W`.
pub const KB_EXT_W: u32 = 3;

/// The prime as an integer.
pub open spec fn p() -> int {
    KB_P as int
}

/// True when `x` is a canonical KoalaBear value.
pub open spec fn is_kb(x: u32) -> bool {
    x < KB_P
}

/// `x` reduced into a canonical value.
pub open spec fn red(x: int) -> u32 {
    (x % p()) as u32
}

/// Sum of two canonical values.
pub fn kb_add(a: u32, b: u32) -> (r: u32)
    requires
        is_kb(a),
        is_kb(b),
    ensures
        r == red(a + b),
        is_kb(r),
{
    let s: u64 = a as u64 + b as u64;
    (s % (KB_P as u64)) as u32
}

/// Difference of two canonical values.
pub fn kb_sub(a: u32, b: u32) -> (r: u32)
    requires
        is_kb(a),
        is_kb(b),
    ensures
        r == red(a - b),
        is_kb(r),
{
    let s: u64 = a as u64 + (KB_P - b) as u64;
    proof {
        vstd::arithmetic::div_mod::lemma_mod_add_multiples_vanish(a - b, p());
    }
    (s % (KB_P as u64)) as u32
}

/// Negation of a canonical value.
pub fn kb_neg(a: u32) -> (r: u32)
    requires
        is_kb(a),
    ensures
        r == red(-a),
        is_kb(r),
{
    kb_sub(0, a)
}

/// Product of two canonical values.
pub fn kb_mul(a: u32, b: u32) -> (r: u32)
    requires
        is_kb(a),
        is_kb(b),
    ensures
        r == red(a * b),
        is_kb(r),
{
    proof {
        assert(a * b <= (KB_P as int) * (KB_P as int)) by (nonlinear_arith)
            requires a < KB_P, b < KB_P;
    }
    let s: u64 = a as u64 * b as u64;
    (s % (KB_P as u64)) as u32
}

/// Multiplicative inverse of a non-zero canonical value.
///
/// Calls `p3_field::Field::inverse` on `p3_koala_bear::KoalaBear`. The contract
/// claims that the result is canonical and that its product with `a` is 1 modulo
/// the prime; zero, on which the call panics, is excluded.
#[verifier::external_body]
pub(crate) fn kb_inverse(a: u32) -> (r: u32)
    requires
        0 < a < KB_P,
    ensures
        is_kb(r),
        red(a * r) == 1,
{
    p3_koala_bear::KoalaBear::new(a).inverse().as_canonical_u32()
}

/// An element of the degree-4 extension: `c0 + c1 X + c2 X^2 + c3 X^3`.
#[derive(Debug, Clone, Copy, PartialEq, Eq, Structural)]
pub struct KbExt {
    pub c0: u32,
    pub c1: u32,
    pub c2: u32,
    pub c3: u32,
}

/// True when every coefficient is canonical.
pub open spec fn is_ext(a: KbExt) -> bool {
    is_kb(a.c0) && is_kb(a.c1) && is_kb(a.c2) && is_kb(a.c3)
}

/// The extension element with all coefficients zero.
pub open spec fn ext_zero() -> KbExt {
    KbExt { c0: 0, c1: 0, c2: 0, c3: 0 }
}

/// The extension element one.
pub open spec fn ext_one() -> KbExt {
    KbExt { c0: 1, c1: 0, c2: 0, c3: 0 }
}

/// The base-field value `x` as an extension element.
pub open spec fn ext_from_base(x: u32) -> KbExt {
    KbExt { c0: x, c1: 0, c2: 0, c3: 0 }
}

/// Coefficient-wise sum.
pub open spec fn ext_add_spec(a: KbExt, b: KbExt) -> KbExt {
    KbExt { c0: red(a.c0 + b.c0), c1: red(a.c1 + b.c1), c2: red(a.c2 + b.c2), c3: red(a.c3 + b.c3) }
}

/// Coefficient-wise difference.
pub open spec fn ext_sub_spec(a: KbExt, b: KbExt) -> KbExt {
    KbExt { c0: red(a.c0 - b.c0), c1: red(a.c1 - b.c1), c2: red(a.c2 - b.c2), c3: red(a.c3 - b.c3) }
}

/// Product in `F[X]/(X^4 - 3)`.
pub open spec fn ext_mul_spec(a: KbExt, b: KbExt) -> KbExt {
    KbExt {
        c0: red(a.c0 * b.c0 + 3 * (a.c1 * b.c3 + a.c2 * b.c2 + a.c3 * b.c1)),
        c1: red(a.c0 * b.c1 + a.c1 * b.c0 + 3 * (a.c2 * b.c3 + a.c3 * b.c2)),
        c2: red(a.c0 * b.c2 + a.c1 * b.c1 + a.c2 * b.c0 + 3 * (a.c3 * b.c3)),
        c3: red(a.c0 * b.c3 + a.c1 * b.c2 + a.c2 * b.c1 + a.c3 * b.c0),
    }
}

/// The extension zero.
pub fn ext_zero_exec() -> (r: KbExt)
    ensures
        r == ext_zero(),
{
    KbExt { c0: 0, c1: 0, c2: 0, c3: 0 }
}

/// The extension one.
pub fn ext_one_exec() -> (r: KbExt)
    ensures
        r == ext_one(),
{
    KbExt { c0: 1, c1: 0, c2: 0, c3: 0 }
}

/// Embeds a canonical base-field value.
pub fn ext_from_base_exec(x: u32) -> (r: KbExt)
    ensures
        r == ext_from_base(x),
{
    KbExt { c0: x, c1: 0, c2: 0, c3: 0 }
}

/// Sum of two extension elements.
pub fn ext_add(a: KbExt, b: KbExt) -> (r: KbExt)
    requires
        is_ext(a),
        is_ext(b),
    ensures
        r == ext_add_spec(a, b),
        is_ext(r),
{
    KbExt {
        c0: kb_add(a.c0, b.c0),
        c1: kb_add(a.c1, b.c1),
        c2: kb_add(a.c2, b.c2),
        c3: kb_add(a.c3, b.c3),
    }
}

/// Difference of two extension elements.
pub fn ext_sub(a: KbExt, b: KbExt) -> (r: KbExt)
    requires
        is_ext(a),
        is_ext(b),
    ensures
        r == ext_sub_spec(a, b),
        is_ext(r),
{
    KbExt {
        c0: kb_sub(a.c0, b.c0),
        c1: kb_sub(a.c1, b.c1),
        c2: kb_sub(a.c2, b.c2),
        c3: kb_sub(a.c3, b.c3),
    }
}

/// Negation of an extension element.
pub fn ext_neg(a: KbExt) -> (r: KbExt)
    requires
        is_ext(a),
    ensures
        r == ext_sub_spec(ext_zero(), a),
        is_ext(r),
{
    ext_sub(ext_zero_exec(), a)
}

/// One reduced coefficient of a product: `(x0 + 3 * x1) mod p` from sums of products.
fn reduce_coeff(x0: u128, x1: u128) -> (r: u32)
    requires
        x0 <= 4 * (KB_P as int) * (KB_P as int),
        x1 <= 3 * (KB_P as int) * (KB_P as int),
    ensures
        r == red(x0 + 3 * x1),
        is_kb(r),
{
    let s: u128 = x0 + 3 * x1;
    (s % (KB_P as u128)) as u32
}

/// Product of `a` and `b` as a `u128` (both canonical).
fn prod(a: u32, b: u32) -> (r: u128)
    requires
        is_kb(a),
        is_kb(b),
    ensures
        r == a * b,
        r <= (KB_P as int) * (KB_P as int),
{
    proof {
        assert(a * b <= (KB_P as int) * (KB_P as int)) by (nonlinear_arith)
            requires a < KB_P, b < KB_P;
    }
    a as u128 * b as u128
}

/// Product of two extension elements.
pub fn ext_mul(a: KbExt, b: KbExt) -> (r: KbExt)
    requires
        is_ext(a),
        is_ext(b),
    ensures
        r == ext_mul_spec(a, b),
        is_ext(r),
{
    let c0 = reduce_coeff(
        prod(a.c0, b.c0),
        prod(a.c1, b.c3) + prod(a.c2, b.c2) + prod(a.c3, b.c1),
    );
    let c1 = reduce_coeff(
        prod(a.c0, b.c1) + prod(a.c1, b.c0),
        prod(a.c2, b.c3) + prod(a.c3, b.c2),
    );
    let c2 = reduce_coeff(
        prod(a.c0, b.c2) + prod(a.c1, b.c1) + prod(a.c2, b.c0),
        prod(a.c3, b.c3),
    );
    let c3 = reduce_coeff(
        prod(a.c0, b.c3) + prod(a.c1, b.c2) + prod(a.c2, b.c1) + prod(a.c3, b.c0),
        0,
    );
    KbExt { c0, c1, c2, c3 }
}

/// Product of an extension element and a base-field value.
pub fn ext_scale(a: KbExt, s: u32) -> (r: KbExt)
    requires
        is_ext(a),
        is_kb(s),
    ensures
        r == ext_mul_spec(a, ext_from_base(s)),
        is_ext(r),
{
    ext_mul(a, ext_from_base_exec(s))
}

/// Multiplicative inverse of a non-zero extension element.
///
/// Calls `p3_field::Field::inverse` on
/// `p3_field::extension::BinomialExtensionField<p3_koala_bear::KoalaBear, 4>`. The
/// contract claims that the result is canonical and that its product with `a` in
/// `F[X]/(X^4 - 3)` is one; zero, on which the call panics, is excluded.
#[verifier::external_body]
pub(crate) fn ext_inverse(a: KbExt) -> (r: KbExt)
    requires
        is_ext(a),
        a != ext_zero(),
    ensures
        is_ext(r),
        ext_mul_spec(a, r) == ext_one(),
{
    let x = p3_field::extension::BinomialExtensionField::<p3_koala_bear::KoalaBear, 4>::from_basis_coefficients_fn(|i| p3_koala_bear::KoalaBear::new([a.c0, a.c1, a.c2, a.c3][i]));
    let c = x.inverse();
    let s: &[p3_koala_bear::KoalaBear] = c.as_basis_coefficients_slice();
    KbExt { c0: s[0].as_canonical_u32(), c1: s[1].as_canonical_u32(), c2: s[2].as_canonical_u32(), c3: s[3].as_canonical_u32() }
}

/// Coefficients of an extension element as integers.
pub open spec fn ext_ints(a: KbExt) -> (int, int, int, int) {
    (a.c0 as int, a.c1 as int, a.c2 as int, a.c3 as int)
}

/// Reduction of integer coefficients into an extension element.
pub open spec fn ext_red(x: (int, int, int, int)) -> KbExt {
    KbExt { c0: red(x.0), c1: red(x.1), c2: red(x.2), c3: red(x.3) }
}

/// Product of integer coefficient vectors in `Z[X]/(X^4 - 3)`.
pub open spec fn int_mul(a: (int, int, int, int), b: (int, int, int, int)) -> (int, int, int, int) {
    (
        a.0 * b.0 + 3 * (a.1 * b.3 + a.2 * b.2 + a.3 * b.1),
        a.0 * b.1 + a.1 * b.0 + 3 * (a.2 * b.3 + a.3 * b.2),
        a.0 * b.2 + a.1 * b.1 + a.2 * b.0 + 3 * (a.3 * b.3),
        a.0 * b.3 + a.1 * b.2 + a.2 * b.1 + a.3 * b.0,
    )
}

proof fn lemma_red_range(x: int)
    ensures
        0 <= x % p() < p(),
        red(x) as int == x % p(),
        is_kb(red(x)),
{
}

/// Reducing a canonical value leaves it unchanged.
pub proof fn lemma_red_canonical(a: u32)
    requires
        is_kb(a),
    ensures
        red(a as int) == a,
{
    vstd::arithmetic::div_mod::lemma_small_mod(a as nat, p() as nat);
}

proof fn lemma_ext_red_canonical(a: KbExt)
    requires
        is_ext(a),
    ensures
        ext_red(ext_ints(a)) == a,
{
    lemma_red_canonical(a.c0);
    lemma_red_canonical(a.c1);
    lemma_red_canonical(a.c2);
    lemma_red_canonical(a.c3);
}

/// `x mod p` written as `x - p * (x / p)`.
proof fn lemma_div_mod_p(x: int)
    ensures
        x == p() * (x / p()) + (x % p()),
        red(x) as int == x % p(),
{
    vstd::arithmetic::div_mod::lemma_fundamental_div_mod(x, p());
}

/// Reducing the left factor's coefficients first does not change the product.
proof fn lemma_int_mul_red_left(x: (int, int, int, int), y: (int, int, int, int))
    ensures
        ext_red(int_mul(ext_ints(ext_red(x)), y)) == ext_red(int_mul(x, y)),
{
    lemma_div_mod_p(x.0);
    lemma_div_mod_p(x.1);
    lemma_div_mod_p(x.2);
    lemma_div_mod_p(x.3);
    let q = (x.0 / p(), x.1 / p(), x.2 / p(), x.3 / p());
    let r = ext_ints(ext_red(x));
    let pp = p();
    assert(r == (x.0 % pp, x.1 % pp, x.2 % pp, x.3 % pp));
    let m = int_mul(r, y);
    let n = int_mul(x, y);
    let k = int_mul(q, y);
    vstd::arithmetic::mul::lemma_mul_is_distributive_add_other_way(y.0, pp * q.0, r.0);
    vstd::arithmetic::mul::lemma_mul_is_associative(pp, q.0, y.0);
    vstd::arithmetic::mul::lemma_mul_is_distributive_add_other_way(y.1, pp * q.0, r.0);
    vstd::arithmetic::mul::lemma_mul_is_associative(pp, q.0, y.1);
    vstd::arithmetic::mul::lemma_mul_is_distributive_add_other_way(y.2, pp * q.0, r.0);
    vstd::arithmetic::mul::lemma_mul_is_associative(pp, q.0, y.2);
    vstd::arithmetic::mul::lemma_mul_is_distributive_add_other_way(y.3, pp * q.0, r.0);
    vstd::arithmetic::mul::lemma_mul_is_associative(pp, q.0, y.3);
    vstd::arithmetic::mul::lemma_mul_is_distributive_add_other_way(y.0, pp * q.1, r.1);
    vstd::arithmetic::mul::lemma_mul_is_associative(pp, q.1, y.0);
    vstd::arithmetic::mul::lemma_mul_is_distributive_add_other_way(y.1, pp * q.1, r.1);
    vstd::arithmetic::mul::lemma_mul_is_associative(pp, q.1, y.1);
    vstd::arithmetic::mul::lemma_mul_is_distributive_add_other_way(y.2, pp * q.1, r.1);
    vstd::arithmetic::mul::lemma_mul_is_associative(pp, q.1, y.2);
    vstd::arithmetic::mul::lemma_mul_is_distributive_add_other_way(y.3, pp * q.1, r.1);
    vstd::arithmetic::mul::lemma_mul_is_associative(pp, q.1, y.3);
    vstd::arithmetic::mul::lemma_mul_is_distributive_add_other_way(y.0, pp * q.2, r.2);
    vstd::arithmetic::mul::lemma_mul_is_associative(pp, q.2, y.0);
    vstd::arithmetic::mul::lemma_mul_is_distributive_add_other_way(y.1, pp * q.2, r.2);
    vstd::arithmetic::mul::lemma_mul_is_associative(pp, q.2, y.1);
    vstd::arithmetic::mul::lemma_mul_is_distributive_add_other_way(y.2, pp * q.2, r.2);
    vstd::arithmetic::mul::lemma_mul_is_associative(pp, q.2, y.2);
    vstd::arithmetic::mul::lemma_mul_is_distributive_add_other_way(y.3, pp * q.2, r.2);
    vstd::arithmetic::mul::lemma_mul_is_associative(pp, q.2, y.3);
    vstd::arithmetic::mul::lemma_mul_is_distributive_add_other_way(y.0, pp * q.3, r.3);
    vstd::arithmetic::mul::lemma_mul_is_associative(pp, q.3, y.0);
    vstd::arithmetic::mul::lemma_mul_is_distributive_add_other_way(y.1, pp * q.3, r.3);
    vstd::arithmetic::mul::lemma_mul_is_associative(pp, q.3, y.1);
    vstd::arithmetic::mul::lemma_mul_is_distributive_add_other_way(y.2, pp * q.3, r.3);
    vstd::arithmetic::mul::lemma_mul_is_associative(pp, q.3, y.2);
    vstd::arithmetic::mul::lemma_mul_is_distributive_add_other_way(y.3, pp * q.3, r.3);
    vstd::arithmetic::mul::lemma_mul_is_associative(pp, q.3, y.3);
    assert(n.0 == m.0 + pp * k.0 && n.1 == m.1 + pp * k.1 && n.2 == m.2 + pp * k.2 && n.3 == m.3 + pp * k.3);
    vstd::arithmetic::div_mod::lemma_mod_multiples_vanish(k.0, m.0, pp);
    vstd::arithmetic::div_mod::lemma_mod_multiples_vanish(k.1, m.1, pp);
    vstd::arithmetic::div_mod::lemma_mod_multiples_vanish(k.2, m.2, pp);
    vstd::arithmetic::div_mod::lemma_mod_multiples_vanish(k.3, m.3, pp);
    assert(pp * k.0 + m.0 == m.0 + pp * k.0);
}

proof fn lemma_int_mul_comm(x: (int, int, int, int), y: (int, int, int, int))
    ensures
        int_mul(x, y) == int_mul(y, x),
{
    vstd::arithmetic::mul::lemma_mul_is_commutative(x.0, y.0);
    vstd::arithmetic::mul::lemma_mul_is_commutative(x.0, y.1);
    vstd::arithmetic::mul::lemma_mul_is_commutative(x.0, y.2);
    vstd::arithmetic::mul::lemma_mul_is_commutative(x.0, y.3);
    vstd::arithmetic::mul::lemma_mul_is_commutative(x.1, y.0);
    vstd::arithmetic::mul::lemma_mul_is_commutative(x.1, y.1);
    vstd::arithmetic::mul::lemma_mul_is_commutative(x.1, y.2);
    vstd::arithmetic::mul::lemma_mul_is_commutative(x.1, y.3);
    vstd::arithmetic::mul::lemma_mul_is_commutative(x.2, y.0);
    vstd::arithmetic::mul::lemma_mul_is_commutative(x.2, y.1);
    vstd::arithmetic::mul::lemma_mul_is_commutative(x.2, y.2);
    vstd::arithmetic::mul::lemma_mul_is_commutative(x.2, y.3);
    vstd::arithmetic::mul::lemma_mul_is_commutative(x.3, y.0);
    vstd::arithmetic::mul::lemma_mul_is_commutative(x.3, y.1);
    vstd::arithmetic::mul::lemma_mul_is_commutative(x.3, y.2);
    vstd::arithmetic::mul::lemma_mul_is_commutative(x.3, y.3);
}

proof fn shape1_r(a: int, b: int, c: int, d: int, e: int)
    by (nonlinear_arith)
    ensures
        (a + 3 * (b + c + d)) * e == a * e + 3 * (b * e + c * e + d * e),
        e * (a + 3 * (b + c + d)) == e * a + 3 * (e * b + e * c + e * d),
{
}

proof fn shape2_r(a: int, b: int, c: int, d: int, e: int)
    by (nonlinear_arith)
    ensures
        (a + b + 3 * (c + d)) * e == a * e + b * e + 3 * (c * e + d * e),
        e * (a + b + 3 * (c + d)) == e * a + e * b + 3 * (e * c + e * d),
{
}

proof fn shape3_r(a: int, b: int, c: int, d: int, e: int)
    by (nonlinear_arith)
    ensures
        (a + b + c + 3 * d) * e == a * e + b * e + c * e + 3 * (d * e),
        e * (a + b + c + 3 * d) == e * a + e * b + e * c + 3 * (e * d),
{
}

proof fn shape4_r(a: int, b: int, c: int, d: int, e: int)
    by (nonlinear_arith)
    ensures
        (a + b + c + d) * e == a * e + b * e + c * e + d * e,
        e * (a + b + c + d) == e * a + e * b + e * c + e * d,
{
}

proof fn lemma_int_mul_assoc(x: (int, int, int, int), y: (int, int, int, int), z: (int, int, int, int))
    ensures
        int_mul(int_mul(x, y), z) == int_mul(x, int_mul(y, z)),
{
    let (x0, x1, x2, x3) = x;
    let (y0, y1, y2, y3) = y;
    let (z0, z1, z2, z3) = z;
    shape1_r(x0 * y0, x1 * y3, x2 * y2, x3 * y1, z0);
    shape1_r(y0 * z0, y1 * z3, y2 * z2, y3 * z1, x0);
    shape1_r(x0 * y0, x1 * y3, x2 * y2, x3 * y1, z1);
    shape1_r(y0 * z0, y1 * z3, y2 * z2, y3 * z1, x1);
    shape1_r(x0 * y0, x1 * y3, x2 * y2, x3 * y1, z2);
    shape1_r(y0 * z0, y1 * z3, y2 * z2, y3 * z1, x2);
    shape1_r(x0 * y0, x1 * y3, x2 * y2, x3 * y1, z3);
    shape1_r(y0 * z0, y1 * z3, y2 * z2, y3 * z1, x3);
    shape2_r(x0 * y1, x1 * y0, x2 * y3, x3 * y2, z0);
    shape2_r(y0 * z1, y1 * z0, y2 * z3, y3 * z2, x0);
    shape2_r(x0 * y1, x1 * y0, x2 * y3, x3 * y2, z1);
    shape2_r(y0 * z1, y1 * z0, y2 * z3, y3 * z2, x1);
    shape2_r(x0 * y1, x1 * y0, x2 * y3, x3 * y2, z2);
    shape2_r(y0 * z1, y1 * z0, y2 * z3, y3 * z2, x2);
    shape2_r(x0 * y1, x1 * y0, x2 * y3, x3 * y2, z3);
    shape2_r(y0 * z1, y1 * z0, y2 * z3, y3 * z2, x3);
    shape3_r(x0 * y2, x1 * y1, x2 * y0, x3 * y3, z0);
    shape3_r(y0 * z2, y1 * z1, y2 * z0, y3 * z3, x0);
    shape3_r(x0 * y2, x1 * y1, x2 * y0, x3 * y3, z1);
    shape3_r(y0 * z2, y1 * z1, y2 * z0, y3 * z3, x1);
    shape3_r(x0 * y2, x1 * y1, x2 * y0, x3 * y3, z2);
    shape3_r(y0 * z2, y1 * z1, y2 * z0, y3 * z3, x2);
    shape3_r(x0 * y2, x1 * y1, x2 * y0, x3 * y3, z3);
    shape3_r(y0 * z2, y1 * z1, y2 * z0, y3 * z3, x3);
    shape4_r(x0 * y3, x1 * y2, x2 * y1, x3 * y0, z0);
    shape4_r(y0 * z3, y1 * z2, y2 * z1, y3 * z0, x0);
    shape4_r(x0 * y3, x1 * y2, x2 * y1, x3 * y0, z1);
    shape4_r(y0 * z3, y1 * z2, y2 * z1, y3 * z0, x1);
    shape4_r(x0 * y3, x1 * y2, x2 * y1, x3 * y0, z2);
    shape4_r(y0 * z3, y1 * z2, y2 * z1, y3 * z0, x2);
    shape4_r(x0 * y3, x1 * y2, x2 * y1, x3 * y0, z3);
    shape4_r(y0 * z3, y1 * z2, y2 * z1, y3 * z0, x3);
    vstd::arithmetic::mul::lemma_mul_is_associative(x0, y0, z0);
    vstd::arithmetic::mul::lemma_mul_is_associative(x0, y0, z1);
    vstd::arithmetic::mul::lemma_mul_is_associative(x0, y0, z2);
    vstd::arithmetic::mul::lemma_mul_is_associative(x0, y0, z3);
    vstd::arithmetic::mul::lemma_mul_is_associative(x0, y1, z0);
    vstd::arithmetic::mul::lemma_mul_is_associative(x0, y1, z1);
    vstd::arithmetic::mul::lemma_mul_is_associative(x0, y1, z2);
    vstd::arithmetic::mul::lemma_mul_is_associative(x0, y1, z3);
    vstd::arithmetic::mul::lemma_mul_is_associative(x0, y2, z0);
    vstd::arithmetic::mul::lemma_mul_is_associative(x0, y2, z1);
    vstd::arithmetic::mul::lemma_mul_is_associative(x0, y2, z2);
    vstd::arithmetic::mul::lemma_mul_is_associative(x0, y2, z3);
    vstd::arithmetic::mul::lemma_mul_is_associative(x0, y3, z0);
    vstd::arithmetic::mul::lemma_mul_is_associative(x0, y3, z1);
    vstd::arithmetic::mul::lemma_mul_is_associative(x0, y3, z2);
    vstd::arithmetic::mul::lemma_mul_is_associative(x0, y3, z3);
    vstd::arithmetic::mul::lemma_mul_is_associative(x1, y0, z0);
    vstd::arithmetic::mul::lemma_mul_is_associative(x1, y0, z1);
    vstd::arithmetic::mul::lemma_mul_is_associative(x1, y0, z2);
    vstd::arithmetic::mul::lemma_mul_is_associative(x1, y0, z3);
    vstd::arithmetic::mul::lemma_mul_is_associative(x1, y1, z0);
    vstd::arithmetic::mul::lemma_mul_is_associative(x1, y1, z1);
    vstd::arithmetic::mul::lemma_mul_is_associative(x1, y1, z2);
    vstd::arithmetic::mul::lemma_mul_is_associative(x1, y1, z3);
    vstd::arithmetic::mul::lemma_mul_is_associative(x1, y2, z0);
    vstd::arithmetic::mul::lemma_mul_is_associative(x1, y2, z1);
    vstd::arithmetic::mul::lemma_mul_is_associative(x1, y2, z2);
    vstd::arithmetic::mul::lemma_mul_is_associative(x1, y2, z3);
    vstd::arithmetic::mul::lemma_mul_is_associative(x1, y3, z0);
    vstd::arithmetic::mul::lemma_mul_is_associative(x1, y3, z1);
    vstd::arithmetic::mul::lemma_mul_is_associative(x1, y3, z2);
    vstd::arithmetic::mul::lemma_mul_is_associative(x1, y3, z3);
    vstd::arithmetic::mul::lemma_mul_is_associative(x2, y0, z0);
    vstd::arithmetic::mul::lemma_mul_is_associative(x2, y0, z1);
    vstd::arithmetic::mul::lemma_mul_is_associative(x2, y0, z2);
    vstd::arithmetic::mul::lemma_mul_is_associative(x2, y0, z3);
    vstd::arithmetic::mul::lemma_mul_is_associative(x2, y1, z0);
    vstd::arithmetic::mul::lemma_mul_is_associative(x2, y1, z1);
    vstd::arithmetic::mul::lemma_mul_is_associative(x2, y1, z2);
    vstd::arithmetic::mul::lemma_mul_is_associative(x2, y1, z3);
    vstd::arithmetic::mul::lemma_mul_is_associative(x2, y2, z0);
    vstd::arithmetic::mul::lemma_mul_is_associative(x2, y2, z1);
    vstd::arithmetic::mul::lemma_mul_is_associative(x2, y2, z2);
    vstd::arithmetic::mul::lemma_mul_is_associative(x2, y2, z3);
    vstd::arithmetic::mul::lemma_mul_is_associative(x2, y3, z0);
    vstd::arithmetic::mul::lemma_mul_is_associative(x2, y3, z1);
    vstd::arithmetic::mul::lemma_mul_is_associative(x2, y3, z2);
    vstd::arithmetic::mul::lemma_mul_is_associative(x2, y3, z3);
    vstd::arithmetic::mul::lemma_mul_is_associative(x3, y0, z0);
    vstd::arithmetic::mul::lemma_mul_is_associative(x3, y0, z1);
    vstd::arithmetic::mul::lemma_mul_is_associative(x3, y0, z2);
    vstd::arithmetic::mul::lemma_mul_is_associative(x3, y0, z3);
    vstd::arithmetic::mul::lemma_mul_is_associative(x3, y1, z0);
    vstd::arithmetic::mul::lemma_mul_is_associative(x3, y1, z1);
    vstd::arithmetic::mul::lemma_mul_is_associative(x3, y1, z2);
    vstd::arithmetic::mul::lemma_mul_is_associative(x3, y1, z3);
    vstd::arithmetic::mul::lemma_mul_is_associative(x3, y2, z0);
    vstd::arithmetic::mul::lemma_mul_is_associative(x3, y2, z1);
    vstd::arithmetic::mul::lemma_mul_is_associative(x3, y2, z2);
    vstd::arithmetic::mul::lemma_mul_is_associative(x3, y2, z3);
    vstd::arithmetic::mul::lemma_mul_is_associative(x3, y3, z0);
    vstd::arithmetic::mul::lemma_mul_is_associative(x3, y3, z1);
    vstd::arithmetic::mul::lemma_mul_is_associative(x3, y3, z2);
    vstd::arithmetic::mul::lemma_mul_is_associative(x3, y3, z3);
}

/// Extension multiplication is commutative.
pub proof fn lemma_ext_mul_comm(a: KbExt, b: KbExt)
    ensures
        ext_mul_spec(a, b) == ext_mul_spec(b, a),
{
    lemma_int_mul_comm(ext_ints(a), ext_ints(b));
}

/// Extension multiplication is associative.
pub proof fn lemma_ext_mul_assoc(a: KbExt, b: KbExt, c: KbExt)
    ensures
        ext_mul_spec(ext_mul_spec(a, b), c) == ext_mul_spec(a, ext_mul_spec(b, c)),
{
    let (x, y, z) = (ext_ints(a), ext_ints(b), ext_ints(c));
    // (ab)c
    lemma_int_mul_red_left(int_mul(x, y), z);
    // a(bc) = (bc)a
    lemma_int_mul_comm(x, ext_ints(ext_red(int_mul(y, z))));
    lemma_int_mul_red_left(int_mul(y, z), x);
    lemma_int_mul_comm(int_mul(y, z), x);
    lemma_int_mul_assoc(x, y, z);
}

/// One is the identity of extension multiplication.
pub proof fn lemma_ext_mul_one(a: KbExt)
    requires
        is_ext(a),
    ensures
        ext_mul_spec(a, ext_one()) == a,
        ext_mul_spec(ext_one(), a) == a,
{
    lemma_ext_red_canonical(a);
    lemma_int_mul_comm(ext_ints(a), ext_ints(ext_one()));
}

/// Products of canonical elements are canonical.
pub proof fn lemma_ext_mul_canonical(a: KbExt, b: KbExt)
    ensures
        is_ext(ext_mul_spec(a, b)),
        is_ext(ext_add_spec(a, b)),
        is_ext(ext_sub_spec(a, b)),
{
}

/// Reduction commutes with sums and differences.
pub proof fn lemma_red_add(x: int, y: int)
    ensures
        red(red(x) + red(y)) == red(x + y),
        red(red(x) - red(y)) == red(x - y),
{
    vstd::arithmetic::div_mod::lemma_add_mod_noop(x, y, p());
    vstd::arithmetic::div_mod::lemma_sub_mod_noop(x, y, p());
}

/// Extension multiplication distributes over addition and subtraction.
pub proof fn lemma_ext_mul_distrib(a: KbExt, b: KbExt, c: KbExt)
    ensures
        ext_mul_spec(a, ext_add_spec(b, c)) == ext_add_spec(ext_mul_spec(a, b), ext_mul_spec(a, c)),
        ext_mul_spec(a, ext_sub_spec(b, c)) == ext_sub_spec(ext_mul_spec(a, b), ext_mul_spec(a, c)),
{
    let (x, y, z) = (ext_ints(a), ext_ints(b), ext_ints(c));
    let s = (y.0 + z.0, y.1 + z.1, y.2 + z.2, y.3 + z.3);
    let d = (y.0 - z.0, y.1 - z.1, y.2 - z.2, y.3 - z.3);
    assert(ext_add_spec(b, c) == ext_red(s));
    assert(ext_sub_spec(b, c) == ext_red(d));
    lemma_int_mul_comm(x, ext_ints(ext_red(s)));
    lemma_int_mul_red_left(s, x);
    lemma_int_mul_comm(s, x);
    lemma_int_mul_comm(x, ext_ints(ext_red(d)));
    lemma_int_mul_red_left(d, x);
    lemma_int_mul_comm(d, x);
    let ms = int_mul(x, s);
    let md = int_mul(x, d);
    let my = int_mul(x, y);
    let mz = int_mul(x, z);
    vstd::arithmetic::mul::lemma_mul_is_distributive_add(x.0, y.0, z.0);
    vstd::arithmetic::mul::lemma_mul_is_distributive_sub(x.0, y.0, z.0);
    vstd::arithmetic::mul::lemma_mul_is_distributive_add(x.0, y.1, z.1);
    vstd::arithmetic::mul::lemma_mul_is_distributive_sub(x.0, y.1, z.1);
    vstd::arithmetic::mul::lemma_mul_is_distributive_add(x.0, y.2, z.2);
    vstd::arithmetic::mul::lemma_mul_is_distributive_sub(x.0, y.2, z.2);
    vstd::arithmetic::mul::lemma_mul_is_distributive_add(x.0, y.3, z.3);
    vstd::arithmetic::mul::lemma_mul_is_distributive_sub(x.0, y.3, z.3);
    vstd::arithmetic::mul::lemma_mul_is_distributive_add(x.1, y.0, z.0);
    vstd::arithmetic::mul::lemma_mul_is_distributive_sub(x.1, y.0, z.0);
    vstd::arithmetic::mul::lemma_mul_is_distributive_add(x.1, y.1, z.1);
    vstd::arithmetic::mul::lemma_mul_is_distributive_sub(x.1, y.1, z.1);
    vstd::arithmetic::mul::lemma_mul_is_distributive_add(x.1, y.2, z.2);
    vstd::arithmetic::mul::lemma_mul_is_distributive_sub(x.1, y.2, z.2);
    vstd::arithmetic::mul::lemma_mul_is_distributive_add(x.1, y.3, z.3);
    vstd::arithmetic::mul::lemma_mul_is_distributive_sub(x.1, y.3, z.3);
    vstd::arithmetic::mul::lemma_mul_is_distributive_add(x.2, y.0, z.0);
    vstd::arithmetic::mul::lemma_mul_is_distributive_sub(x.2, y.0, z.0);
    vstd::arithmetic::mul::lemma_mul_is_distributive_add(x.2, y.1, z.1);
    vstd::arithmetic::mul::lemma_mul_is_distributive_sub(x.2, y.1, z.1);
    vstd::arithmetic::mul::lemma_mul_is_distributive_add(x.2, y.2, z.2);
    vstd::arithmetic::mul::lemma_mul_is_distributive_sub(x.2, y.2, z.2);
    vstd::arithmetic::mul::lemma_mul_is_distributive_add(x.2, y.3, z.3);
    vstd::arithmetic::mul::lemma_mul_is_distributive_sub(x.2, y.3, z.3);
    vstd::arithmetic::mul::lemma_mul_is_distributive_add(x.3, y.0, z.0);
    vstd::arithmetic::mul::lemma_mul_is_distributive_sub(x.3, y.0, z.0);
    vstd::arithmetic::mul::lemma_mul_is_distributive_add(x.3, y.1, z.1);
    vstd::arithmetic::mul::lemma_mul_is_distributive_sub(x.3, y.1, z.1);
    vstd::arithmetic::mul::lemma_mul_is_distributive_add(x.3, y.2, z.2);
    vstd::arithmetic::mul::lemma_mul_is_distributive_sub(x.3, y.2, z.2);
    vstd::arithmetic::mul::lemma_mul_is_distributive_add(x.3, y.3, z.3);
    vstd::arithmetic::mul::lemma_mul_is_distributive_sub(x.3, y.3, z.3);
    assert(ms.0 == my.0 + mz.0 && ms.1 == my.1 + mz.1 && ms.2 == my.2 + mz.2 && ms.3 == my.3 + mz.3);
    assert(md.0 == my.0 - mz.0 && md.1 == my.1 - mz.1 && md.2 == my.2 - mz.2 && md.3 == my.3 - mz.3);
    lemma_red_add(my.0, mz.0);
    lemma_red_add(my.1, mz.1);
    lemma_red_add(my.2, mz.2);
    lemma_red_add(my.3, mz.3);
}

/// Adding then subtracting the same element gives back a canonical element.
pub proof fn lemma_ext_add_sub_cancel(a: KbExt, b: KbExt)
    requires
        is_ext(a),
        is_ext(b),
    ensures
        ext_sub_spec(ext_add_spec(a, b), b) == a,
        ext_add_spec(ext_sub_spec(a, b), b) == a,
{
    lemma_red_add(a.c0 + b.c0, b.c0 as int);
    lemma_red_add(a.c1 + b.c1, b.c1 as int);
    lemma_red_add(a.c2 + b.c2, b.c2 as int);
    lemma_red_add(a.c3 + b.c3, b.c3 as int);
    lemma_red_add(a.c0 - b.c0, b.c0 as int);
    lemma_red_add(a.c1 - b.c1, b.c1 as int);
    lemma_red_add(a.c2 - b.c2, b.c2 as int);
    lemma_red_add(a.c3 - b.c3, b.c3 as int);
    lemma_red_canonical(b.c0);
    lemma_red_canonical(b.c1);
    lemma_red_canonical(b.c2);
    lemma_red_canonical(b.c3);
    lemma_ext_red_canonical(a);
}

/// Multiplying a canonical value by `a` and then by `b`, where `a * b` is one
/// modulo the prime, gives it back.
pub(crate) proof fn lemma_red_scale_inverse(e: u32, a: int, b: int)
    requires
        is_kb(e),
        (a * b) % p() == 1,
    ensures
        red(red(e * a) * b) == e,
{
    lemma_red_range(e * a);
    lemma_red_range(red(e * a) * b);
    vstd::arithmetic::div_mod::lemma_mul_mod_noop_left(e * a, b, p());
    vstd::arithmetic::mul::lemma_mul_is_associative(e as int, a, b);
    vstd::arithmetic::div_mod::lemma_mul_mod_noop_right(e as int, a * b, p());
    lemma_red_canonical(e);
}

/// Multiplying a canonical value by `a`, `b` and `c` in turn, where `a * b * c` is
/// one modulo the prime, gives it back.
pub(crate) proof fn lemma_red_scale3_inverse(e: u32, a: int, b: int, c: int)
    requires
        is_kb(e),
        (a * b * c) % p() == 1,
    ensures
        red(red(red(e * a) * b) * c) == e,
{
    lemma_red_range(e * a);
    lemma_red_range(red(e * a) * b);
    lemma_red_range(red(red(e * a) * b) * c);
    vstd::arithmetic::div_mod::lemma_mul_mod_noop_left(e * a, b, p());
    vstd::arithmetic::div_mod::lemma_mul_mod_noop_left(e * a * b, c, p());
    vstd::arithmetic::mul::lemma_mul_is_associative(e as int, a, b);
    vstd::arithmetic::mul::lemma_mul_is_associative(e as int, a * b, c);
    vstd::arithmetic::div_mod::lemma_mul_mod_noop_right(e as int, a * b * c, p());
    lemma_red_canonical(e);
}

/// Negating `e * (p - 1)` gives back the canonical value `e`.
pub(crate) proof fn lemma_red_neg_scale_minus_one(e: u32)
    requires
        is_kb(e),
    ensures
        red(0 - red(e * (p() - 1))) == e,
{
    lemma_red_range(e * (p() - 1));
    vstd::arithmetic::div_mod::lemma_sub_mod_noop(0, e * (p() - 1), p());
    vstd::arithmetic::div_mod::lemma_small_mod(0, p() as nat);
    vstd::arithmetic::div_mod::lemma_mod_multiples_vanish(-(e as int), e as int, p());
    assert(0 - e * (p() - 1) == p() * (-(e as int)) + e) by (nonlinear_arith);
    lemma_red_canonical(e);
}

/// Multiplying by an element of the base field scales each coefficient.
pub(crate) proof fn lemma_ext_mul_base(a: KbExt, s: u32)
    ensures
        ext_mul_spec(a, ext_from_base(s)) == (KbExt {
            c0: red(a.c0 * s),
            c1: red(a.c1 * s),
            c2: red(a.c2 * s),
            c3: red(a.c3 * s),
        }),
        ext_mul_spec(ext_zero(), a) == ext_zero(),
{
    assert(0 * a.c0 == 0 && 0 * a.c1 == 0 && 0 * a.c2 == 0 && 0 * a.c3 == 0) by (nonlinear_arith);
    assert(a.c0 * 0 == 0 && a.c1 * 0 == 0 && a.c2 * 0 == 0 && a.c3 * 0 == 0) by (nonlinear_arith);
    lemma_red_range(0);
}

/// Addition of extension elements is commutative.
pub proof fn lemma_ext_add_comm(a: KbExt, b: KbExt)
    ensures
        ext_add_spec(a, b) == ext_add_spec(b, a),
{
}

/// The inverse of an extension element: the canonical element whose product with it
/// is one (unique when it exists).
pub open spec fn ext_inv_spec(a: KbExt) -> KbExt {
    choose|r: KbExt| is_ext(r) && ext_mul_spec(a, r) == ext_one()
}

/// An inverse is unique: any canonical `r` with `a * r == 1` is `ext_inv_spec(a)`.
pub proof fn lemma_ext_inverse_unique(a: KbExt, r: KbExt)
    requires
        is_ext(a),
        is_ext(r),
        ext_mul_spec(a, r) == ext_one(),
    ensures
        ext_inv_spec(a) == r,
        ext_mul_spec(a, ext_inv_spec(a)) == ext_one(),
        is_ext(ext_inv_spec(a)),
{
    let s = ext_inv_spec(a);
    assert(is_ext(s) && ext_mul_spec(a, s) == ext_one());
    // s = s * (a * r) = (s * a) * r = (a * s) * r = r
    lemma_ext_mul_one(s);
    lemma_ext_mul_one(r);
    lemma_ext_mul_assoc(s, a, r);
    lemma_ext_mul_comm(s, a);
}

/// The inverse of a base-field value (unique when it exists).
pub open spec fn kb_inv_spec(a: u32) -> u32 {
    choose|r: u32| is_kb(r) && red(a * r) == 1
}

/// A base-field inverse is unique.
pub proof fn lemma_kb_inverse_unique(a: u32, r: u32)
    requires
        is_kb(a),
        is_kb(r),
        red(a * r) == 1,
    ensures
        kb_inv_spec(a) == r,
{
    let s = kb_inv_spec(a);
    assert(is_kb(s) && red(a * s) == 1);
    let ea = ext_from_base(a);
    let er = ext_from_base(r);
    let es = ext_from_base(s);
    assert(ext_mul_spec(ea, er) == ext_one());
    assert(ext_mul_spec(ea, es) == ext_one());
    lemma_ext_inverse_unique(ea, er);
    lemma_ext_inverse_unique(ea, es);
}

} // verus!
