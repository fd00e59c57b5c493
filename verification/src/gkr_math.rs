//! Host-side arithmetic of the GKR fractional sumcheck over the KoalaBear extension:
//! fractions, eq polynomials, interpolation, and round-polynomial reconstruction.

use vstd::arithmetic::power2::pow2;
use vstd::prelude::*;

use crate::kb_field::{
    ext_add, ext_add_spec, ext_from_base, ext_from_base_exec, ext_inverse, ext_mul, ext_mul_spec,
    ext_one, ext_one_exec, ext_zero_exec, ext_sub, ext_sub_spec, ext_zero, ext_inv_spec, is_ext, lemma_ext_inverse_unique, lemma_ext_add_sub_cancel,
    lemma_ext_mul_assoc, lemma_ext_mul_canonical, lemma_ext_mul_comm, lemma_ext_mul_one, KbExt,
    lemma_ext_add_comm, lemma_ext_mul_base, lemma_red_neg_scale_minus_one, red, KB_P, lemma_red_scale_inverse, lemma_red_scale3_inverse,
};

verus! {

/// `1/2` in the KoalaBear field.
pub const KB_INV_2: u32 = 1065353217;

/// A fraction `p / q` of extension elements, kept unreduced.
#[derive(Debug, Clone, Copy, PartialEq, Eq, Structural)]
pub struct Frac {
    /// Numerator.
    pub p: KbExt,
    /// Denominator.
    pub q: KbExt,
}

/// True when both parts are canonical.
pub open spec fn is_frac(f: Frac) -> bool {
    is_ext(f.p) && is_ext(f.q)
}

/// Sum of fractions: `(a.p * b.q + b.p * a.q) / (a.q * b.q)`.
pub open spec fn frac_add_spec(a: Frac, b: Frac) -> Frac {
    Frac {
        p: ext_add_spec(ext_mul_spec(a.p, b.q), ext_mul_spec(b.p, a.q)),
        q: ext_mul_spec(a.q, b.q),
    }
}

/// Sum of two fractions, as the segment tree combines siblings.
pub fn frac_add(a: Frac, b: Frac) -> (r: Frac)
    requires
        is_frac(a),
        is_frac(b),
    ensures
        r == frac_add_spec(a, b),
        is_frac(r),
{
    Frac { p: ext_add(ext_mul(a.p, b.q), ext_mul(b.p, a.q)), q: ext_mul(a.q, b.q) }
}

/// Undoes `sum = lhs + rhs` given `rhs`: `q0 = sum.q / rhs.q` and
/// `p0 = (sum.p - q0 * rhs.p) / rhs.q`, with the inverse of `rhs.q` as computed.
pub open spec fn frac_unadd_spec(sum: Frac, rhs: Frac, rinv: KbExt) -> Frac {
    let q0 = ext_mul_spec(sum.q, rinv);
    Frac { p: ext_mul_spec(ext_sub_spec(sum.p, ext_mul_spec(q0, rhs.p)), rinv), q: q0 }
}

/// Recovers the left summand of `sum` from the right one (the revert step of the
/// segment tree). The denominator of `rhs` must be invertible.
pub fn frac_unadd(sum: Frac, rhs: Frac) -> (r: Frac)
    requires
        is_frac(sum),
        is_frac(rhs),
        rhs.q != ext_zero(),
    ensures
        is_frac(r),
        r == frac_unadd_spec(sum, rhs, ext_inv_spec(rhs.q)),
        is_ext(ext_inv_spec(rhs.q)),
        ext_mul_spec(rhs.q, ext_inv_spec(rhs.q)) == ext_one(),
{
    let rinv = ext_inverse(rhs.q);
    proof {
        lemma_ext_inverse_unique(rhs.q, rinv);
    }
    let q0 = ext_mul(sum.q, rinv);
    let p0 = ext_mul(ext_sub(sum.p, ext_mul(q0, rhs.p)), rinv);
    Frac { p: p0, q: q0 }
}

/// Law of the segment tree's revert: un-adding the right summand from a sum of
/// fractions gives back the left summand exactly, whenever the right summand's
/// denominator is invertible (any inverse of it may be used).
pub proof fn lemma_frac_unadd_reverts_add(a: Frac, b: Frac, rinv: KbExt)
    requires
        is_frac(a),
        is_frac(b),
        is_ext(rinv),
        ext_mul_spec(b.q, rinv) == ext_one(),
    ensures
        frac_unadd_spec(frac_add_spec(a, b), b, rinv) == a,
{
    let s = frac_add_spec(a, b);
    // q0 = (a.q * b.q) * rinv = a.q * (b.q * rinv) = a.q
    lemma_ext_mul_assoc(a.q, b.q, rinv);
    lemma_ext_mul_one(a.q);
    let q0 = ext_mul_spec(s.q, rinv);
    assert(q0 == a.q);
    // sum.p - a.q * b.p = a.p * b.q
    let x = ext_mul_spec(a.p, b.q);
    let y = ext_mul_spec(b.p, a.q);
    lemma_ext_mul_comm(a.q, b.p);
    lemma_ext_mul_canonical(a.p, b.q);
    lemma_ext_mul_canonical(b.p, a.q);
    lemma_ext_add_sub_cancel(x, y);
    assert(ext_sub_spec(s.p, ext_mul_spec(q0, b.p)) == x);
    // (a.p * b.q) * rinv = a.p
    lemma_ext_mul_assoc(a.p, b.q, rinv);
    lemma_ext_mul_one(a.p);
}

/// Adds `alpha` to every denominator (the logup shift that keeps denominators non-zero).
pub fn add_alpha_to_denominators(fracs: &mut Vec<Frac>, alpha: KbExt)
    requires
        is_ext(alpha),
        forall|i: int| 0 <= i < old(fracs)@.len() ==> is_frac(#[trigger] old(fracs)@[i]),
    ensures
        final(fracs)@.len() == old(fracs)@.len(),
        forall|i: int|
            0 <= i < final(fracs)@.len() ==> #[trigger] final(fracs)@[i] == (Frac {
                p: old(fracs)@[i].p,
                q: ext_add_spec(old(fracs)@[i].q, alpha),
            }),
{
    let ghost orig = fracs@;
    let n = fracs.len();
    let mut i: usize = 0;
    while i < n
        invariant
            n == orig.len(),
            fracs@.len() == n,
            i <= n,
            is_ext(alpha),
            forall|k: int| 0 <= k < n ==> is_frac(#[trigger] orig[k]),
            forall|k: int|
                0 <= k < i ==> #[trigger] fracs@[k] == (Frac { p: orig[k].p, q: ext_add_spec(orig[k].q, alpha) }),
            forall|k: int| i <= k < n ==> #[trigger] fracs@[k] == orig[k],
        decreases n - i,
    {
        let f = fracs[i];
        let g = Frac { p: f.p, q: ext_add(f.q, alpha) };
        fracs.set(i, g);
        i = i + 1;
    }
}

/// `eq(x, y) = x y + (1 - x)(1 - y)` for one variable.
pub open spec fn eq1_spec(x: KbExt, y: KbExt) -> KbExt {
    ext_add_spec(
        ext_mul_spec(x, y),
        ext_mul_spec(ext_sub_spec(ext_one(), x), ext_sub_spec(ext_one(), y)),
    )
}

/// The multilinear eq polynomial `prod_i eq(x_i, y_i)` over the first `k` pairs.
pub open spec fn eq_mle_spec(xs: Seq<KbExt>, ys: Seq<KbExt>, k: nat) -> KbExt
    decreases k,
{
    if k == 0 {
        ext_one()
    } else {
        ext_mul_spec(eq_mle_spec(xs, ys, (k - 1) as nat), eq1_spec(xs[k - 1], ys[k - 1]))
    }
}

/// `eq(x, y)` for one variable.
pub fn eval_eq_1(x: KbExt, y: KbExt) -> (r: KbExt)
    requires
        is_ext(x),
        is_ext(y),
    ensures
        r == eq1_spec(x, y),
        is_ext(r),
{
    let one = ext_one_exec();
    ext_add(ext_mul(x, y), ext_mul(ext_sub(one, x), ext_sub(one, y)))
}

/// The multilinear eq polynomial `eq(xs, ys) = prod_i (x_i y_i + (1 - x_i)(1 - y_i))`.
pub fn eval_eq_mle(xs: &Vec<KbExt>, ys: &Vec<KbExt>) -> (r: KbExt)
    requires
        xs@.len() == ys@.len(),
        forall|i: int| 0 <= i < xs@.len() ==> is_ext(#[trigger] xs@[i]),
        forall|i: int| 0 <= i < ys@.len() ==> is_ext(#[trigger] ys@[i]),
    ensures
        r == eq_mle_spec(xs@, ys@, xs@.len()),
        is_ext(r),
{
    let mut acc = ext_one_exec();
    let mut i: usize = 0;
    while i < xs.len()
        invariant
            xs@.len() == ys@.len(),
            i <= xs@.len(),
            forall|k: int| 0 <= k < xs@.len() ==> is_ext(#[trigger] xs@[k]),
            forall|k: int| 0 <= k < ys@.len() ==> is_ext(#[trigger] ys@[k]),
            acc == eq_mle_spec(xs@, ys@, i as nat),
            is_ext(acc),
        decreases xs@.len() - i,
    {
        let e = eval_eq_1(xs[i], ys[i]);
        acc = ext_mul(acc, e);
        i = i + 1;
    }
    acc
}

/// The line through `(0, e0)` and `(1, e1)` at `x`: `e0 + (e1 - e0) x`.
pub open spec fn interp_linear_spec(e0: KbExt, e1: KbExt, x: KbExt) -> KbExt {
    ext_add_spec(e0, ext_mul_spec(ext_sub_spec(e1, e0), x))
}

/// Evaluates at `x` the line through `(0, evals[0])` and `(1, evals[1])`.
pub fn interpolate_linear_at_01(evals: [KbExt; 2], x: KbExt) -> (r: KbExt)
    requires
        is_ext(evals[0]),
        is_ext(evals[1]),
        is_ext(x),
    ensures
        r == interp_linear_spec(evals[0], evals[1], x),
        is_ext(r),
        x == ext_from_base(0) ==> r == evals[0],
        x == ext_from_base(1) ==> r == evals[1],
{
    proof {
        lemma_linear_at_nodes(evals[0], evals[1]);
    }
    ext_add(evals[0], ext_mul(ext_sub(evals[1], evals[0]), x))
}

/// The line through `(0, e0)` and `(1, e1)` takes those values at 0 and 1.
proof fn lemma_linear_at_nodes(e0: KbExt, e1: KbExt)
    requires
        is_ext(e0),
        is_ext(e1),
    ensures
        interp_linear_spec(e0, e1, ext_from_base(0)) == e0,
        interp_linear_spec(e0, e1, ext_from_base(1)) == e1,
{
    let d = ext_sub_spec(e1, e0);
    lemma_ext_mul_canonical(e1, e0);
    lemma_ext_mul_base(d, 0);
    lemma_ext_add_sub_cancel(e0, ext_zero());
    lemma_ext_add_sub_cancel(e0, e0);
    assert(ext_sub_spec(e0, ext_zero()) == e0) by {
        lemma_ext_add_sub_cancel(e0, ext_zero());
    }
    lemma_zero_right_identity(e0);
    assert(ext_from_base(1) == ext_one());
    lemma_ext_mul_one(d);
    lemma_ext_add_sub_cancel(e1, e0);
    lemma_ext_add_comm(e0, d);
}

/// Zero is a right identity of addition on canonical elements.
proof fn lemma_zero_right_identity(a: KbExt)
    requires
        is_ext(a),
    ensures
        ext_add_spec(a, ext_zero()) == a,
        ext_sub_spec(a, ext_zero()) == a,
        ext_add_spec(ext_zero(), a) == a,
{
    vstd::arithmetic::div_mod::lemma_small_mod(a.c0 as nat, KB_P as nat);
    vstd::arithmetic::div_mod::lemma_small_mod(a.c1 as nat, KB_P as nat);
    vstd::arithmetic::div_mod::lemma_small_mod(a.c2 as nat, KB_P as nat);
    vstd::arithmetic::div_mod::lemma_small_mod(a.c3 as nat, KB_P as nat);
}

/// The parabola through `(0, e0)`, `(1, e1)`, `(2, e2)` at `x` (Lagrange form):
/// `e0 (x-1)(x-2)/2 - e1 x (x-2) + e2 x (x-1)/2`.
pub open spec fn interp_quadratic_spec(e0: KbExt, e1: KbExt, e2: KbExt, x: KbExt) -> KbExt {
    let xm1 = ext_sub_spec(x, ext_one());
    let xm2 = ext_sub_spec(x, ext_from_base(2));
    let half = ext_from_base(KB_INV_2);
    let t0 = ext_mul_spec(ext_mul_spec(ext_mul_spec(e0, xm1), xm2), half);
    let t1 = ext_mul_spec(ext_mul_spec(e1, x), xm2);
    let t2 = ext_mul_spec(ext_mul_spec(ext_mul_spec(e2, x), xm1), half);
    ext_add_spec(ext_sub_spec(t0, t1), t2)
}

/// Evaluates at `x` the parabola through `(0, evals[0])`, `(1, evals[1])`, `(2, evals[2])`.
pub fn interpolate_quadratic_at_012(evals: [KbExt; 3], x: KbExt) -> (r: KbExt)
    requires
        is_ext(evals[0]),
        is_ext(evals[1]),
        is_ext(evals[2]),
        is_ext(x),
    ensures
        r == interp_quadratic_spec(evals[0], evals[1], evals[2], x),
        is_ext(r),
        x == ext_from_base(0) ==> r == evals[0],
        x == ext_from_base(1) ==> r == evals[1],
        x == ext_from_base(2) ==> r == evals[2],
{
    proof {
        lemma_quadratic_at_nodes(evals[0], evals[1], evals[2]);
    }
    let one = ext_one_exec();
    let two = ext_from_base_exec(2);
    let half = ext_from_base_exec(KB_INV_2);
    let xm1 = ext_sub(x, one);
    let xm2 = ext_sub(x, two);
    let t0 = ext_mul(ext_mul(ext_mul(evals[0], xm1), xm2), half);
    let t1 = ext_mul(ext_mul(evals[1], x), xm2);
    let t2 = ext_mul(ext_mul(ext_mul(evals[2], x), xm1), half);
    ext_add(ext_sub(t0, t1), t2)
}

/// Each coefficient of `e` scaled by `a` then `b`, where `a * b` is one.
proof fn lemma_ext_scale_inverse(e: KbExt, a: u32, b: u32)
    requires
        is_ext(e),
        (a * b) % (KB_P as int) == 1,
    ensures
        ext_mul_spec(ext_mul_spec(e, ext_from_base(a)), ext_from_base(b)) == e,
{
    lemma_ext_mul_base(e, a);
    lemma_ext_mul_base(ext_mul_spec(e, ext_from_base(a)), b);
    lemma_red_scale_inverse(e.c0, a as int, b as int);
    lemma_red_scale_inverse(e.c1, a as int, b as int);
    lemma_red_scale_inverse(e.c2, a as int, b as int);
    lemma_red_scale_inverse(e.c3, a as int, b as int);
}

/// The parabola through `(0, e0)`, `(1, e1)`, `(2, e2)` takes those values at 0, 1, 2.
proof fn lemma_quadratic_at_nodes(e0: KbExt, e1: KbExt, e2: KbExt)
    requires
        is_ext(e0),
        is_ext(e1),
        is_ext(e2),
    ensures
        interp_quadratic_spec(e0, e1, e2, ext_from_base(0)) == e0,
        interp_quadratic_spec(e0, e1, e2, ext_from_base(1)) == e1,
        interp_quadratic_spec(e0, e1, e2, ext_from_base(2)) == e2,
{
    let pm1: u32 = (KB_P - 1) as u32;
    let pm2: u32 = (KB_P - 2) as u32;
    let half = ext_from_base(KB_INV_2);
    let zero = ext_zero();
    let one = ext_one();
    assert(ext_from_base(0) == zero);
    assert(ext_from_base(1) == one);
    // at 0: x - 1 = -1, x - 2 = -2, and (-1)(-2)/2 = 1
    assert((0 - 1) % 2130706433int == 2130706432int) by (nonlinear_arith);
    assert((0 - 2) % 2130706433int == 2130706431int) by (nonlinear_arith);
    assert(0int % 2130706433int == 0) by (nonlinear_arith);
    assert(red(-1) == pm1);
    assert(red(-2) == pm2);
    assert(red(0) == 0);
    assert(ext_sub_spec(zero, one) == ext_from_base(pm1));
    assert(ext_sub_spec(zero, ext_from_base(2)) == ext_from_base(pm2));
    assert((2130706432int * 2130706431int * 1065353217int) % 2130706433int == 1) by (nonlinear_arith);
    assert((pm1 * pm2 * KB_INV_2) % (KB_P as int) == 1);
    lemma_three_scales(e0, pm1, pm2, KB_INV_2);
    lemma_ext_mul_base(e1, 0);
    lemma_ext_mul_base(e2, 0);
    lemma_ext_mul_base(ext_mul_spec(e2, zero), pm1);
    lemma_ext_mul_base(ext_mul_spec(ext_mul_spec(e2, zero), ext_from_base(pm1)), KB_INV_2);
    lemma_ext_mul_base(zero, pm2);
    lemma_zero_right_identity(e0);
    // at 1: x - 1 = 0, x - 2 = -1, and the value is -(e1 * (-1))
    assert(ext_sub_spec(one, one) == zero);
    assert(ext_sub_spec(one, ext_from_base(2)) == ext_from_base(pm1));
    lemma_ext_mul_base(e0, 0);
    lemma_ext_mul_base(zero, pm1);
    lemma_ext_mul_base(zero, KB_INV_2);
    lemma_ext_mul_one(e1);
    lemma_ext_mul_one(e2);
    lemma_ext_mul_base(e1, pm1);
    lemma_red_neg_scale_minus_one(e1.c0);
    lemma_red_neg_scale_minus_one(e1.c1);
    lemma_red_neg_scale_minus_one(e1.c2);
    lemma_red_neg_scale_minus_one(e1.c3);
    let t1 = ext_mul_spec(e1, ext_from_base(pm1));
    lemma_ext_mul_canonical(e1, ext_from_base(pm1));
    assert(ext_sub_spec(zero, t1) == e1);
    lemma_zero_right_identity(e1);
    // at 2: x - 1 = 1, x - 2 = 0, and 2 / 2 = 1
    assert(ext_sub_spec(ext_from_base(2), one) == one);
    assert(ext_sub_spec(ext_from_base(2), ext_from_base(2)) == zero);
    lemma_ext_mul_base(e0, 1);
    lemma_ext_mul_base(ext_mul_spec(e0, one), 0);
    lemma_ext_mul_base(e1, 2);
    lemma_ext_mul_base(ext_mul_spec(e1, ext_from_base(2)), 0);
    let b2 = ext_mul_spec(e2, ext_from_base(2));
    lemma_ext_mul_canonical(e2, ext_from_base(2));
    lemma_ext_mul_one(b2);
    assert((2int * 1065353217int) % 2130706433int == 1) by (nonlinear_arith);
    assert((2 * KB_INV_2) % (KB_P as int) == 1);
    lemma_ext_scale_inverse(e2, 2, KB_INV_2);
    lemma_zero_right_identity(e2);
    lemma_zero_right_identity(zero);
}

/// Scaling by three constants whose product is one modulo the prime.
proof fn lemma_three_scales(e: KbExt, a: u32, b: u32, c: u32)
    requires
        is_ext(e),
        (a * b * c) % (KB_P as int) == 1,
    ensures
        ext_mul_spec(ext_mul_spec(ext_mul_spec(e, ext_from_base(a)), ext_from_base(b)), ext_from_base(c)) == e,
{
    let x = ext_mul_spec(e, ext_from_base(a));
    lemma_ext_mul_base(e, a);
    lemma_ext_mul_base(x, b);
    lemma_ext_mul_base(ext_mul_spec(x, ext_from_base(b)), c);
    lemma_red_scale3_inverse(e.c0, a as int, b as int, c as int);
    lemma_red_scale3_inverse(e.c1, a as int, b as int, c as int);
    lemma_red_scale3_inverse(e.c2, a as int, b as int, c as int);
    lemma_red_scale3_inverse(e.c3, a as int, b as int, c as int);
}

/// The four claims of a GKR layer: numerator and denominator at `xi || 0` and `xi || 1`.
#[derive(Debug, Clone, Copy, PartialEq, Eq, Structural)]
pub struct GkrLayerClaims {
    pub p_xi_0: KbExt,
    pub q_xi_0: KbExt,
    pub p_xi_1: KbExt,
    pub q_xi_1: KbExt,
}

/// True when every claim is canonical.
pub open spec fn is_claims(c: GkrLayerClaims) -> bool {
    is_ext(c.p_xi_0) && is_ext(c.q_xi_0) && is_ext(c.p_xi_1) && is_ext(c.q_xi_1)
}

/// Reduces the claims at `xi || 0` and `xi || 1` to one claim at `xi || mu` by
/// linear interpolation of numerator and denominator.
pub fn reduce_to_single_evaluation(claims: GkrLayerClaims, mu: KbExt) -> (r: (KbExt, KbExt))
    requires
        is_claims(claims),
        is_ext(mu),
    ensures
        r.0 == interp_linear_spec(claims.p_xi_0, claims.p_xi_1, mu),
        r.1 == interp_linear_spec(claims.q_xi_0, claims.q_xi_1, mu),
        is_ext(r.0),
        is_ext(r.1),
        mu == ext_from_base(0) ==> r == (claims.p_xi_0, claims.q_xi_0),
        mu == ext_from_base(1) ==> r == (claims.p_xi_1, claims.q_xi_1),
{
    let numer = interpolate_linear_at_01([claims.p_xi_0, claims.p_xi_1], mu);
    let denom = interpolate_linear_at_01([claims.q_xi_0, claims.q_xi_1], mu);
    (numer, denom)
}

/// The claim a layer's sumcheck starts from: the reduced numerator plus `lambda`
/// times the reduced denominator.
pub open spec fn round_claim_spec(claims: GkrLayerClaims, mu: KbExt, lambda: KbExt) -> KbExt {
    ext_add_spec(
        interp_linear_spec(claims.p_xi_0, claims.p_xi_1, mu),
        ext_mul_spec(lambda, interp_linear_spec(claims.q_xi_0, claims.q_xi_1, mu)),
    )
}

/// The sum claim of the sumcheck of the next layer: the previous layer's claims are
/// reduced to the point `mu` and batched with `lambda`.
pub fn initial_round_claim(claims: GkrLayerClaims, mu: KbExt, lambda: KbExt) -> (r: KbExt)
    requires
        is_claims(claims),
        is_ext(mu),
        is_ext(lambda),
    ensures
        r == round_claim_spec(claims, mu, lambda),
        is_ext(r),
{
    let (numer, denom) = reduce_to_single_evaluation(claims, mu);
    ext_add(numer, ext_mul(lambda, denom))
}

/// The root of the segment tree has a non-zero numerator where a zero sum is required.
#[derive(Debug, Clone, Copy, PartialEq, Eq, Structural)]
pub enum GkrRootError {
    NonzeroRootSum,
}

/// The values of the root the transcript observes, in order: the denominator alone
/// when the sum must be zero (which is checked), both parts otherwise.
pub fn root_observations(root: Frac, assert_zero: bool) -> (r: Result<Vec<KbExt>, GkrRootError>)
    ensures
        assert_zero && root.p != ext_zero() <==> r is Err,
        r is Err ==> r == Err::<Vec<KbExt>, GkrRootError>(GkrRootError::NonzeroRootSum),
        r matches Ok(v) ==> v@ == if assert_zero { seq![root.q] } else { seq![root.p, root.q] },
{
    let mut out: Vec<KbExt> = Vec::new();
    if assert_zero {
        if root.p != ext_zero_exec() {
            return Err(GkrRootError::NonzeroRootSum);
        }
    } else {
        out.push(root.p);
    }
    out.push(root.q);
    Ok(out)
}

/// The evaluations at 0, 1, 2 of the round polynomial `s'` rebuilt from the device's
/// `s'(1)`, `s'(2)` (scaled by `eq_r_acc`) and from `s(0) + s(1) = prev_s_eval`, where
/// `s(X) = eq(xi, X) s'(X)`.
pub open spec fn sp_evals_spec(sp_vec: [KbExt; 2], prev_s_eval: KbExt, xi: KbExt, eq_r_acc: KbExt) -> [KbExt; 3] {
    let sp1 = ext_mul_spec(sp_vec[0], eq_r_acc);
    let sp2 = ext_mul_spec(sp_vec[1], eq_r_acc);
    let sp0 = ext_mul_spec(
        ext_sub_spec(prev_s_eval, ext_mul_spec(xi, sp1)),
        ext_inv_spec(ext_sub_spec(ext_one(), xi)),
    );
    [sp0, sp1, sp2]
}

/// The evaluations `s(1), s(2), s(3)` sent for a round, from the evaluations of `s'`
/// at 0, 1, 2: `s(x) = eq(xi, x) s'(x)`, with `s'(3)` interpolated.
pub open spec fn s_evals_spec(sp: [KbExt; 3], xi: KbExt) -> [KbExt; 3] {
    [
        ext_mul_spec(eq1_spec(xi, ext_from_base(1)), sp[1]),
        ext_mul_spec(eq1_spec(xi, ext_from_base(2)), sp[2]),
        ext_mul_spec(eq1_spec(xi, ext_from_base(3)), interp_quadratic_spec(sp[0], sp[1], sp[2], ext_from_base(3))),
    ]
}

/// `1 - xi` is non-zero when `xi` is not one.
proof fn lemma_one_minus_nonzero(xi: KbExt)
    requires
        is_ext(xi),
        xi != ext_one(),
    ensures
        ext_sub_spec(ext_one(), xi) != ext_zero(),
{
    if ext_sub_spec(ext_one(), xi) == ext_zero() {
        lemma_small_multiple_zero(1 - xi.c0);
        lemma_small_multiple_zero(0 - xi.c1);
        lemma_small_multiple_zero(0 - xi.c2);
        lemma_small_multiple_zero(0 - xi.c3);
    }
}

/// A value strictly between `-p` and `p` that reduces to zero is zero.
proof fn lemma_small_multiple_zero(x: int)
    requires
        -(KB_P as int) < x < KB_P as int,
    ensures
        red(x) == 0 ==> x == 0,
{
    vstd::arithmetic::div_mod::lemma_fundamental_div_mod(x, KB_P as int);
    let q = x / (KB_P as int);
    if red(x) == 0 {
        assert(x == (KB_P as int) * q) by {
            assert(0 <= x % (KB_P as int) < KB_P as int);
        }
        assert(q == 0) by (nonlinear_arith)
            requires x == (KB_P as int) * q, -(KB_P as int) < x < KB_P as int;
    }
}

/// Rebuilds the round polynomial of one sumcheck round from the two values the
/// device computed. Returns the evaluations `s(1), s(2), s(3)` to send and the
/// evaluations of `s'` at 0, 1, 2. `xi` must not be one (it is sampled at random).
pub fn reconstruct_s_evals(
    sp_vec: [KbExt; 2],
    prev_s_eval: KbExt,
    xi_j: KbExt,
    eq_r_acc: KbExt,
) -> (r: ([KbExt; 3], [KbExt; 3]))
    requires
        is_ext(sp_vec[0]),
        is_ext(sp_vec[1]),
        is_ext(prev_s_eval),
        is_ext(xi_j),
        is_ext(eq_r_acc),
        xi_j != ext_one(),
    ensures
        r.1 == sp_evals_spec(sp_vec, prev_s_eval, xi_j, eq_r_acc),
        r.0 == s_evals_spec(r.1, xi_j),
        is_ext(r.1[0]) && is_ext(r.1[1]) && is_ext(r.1[2]),
        is_ext(r.0[0]) && is_ext(r.0[1]) && is_ext(r.0[2]),
        ext_add_spec(ext_mul_spec(ext_sub_spec(ext_one(), xi_j), r.1[0]), ext_mul_spec(xi_j, r.1[1]))
            == prev_s_eval,
{
    let one = ext_one_exec();
    let sp1 = ext_mul(sp_vec[0], eq_r_acc);
    let sp2 = ext_mul(sp_vec[1], eq_r_acc);
    let eq_xi_0 = ext_sub(one, xi_j);
    proof {
        lemma_one_minus_nonzero(xi_j);
    }
    let inv = ext_inverse(eq_xi_0);
    proof {
        lemma_ext_inverse_unique(eq_xi_0, inv);
        lemma_reconstruct_meets_claim(sp_vec, prev_s_eval, xi_j, eq_r_acc);
    }
    let sp0 = ext_mul(ext_sub(prev_s_eval, ext_mul(xi_j, sp1)), inv);
    let sp_evals = [sp0, sp1, sp2];
    let s1 = ext_mul(eval_eq_1(xi_j, ext_from_base_exec(1)), sp1);
    let s2 = ext_mul(eval_eq_1(xi_j, ext_from_base_exec(2)), sp2);
    let sp3 = interpolate_quadratic_at_012(sp_evals, ext_from_base_exec(3));
    let s3 = ext_mul(eval_eq_1(xi_j, ext_from_base_exec(3)), sp3);
    ([s1, s2, s3], sp_evals)
}

/// Law of the round reconstruction: the rebuilt `s'` meets the sumcheck relation
/// `(1 - xi) s'(0) + xi s'(1) = prev_s_eval`, i.e. `s(0) + s(1)` equals the claim
/// carried from the previous round.
pub proof fn lemma_reconstruct_meets_claim(sp_vec: [KbExt; 2], prev_s_eval: KbExt, xi: KbExt, eq_r_acc: KbExt)
    requires
        is_ext(sp_vec[0]),
        is_ext(sp_vec[1]),
        is_ext(prev_s_eval),
        is_ext(xi),
        is_ext(eq_r_acc),
        ext_mul_spec(ext_sub_spec(ext_one(), xi), ext_inv_spec(ext_sub_spec(ext_one(), xi))) == ext_one(),
        is_ext(ext_inv_spec(ext_sub_spec(ext_one(), xi))),
    ensures
        ({
            let sp = sp_evals_spec(sp_vec, prev_s_eval, xi, eq_r_acc);
            ext_add_spec(
                ext_mul_spec(ext_sub_spec(ext_one(), xi), sp[0]),
                ext_mul_spec(xi, sp[1]),
            ) == prev_s_eval
        }),
{
    let sp = sp_evals_spec(sp_vec, prev_s_eval, xi, eq_r_acc);
    let a = ext_sub_spec(ext_one(), xi);
    let inv = ext_inv_spec(a);
    let t = ext_sub_spec(prev_s_eval, ext_mul_spec(xi, sp[1]));
    lemma_ext_mul_canonical(prev_s_eval, ext_mul_spec(xi, sp[1]));
    lemma_ext_mul_canonical(xi, sp[1]);
    // a * (t * inv) = (t * inv) * a = t * (inv * a) = t * (a * inv) = t
    lemma_ext_mul_comm(a, ext_mul_spec(t, inv));
    lemma_ext_mul_assoc(t, inv, a);
    lemma_ext_mul_comm(inv, a);
    lemma_ext_mul_one(t);
    assert(ext_mul_spec(a, sp[0]) == t);
    lemma_ext_add_sub_cancel(prev_s_eval, ext_mul_spec(xi, sp[1]));
}

/// Claim carried to the next round after the challenge `r`: the accumulated eq factor
/// grows by `eq(xi, r)` and the next claim is `eq(xi, r) s'(r)`.
pub open spec fn next_claim_spec(sp_evals: [KbExt; 3], xi: KbExt, r: KbExt, eq_r_acc: KbExt) -> (KbExt, KbExt) {
    let eq_r = eq1_spec(xi, r);
    (ext_mul_spec(eq_r_acc, eq_r), ext_mul_spec(eq_r, interp_quadratic_spec(sp_evals[0], sp_evals[1], sp_evals[2], r)))
}

/// Updates the accumulated eq factor and the running claim once the round's
/// challenge `r` has been sampled. Returns `(eq_r_acc, prev_s_eval)` for the next round.
pub fn update_round_claim(sp_evals: [KbExt; 3], xi_j: KbExt, r: KbExt, eq_r_acc: KbExt) -> (res: (KbExt, KbExt))
    requires
        is_ext(sp_evals[0]),
        is_ext(sp_evals[1]),
        is_ext(sp_evals[2]),
        is_ext(xi_j),
        is_ext(r),
        is_ext(eq_r_acc),
    ensures
        res == next_claim_spec(sp_evals, xi_j, r, eq_r_acc),
        is_ext(res.0),
        is_ext(res.1),
{
    let eq_r = eval_eq_1(xi_j, r);
    let acc = ext_mul(eq_r_acc, eq_r);
    let next = ext_mul(eq_r, interpolate_quadratic_at_012(sp_evals, r));
    (acc, next)
}

/// Bit `j` of `bits`.
pub open spec fn bit_of(bits: nat, j: nat) -> bool {
    (bits / pow2(j)) % 2 == 1
}

/// Factor of variable `x` in an eq-table entry: `x` for bit 1, `1 - x` for bit 0.
pub open spec fn mle_factor(x: KbExt, bit: bool) -> KbExt {
    if bit {
        x
    } else {
        ext_sub_spec(ext_one(), x)
    }
}

/// Product of the factors of the first `k` variables for the table entry `bits`
/// (the first variable is the most significant bit).
pub open spec fn mle_entry(points: Seq<KbExt>, bits: nat, k: nat) -> KbExt
    decreases k,
{
    if k == 0 {
        ext_one()
    } else {
        ext_mul_spec(
            mle_entry(points, bits, (k - 1) as nat),
            mle_factor(points[k - 1], bit_of(bits, (points.len() - k) as nat)),
        )
    }
}

/// Fills the first `2^n` entries of `out` with the eq table of the `n` points:
/// entry `bits` is `prod_i (bit_i ? x_i : 1 - x_i)`, the first point giving the most
/// significant bit. Later entries are left unchanged.
pub fn eval_mle_table(points: &Vec<KbExt>, out: &mut Vec<KbExt>)
    requires
        points@.len() < usize::BITS,
        old(out)@.len() >= pow2(points@.len() as nat),
        forall|i: int| 0 <= i < points@.len() ==> is_ext(#[trigger] points@[i]),
    ensures
        final(out)@.len() == old(out)@.len(),
        forall|b: int|
            0 <= b < pow2(points@.len() as nat) ==> #[trigger] final(out)@[b] == mle_entry(
                points@,
                b as nat,
                points@.len() as nat,
            ),
        forall|b: int|
            pow2(points@.len() as nat) <= b < final(out)@.len() ==> #[trigger] final(out)@[b] == old(out)@[b],
{
    let n = points.len();
    proof {
        vstd::bits::lemma_usize_pow2_no_overflow(n as nat);
        vstd::bits::lemma_usize_shl_is_mul(1, n);
    }
    let size: usize = 1usize << n;
    let ghost orig = out@;
    let mut bits: usize = 0;
    while bits < size
        invariant
            n == points@.len(),
            n < usize::BITS,
            size as int == pow2(n as nat),
            size <= orig.len(),
            out@.len() == orig.len(),
            bits <= size,
            forall|i: int| 0 <= i < points@.len() ==> is_ext(#[trigger] points@[i]),
            forall|b: int| 0 <= b < bits ==> #[trigger] out@[b] == mle_entry(points@, b as nat, n as nat),
            forall|b: int| bits <= b < out@.len() ==> #[trigger] out@[b] == orig[b],
        decreases size - bits,
    {
        let mut acc = ext_one_exec();
        let mut i: usize = 0;
        while i < n
            invariant
                n == points@.len(),
                n < usize::BITS,
                i <= n,
                forall|k: int| 0 <= k < points@.len() ==> is_ext(#[trigger] points@[k]),
                acc == mle_entry(points@, bits as nat, i as nat),
                is_ext(acc),
            decreases n - i,
        {
            let shift = n - 1 - i;
            let shifted = bits >> shift;
            let bit = (shifted & 1) == 1;
            proof {
                vstd::bits::lemma_usize_shr_is_div(bits, shift);
                assert((shifted & 1) == shifted % 2) by (bit_vector);
                assert(bit == bit_of(bits as nat, shift as nat));
            }
            let factor = if bit {
                points[i]
            } else {
                ext_sub(ext_one_exec(), points[i])
            };
            acc = ext_mul(acc, factor);
            i = i + 1;
        }
        out.set(bits, acc);
        bits = bits + 1;
    }
}

} // verus!
