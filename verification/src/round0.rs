//! Host-side pieces of the round-0 batch sumcheck: selector columns, interaction
//! weights, the zerofier product and the lifting normalisation.

use vstd::arithmetic::power2::pow2;
use vstd::prelude::*;

use crate::kb_field::{
    ext_add, ext_add_spec, ext_from_base, ext_from_base_exec, ext_mul, ext_mul_spec, ext_neg,
    ext_sub_spec, ext_zero, ext_zero_exec, is_ext, is_kb, kb_inv_spec, kb_inverse,
    lemma_kb_inverse_unique, lemma_red_add, lemma_red_canonical, red, KbExt, KB_P,
};

verus! {

/// Value of entry `idx` of the column-major selector matrix of a trace of `height`
/// rows: column 0 is `is_first`, column 1 `is_transition` (every row but the last),
/// column 2 `is_last`.
pub open spec fn selector_value(height: int, idx: int) -> u32 {
    if idx == 0 || (height <= idx < 2 * height - 1) || idx == 3 * height - 1 {
        1
    } else {
        0
    }
}

/// Builds the three selector columns (`is_first`, `is_transition`, `is_last`) of a
/// trace of `height` rows, column-major, as base-field values.
pub fn selector_columns(height: usize) -> (r: Vec<u32>)
    requires
        3 * height <= usize::MAX,
    ensures
        r@.len() == 3 * height,
        forall|i: int| 0 <= i < 3 * height ==> #[trigger] r@[i] == selector_value(height as int, i),
{
    let total = 3 * height;
    let mut sel: Vec<u32> = Vec::new();
    let mut i: usize = 0;
    while i < total
        invariant
            total == 3 * height,
            i <= total,
            sel@.len() == i,
            forall|k: int| 0 <= k < i ==> #[trigger] sel@[k] == 0,
        decreases total - i,
    {
        sel.push(0);
        i = i + 1;
    }
    if height > 0 {
        sel.set(0, 1);
        let mut j: usize = 0;
        while j < height - 1
            invariant
                height > 0,
                total == 3 * height,
                sel@.len() == total,
                j <= height - 1,
                sel@[0] == 1,
                forall|k: int|
                    1 <= k < total ==> #[trigger] sel@[k] == if height <= k < height + j { 1u32 } else { 0u32 },
            decreases height - 1 - j,
        {
            sel.set(height + j, 1);
            j = j + 1;
        }
        sel.set(total - 1, 1);
    }
    sel
}

/// The rule indices of one interaction: its count expression and its message
/// expressions, with the bus it is sent on.
#[derive(Debug, Clone)]
pub struct InteractionRules {
    /// Rule index of the count expression.
    pub count_rule: usize,
    /// Rule indices of the message expressions, in order.
    pub message_rules: Vec<usize>,
    /// Bus of the interaction.
    pub bus_index: u16,
}

/// `sum_{i < k} (ints[i].count_rule == r ? eq_3bs[i] : 0)`.
pub open spec fn numer_weight(ints: Seq<InteractionRules>, eq_3bs: Seq<KbExt>, r: int, k: nat) -> KbExt
    decreases k,
{
    if k == 0 {
        ext_zero()
    } else {
        let prev = numer_weight(ints, eq_3bs, r, (k - 1) as nat);
        if ints[k - 1].count_rule == r {
            ext_add_spec(prev, eq_3bs[k - 1])
        } else {
            prev
        }
    }
}

/// `sum_{j < m} (msgs[j] == r ? e * beta_pows[j] : 0)` added to `acc`.
pub open spec fn denom_weight_msgs(
    acc: KbExt,
    msgs: Seq<usize>,
    e: KbExt,
    beta_pows: Seq<KbExt>,
    r: int,
    m: nat,
) -> KbExt
    decreases m,
{
    if m == 0 {
        acc
    } else {
        let prev = denom_weight_msgs(acc, msgs, e, beta_pows, r, (m - 1) as nat);
        if msgs[m - 1] == r {
            ext_add_spec(prev, ext_mul_spec(e, beta_pows[m - 1]))
        } else {
            prev
        }
    }
}

/// `sum_{i < k} sum_j (message_rules[i][j] == r ? eq_3bs[i] * beta_pows[j] : 0)`.
pub open spec fn denom_weight(
    ints: Seq<InteractionRules>,
    eq_3bs: Seq<KbExt>,
    beta_pows: Seq<KbExt>,
    r: int,
    k: nat,
) -> KbExt
    decreases k,
{
    if k == 0 {
        ext_zero()
    } else {
        let i = k - 1;
        denom_weight_msgs(
            denom_weight(ints, eq_3bs, beta_pows, r, (k - 1) as nat),
            ints[i].message_rules@,
            eq_3bs[i],
            beta_pows,
            r,
            ints[i].message_rules@.len(),
        )
    }
}

/// `sum_{i < k} eq_3bs[i] * beta_pows[len_i] * (bus_i + 1)`.
pub open spec fn denom_sum_init(ints: Seq<InteractionRules>, eq_3bs: Seq<KbExt>, beta_pows: Seq<KbExt>, k: nat) -> KbExt
    decreases k,
{
    if k == 0 {
        ext_zero()
    } else {
        let i = k - 1;
        ext_add_spec(
            denom_sum_init(ints, eq_3bs, beta_pows, (k - 1) as nat),
            ext_mul_spec(
                ext_mul_spec(eq_3bs[i], beta_pows[ints[i].message_rules@.len() as int]),
                ext_from_base((ints[i].bus_index + 1) as u32),
            ),
        )
    }
}

/// Sum of a sequence of extension elements.
pub open spec fn ext_sum(s: Seq<KbExt>) -> KbExt
    decreases s.len(),
{
    if s.len() == 0 {
        ext_zero()
    } else {
        ext_add_spec(ext_sum(s.drop_last()), s.last())
    }
}

/// The contribution of each of the first `n` interactions to the numerator of rule
/// `r`: its `eq_3b` when its count rule is `r`, zero otherwise.
pub open spec fn count_rule_terms(ints: Seq<InteractionRules>, eq_3bs: Seq<KbExt>, r: int, n: nat) -> Seq<KbExt> {
    Seq::new(n, |i: int| if ints[i].count_rule == r { eq_3bs[i] } else { ext_zero() })
}

/// The contribution of each message position `j` of an interaction with weight `e`
/// to the denominator of rule `r`: `e * beta^j` when its message rule is `r`.
pub open spec fn message_rule_terms(msgs: Seq<usize>, e: KbExt, beta_pows: Seq<KbExt>, r: int) -> Seq<KbExt> {
    Seq::new(msgs.len(), |j: int| if msgs[j] == r { ext_mul_spec(e, beta_pows[j]) } else { ext_zero() })
}

/// The contribution of each of the first `n` interactions to the denominator of
/// rule `r`: the sum over its message positions.
pub open spec fn interaction_denom_terms(
    ints: Seq<InteractionRules>,
    eq_3bs: Seq<KbExt>,
    beta_pows: Seq<KbExt>,
    r: int,
    n: nat,
) -> Seq<KbExt> {
    Seq::new(n, |i: int| ext_sum(message_rule_terms(ints[i].message_rules@, eq_3bs[i], beta_pows, r)))
}

/// The bus term of each of the first `n` interactions: `eq_3b * beta^len * (bus + 1)`.
pub open spec fn bus_terms(ints: Seq<InteractionRules>, eq_3bs: Seq<KbExt>, beta_pows: Seq<KbExt>, n: nat) -> Seq<KbExt> {
    Seq::new(
        n,
        |i: int|
            ext_mul_spec(
                ext_mul_spec(eq_3bs[i], beta_pows[ints[i].message_rules@.len() as int]),
                ext_from_base((ints[i].bus_index + 1) as u32),
            ),
    )
}

/// A sum is canonical.
proof fn lemma_ext_sum_canonical(s: Seq<KbExt>)
    ensures
        is_ext(ext_sum(s)),
    decreases s.len(),
{
    if s.len() > 0 {
        lemma_ext_sum_canonical(s.drop_last());
    }
}

/// Adding zero to a canonical element leaves it unchanged.
proof fn lemma_ext_add_zero(a: KbExt)
    requires
        is_ext(a),
    ensures
        ext_add_spec(a, ext_zero()) == a,
{
    lemma_red_canonical(a.c0);
    lemma_red_canonical(a.c1);
    lemma_red_canonical(a.c2);
    lemma_red_canonical(a.c3);
}

/// `(a + b) + c = a + (b + c)` on canonical values.
proof fn lemma_add_assoc_coeff(a: u32, b: u32, c: u32)
    requires
        is_kb(a),
        is_kb(c),
    ensures
        red(red(a + b) + c) == red(a + red(b + c)),
{
    lemma_red_add(a + b, c as int);
    lemma_red_add(a as int, b + c);
    lemma_red_canonical(a);
    lemma_red_canonical(c);
}

/// Addition of canonical extension elements is associative.
proof fn lemma_ext_add_assoc(a: KbExt, b: KbExt, c: KbExt)
    requires
        is_ext(a),
        is_ext(c),
    ensures
        ext_add_spec(ext_add_spec(a, b), c) == ext_add_spec(a, ext_add_spec(b, c)),
{
    lemma_add_assoc_coeff(a.c0, b.c0, c.c0);
    lemma_add_assoc_coeff(a.c1, b.c1, c.c1);
    lemma_add_assoc_coeff(a.c2, b.c2, c.c2);
    lemma_add_assoc_coeff(a.c3, b.c3, c.c3);
}

/// The message loop adds the sum of the message terms of the first `m` positions.
proof fn lemma_denom_msgs_is_sum(acc: KbExt, msgs: Seq<usize>, e: KbExt, beta_pows: Seq<KbExt>, r: int, m: nat)
    requires
        is_ext(acc),
        m <= msgs.len(),
    ensures
        denom_weight_msgs(acc, msgs, e, beta_pows, r, m) == ext_add_spec(
            acc,
            ext_sum(message_rule_terms(msgs, e, beta_pows, r).take(m as int)),
        ),
    decreases m,
{
    let t = message_rule_terms(msgs, e, beta_pows, r);
    if m == 0 {
        assert(t.take(0) =~= Seq::<KbExt>::empty());
        lemma_ext_add_zero(acc);
    } else {
        lemma_denom_msgs_is_sum(acc, msgs, e, beta_pows, r, (m - 1) as nat);
        assert(t.take(m as int).drop_last() =~= t.take(m - 1));
        let prev_sum = ext_sum(t.take(m - 1));
        lemma_ext_sum_canonical(t.take(m - 1));
        if msgs[m - 1] == r {
            lemma_ext_add_assoc(acc, prev_sum, ext_mul_spec(e, beta_pows[m - 1]));
            crate::kb_field::lemma_ext_mul_canonical(e, beta_pows[m - 1]);
        } else {
            lemma_ext_add_zero(prev_sum);
        }
    }
}

/// Law of the round-0 interaction weights: the numerator weight of rule `r` is the
/// sum of `eq_3bs[i]` over every interaction `i` whose count rule is `r`; the
/// denominator weight of rule `r` is the sum of `eq_3bs[i] * beta_pows[j]` over every
/// pair (interaction `i`, message position `j`) whose message rule is `r`; the
/// initial denominator sum is the sum of the bus terms. A repeated rule adds to its
/// weight.
pub proof fn lemma_weights_are_sums(
    ints: Seq<InteractionRules>,
    eq_3bs: Seq<KbExt>,
    beta_pows: Seq<KbExt>,
    r: int,
    n: nat,
)
    ensures
        numer_weight(ints, eq_3bs, r, n) == ext_sum(count_rule_terms(ints, eq_3bs, r, n)),
        denom_weight(ints, eq_3bs, beta_pows, r, n) == ext_sum(interaction_denom_terms(ints, eq_3bs, beta_pows, r, n)),
        denom_sum_init(ints, eq_3bs, beta_pows, n) == ext_sum(bus_terms(ints, eq_3bs, beta_pows, n)),
    decreases n,
{
    if n > 0 {
        let m = (n - 1) as nat;
        lemma_weights_are_sums(ints, eq_3bs, beta_pows, r, m);
        assert(count_rule_terms(ints, eq_3bs, r, n).drop_last() =~= count_rule_terms(ints, eq_3bs, r, m));
        assert(interaction_denom_terms(ints, eq_3bs, beta_pows, r, n).drop_last()
            =~= interaction_denom_terms(ints, eq_3bs, beta_pows, r, m));
        assert(bus_terms(ints, eq_3bs, beta_pows, n).drop_last() =~= bus_terms(ints, eq_3bs, beta_pows, m));
        lemma_ext_sum_canonical(count_rule_terms(ints, eq_3bs, r, m));
        if ints[m as int].count_rule != r {
            lemma_ext_add_zero(ext_sum(count_rule_terms(ints, eq_3bs, r, m)));
        }
        let msgs = ints[m as int].message_rules@;
        let t = message_rule_terms(msgs, eq_3bs[m as int], beta_pows, r);
        lemma_ext_sum_canonical(interaction_denom_terms(ints, eq_3bs, beta_pows, r, m));
        lemma_denom_msgs_is_sum(
            denom_weight(ints, eq_3bs, beta_pows, r, m),
            msgs,
            eq_3bs[m as int],
            beta_pows,
            r,
            msgs.len(),
        );
        assert(t.take(msgs.len() as int) =~= t);
    }
}

/// Inputs the weight computation indexes without bounds failures.
pub open spec fn weights_inputs_ok(
    ints: Seq<InteractionRules>,
    eq_3bs: Seq<KbExt>,
    beta_pows: Seq<KbExt>,
    num_rules: nat,
) -> bool {
    &&& eq_3bs.len() >= ints.len()
    &&& forall|i: int| 0 <= i < eq_3bs.len() ==> is_ext(#[trigger] eq_3bs[i])
    &&& forall|j: int| 0 <= j < beta_pows.len() ==> is_ext(#[trigger] beta_pows[j])
    &&& forall|i: int|
        0 <= i < ints.len() ==> {
            &&& (#[trigger] ints[i]).count_rule < num_rules
            &&& ints[i].message_rules@.len() < beta_pows.len()
            &&& forall|j: int| 0 <= j < ints[i].message_rules@.len() ==> #[trigger] ints[i].message_rules@[j] < num_rules
        }
}

/// Weights of the round-0 logup evaluation, per rule: each interaction's `eq_3b`
/// weight goes to its count rule (numerator) and, times `beta^j`, to its `j`-th
/// message rule (denominator); the bus terms `eq_3b * beta^len * (bus + 1)` are
/// summed into the initial denominator value.
pub fn round0_interaction_weights(
    interactions: &Vec<InteractionRules>,
    eq_3bs: &Vec<KbExt>,
    beta_pows: &Vec<KbExt>,
    num_rules: usize,
) -> (r: (Vec<KbExt>, Vec<KbExt>, KbExt))
    requires
        weights_inputs_ok(interactions@, eq_3bs@, beta_pows@, num_rules as nat),
    ensures
        r.0@.len() == num_rules,
        r.1@.len() == num_rules,
        forall|k: int|
            0 <= k < num_rules ==> #[trigger] r.0@[k] == numer_weight(
                interactions@,
                eq_3bs@,
                k,
                interactions@.len(),
            ),
        forall|k: int|
            0 <= k < num_rules ==> #[trigger] r.1@[k] == denom_weight(
                interactions@,
                eq_3bs@,
                beta_pows@,
                k,
                interactions@.len(),
            ),
        r.2 == denom_sum_init(interactions@, eq_3bs@, beta_pows@, interactions@.len()),
        forall|k: int|
            0 <= k < num_rules ==> #[trigger] r.0@[k] == ext_sum(
                count_rule_terms(interactions@, eq_3bs@, k, interactions@.len()),
            ),
        forall|k: int|
            0 <= k < num_rules ==> #[trigger] r.1@[k] == ext_sum(
                interaction_denom_terms(interactions@, eq_3bs@, beta_pows@, k, interactions@.len()),
            ),
        r.2 == ext_sum(bus_terms(interactions@, eq_3bs@, beta_pows@, interactions@.len())),
{
    let mut numer: Vec<KbExt> = Vec::new();
    let mut denom: Vec<KbExt> = Vec::new();
    let mut t: usize = 0;
    while t < num_rules
        invariant
            t <= num_rules,
            numer@.len() == t,
            denom@.len() == t,
            forall|k: int| 0 <= k < t ==> #[trigger] numer@[k] == ext_zero(),
            forall|k: int| 0 <= k < t ==> #[trigger] denom@[k] == ext_zero(),
        decreases num_rules - t,
    {
        numer.push(ext_zero_exec());
        denom.push(ext_zero_exec());
        t = t + 1;
    }
    let mut sum_init = ext_zero_exec();
    let n = interactions.len();
    let mut i: usize = 0;
    while i < n
        invariant
            n == interactions@.len(),
            i <= n,
            weights_inputs_ok(interactions@, eq_3bs@, beta_pows@, num_rules as nat),
            numer@.len() == num_rules,
            denom@.len() == num_rules,
            forall|k: int|
                0 <= k < num_rules ==> #[trigger] numer@[k] == numer_weight(
                    interactions@,
                    eq_3bs@,
                    k,
                    i as nat,
                ),
            forall|k: int|
                0 <= k < num_rules ==> #[trigger] denom@[k] == denom_weight(
                    interactions@,
                    eq_3bs@,
                    beta_pows@,
                    k,
                    i as nat,
                ),
            sum_init == denom_sum_init(interactions@, eq_3bs@, beta_pows@, i as nat),
            is_ext(sum_init),
            forall|k: int| 0 <= k < num_rules ==> is_ext(#[trigger] numer@[k]),
            forall|k: int| 0 <= k < num_rules ==> is_ext(#[trigger] denom@[k]),
        decreases n - i,
    {
        let interaction = &interactions[i];
        let e = eq_3bs[i];
        let cr = interaction.count_rule;
        assert(interactions@[i as int].count_rule < num_rules);
        let old_numer = numer[cr];
        numer.set(cr, ext_add(old_numer, e));
        let msgs = &interaction.message_rules;
        let len = msgs.len();
        let bus_term = ext_mul(
            ext_mul(e, beta_pows[len]),
            ext_from_base_exec(interaction.bus_index as u32 + 1),
        );
        sum_init = ext_add(sum_init, bus_term);
        let mut j: usize = 0;
        while j < len
            invariant
                n == interactions@.len(),
                i < n,
                len == msgs@.len(),
                msgs@ == interactions@[i as int].message_rules@,
                e == eq_3bs@[i as int],
                j <= len,
                weights_inputs_ok(interactions@, eq_3bs@, beta_pows@, num_rules as nat),
                denom@.len() == num_rules,
                forall|k: int|
                    0 <= k < num_rules ==> #[trigger] denom@[k] == denom_weight_msgs(
                        denom_weight(interactions@, eq_3bs@, beta_pows@, k, i as nat),
                        msgs@,
                        e,
                        beta_pows@,
                        k,
                        j as nat,
                    ),
                forall|k: int| 0 <= k < num_rules ==> is_ext(#[trigger] denom@[k]),
            decreases len - j,
        {
            let mr = msgs[j];
            assert(interactions@[i as int].message_rules@[j as int] < num_rules);
            let w = ext_mul(e, beta_pows[j]);
            let old_d = denom[mr];
            denom.set(mr, ext_add(old_d, w));
            j = j + 1;
        }
        proof {
            assert forall|k: int| 0 <= k < num_rules implies #[trigger] numer@[k] == numer_weight(
                interactions@,
                eq_3bs@,
                k,
                (i + 1) as nat,
            ) by {}
        }
        i = i + 1;
    }
    proof {
        lemma_weights_are_sums(interactions@, eq_3bs@, beta_pows@, 0, n as nat);
        assert forall|k: int| 0 <= k < num_rules implies #[trigger] numer@[k] == ext_sum(
            count_rule_terms(interactions@, eq_3bs@, k, n as nat),
        ) by {
            lemma_weights_are_sums(interactions@, eq_3bs@, beta_pows@, k, n as nat);
        }
        assert forall|k: int| 0 <= k < num_rules implies #[trigger] denom@[k] == ext_sum(
            interaction_denom_terms(interactions@, eq_3bs@, beta_pows@, k, n as nat),
        ) by {
            lemma_weights_are_sums(interactions@, eq_3bs@, beta_pows@, k, n as nat);
        }
    }
    (numer, denom, sum_init)
}

/// Coefficient `i` of `(Z^skip - 1) q(Z)`: `-q_i + q_{i - skip}`, with missing
/// coefficients zero.
pub open spec fn zerofier_coeff(q: Seq<KbExt>, skip: int, i: int) -> KbExt {
    let qi = if i < q.len() { q[i] } else { ext_zero() };
    let neg = ext_sub_spec(ext_zero(), qi);
    if i >= skip {
        let prev = if i - skip < q.len() { q[i - skip] } else { ext_zero() };
        ext_add_spec(neg, prev)
    } else {
        neg
    }
}

/// The coefficients `0..=sp0_deg` of `(Z^(2^l_skip) - 1) q(Z)`: the round-0
/// polynomial rebuilt from the quotient `q`.
pub fn zerofier_times_quotient(q: &Vec<KbExt>, l_skip: usize, sp0_deg: usize) -> (r: Vec<KbExt>)
    requires
        l_skip < usize::BITS,
        sp0_deg < usize::MAX,
        forall|i: int| 0 <= i < q@.len() ==> is_ext(#[trigger] q@[i]),
    ensures
        r@.len() == sp0_deg + 1,
        forall|i: int|
            0 <= i <= sp0_deg ==> #[trigger] r@[i] == zerofier_coeff(q@, pow2(l_skip as nat) as int, i),
        forall|i: int|
            0 <= i <= sp0_deg ==> #[trigger] r@[i] == ext_sub_spec(
                if i >= pow2(l_skip as nat) && i - pow2(l_skip as nat) < q@.len() {
                    q@[i - pow2(l_skip as nat)]
                } else {
                    ext_zero()
                },
                if i < q@.len() { q@[i] } else { ext_zero() },
            ),
{
    proof {
        vstd::bits::lemma_usize_pow2_no_overflow(l_skip as nat);
        vstd::bits::lemma_usize_shl_is_mul(1, l_skip);
    }
    let skip: usize = 1usize << l_skip;
    let mut out: Vec<KbExt> = Vec::new();
    let mut i: usize = 0;
    while i <= sp0_deg
        invariant
            sp0_deg < usize::MAX,
            skip as int == pow2(l_skip as nat),
            i <= sp0_deg + 1,
            out@.len() == i,
            forall|k: int| 0 <= k < q@.len() ==> is_ext(#[trigger] q@[k]),
            forall|k: int| 0 <= k < i ==> #[trigger] out@[k] == zerofier_coeff(q@, skip as int, k),
        decreases sp0_deg + 1 - i,
    {
        let qi = if i < q.len() { q[i] } else { ext_zero_exec() };
        let mut c = ext_neg(qi);
        if i >= skip {
            let prev = if i - skip < q.len() { q[i - skip] } else { ext_zero_exec() };
            c = ext_add(c, prev);
        }
        out.push(c);
        i = i + 1;
    }
    proof {
        assert forall|k: int| 0 <= k <= sp0_deg implies #[trigger] out@[k] == ext_sub_spec(
            if k >= pow2(l_skip as nat) && k - pow2(l_skip as nat) < q@.len() {
                q@[k - pow2(l_skip as nat)]
            } else {
                ext_zero()
            },
            if k < q@.len() { q@[k] } else { ext_zero() },
        ) by {
            lemma_zerofier_coeff_is_shift_minus_q(q@, skip as int, k);
        }
    }
    out
}

/// Law of the zerofier product: coefficient `i` of `(Z^skip - 1) q(Z)` is
/// `q[i - skip] - q[i]`, each missing coefficient of `q` taken as zero, whatever
/// the length of `q`.
pub proof fn lemma_zerofier_coeff_is_shift_minus_q(q: Seq<KbExt>, skip: int, i: int)
    requires
        forall|k: int| 0 <= k < q.len() ==> is_ext(#[trigger] q[k]),
        skip >= 1,
        i >= 0,
    ensures
        zerofier_coeff(q, skip, i) == ext_sub_spec(
            if i >= skip && i - skip < q.len() { q[i - skip] } else { ext_zero() },
            if i < q.len() { q[i] } else { ext_zero() },
        ),
{
    let qi = if i < q.len() { q[i] } else { ext_zero() };
    let prev = if i >= skip && i - skip < q.len() { q[i - skip] } else { ext_zero() };
    lemma_neg_plus(qi, prev);
}

/// `-a + b = b - a` on canonical extension elements.
proof fn lemma_neg_plus(a: KbExt, b: KbExt)
    requires
        is_ext(a),
        is_ext(b),
    ensures
        ext_add_spec(ext_sub_spec(ext_zero(), a), b) == ext_sub_spec(b, a),
{
    lemma_neg_plus_coeff(a.c0, b.c0);
    lemma_neg_plus_coeff(a.c1, b.c1);
    lemma_neg_plus_coeff(a.c2, b.c2);
    lemma_neg_plus_coeff(a.c3, b.c3);
}

/// `-a + b = b - a` on canonical base-field values.
proof fn lemma_neg_plus_coeff(a: u32, b: u32)
    requires
        is_kb(b),
    ensures
        red(red(0 - a) + b) == red(b - a),
{
    lemma_red_add(0 - a, b as int);
    lemma_red_canonical(b);
}

/// Normalisation of a round-0 numerator when the trace is shorter than the lifted
/// domain by `2^k`: the base-field inverse of `2^k`.
pub fn round0_norm_factor(k: u32) -> (r: u32)
    requires
        k < 32,
    ensures
        is_kb(r),
        red(r * pow2(k as nat)) == 1,
        r == kb_inv_spec(red(pow2(k as nat) as int)),
{
    proof {
        vstd::bits::lemma_u32_pow2_no_overflow(k as nat);
        vstd::bits::lemma_u32_shl_is_mul(1, k);
        vstd::arithmetic::power2::lemma_pow2_pos(k as nat);
    }
    let v: u32 = 1u32 << k;
    let reduced = v % KB_P;
    proof {
        // 2^k is not a multiple of the odd prime
        assert(reduced != 0) by {
            if reduced == 0 {
                lemma_pow2_not_multiple_of_p(k as nat);
            }
        }
    }
    let inv = kb_inverse(reduced);
    proof {
        lemma_kb_inverse_unique(reduced, inv);
        vstd::arithmetic::div_mod::lemma_mul_mod_noop_left(v as int, inv as int, KB_P as int);
        assert(inv * v == v * inv) by (nonlinear_arith);
    }
    inv
}

/// No power of two is a multiple of the (odd) KoalaBear prime.
proof fn lemma_pow2_not_multiple_of_p(k: nat)
    requires
        k < 32,
    ensures
        pow2(k) as int % (KB_P as int) != 0,
    decreases k,
{
    vstd::arithmetic::power2::lemma2_to64();
    if k <= 30 {
        vstd::arithmetic::power2::lemma_pow2_strictly_increases(k, 31);
        vstd::arithmetic::power2::lemma_pow2_pos(k);
        vstd::arithmetic::div_mod::lemma_small_mod(pow2(k), KB_P as nat);
    } else {
        assert(pow2(31) == 0x80000000);
    }
}


/// Whether a round-0 evaluation has work to do: some terms (constraints, or
/// interaction weights) and at least one coset. Otherwise its polynomial is empty.
pub fn round0_has_work(num_terms: usize, num_cosets: usize) -> (r: bool)
    ensures
        r == (num_terms != 0 && num_cosets != 0),
{
    num_terms != 0 && num_cosets != 0
}

/// Number of cosets the round-0 zerocheck evaluates for constraints of degree
/// `constraint_deg`: `constraint_deg - 1`, and none (no polynomial) for degree at
/// most one, whose quotient by the zerofier vanishes.
pub fn round0_constraint_cosets(constraint_deg: usize) -> (r: Option<usize>)
    ensures
        r is None <==> constraint_deg <= 1,
        r matches Some(c) ==> c == constraint_deg - 1,
{
    if constraint_deg <= 1 {
        None
    } else {
        Some(constraint_deg - 1)
    }
}

} // verus!
