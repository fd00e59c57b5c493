//! The point at which the stacked polynomials are opened: the first coordinate of
//! the reduced point lifted through its repeated squares, then the rest of the point.

use vstd::prelude::*;

use crate::kb_field::{ext_mul, ext_mul_spec, is_ext, lemma_ext_mul_canonical, KbExt};

verus! {

/// `x^(2^i)`: `x` squared `i` times.
pub open spec fn square_times(x: KbExt, i: nat) -> KbExt
    decreases i,
{
    if i == 0 {
        x
    } else {
        let y = square_times(x, (i - 1) as nat);
        ext_mul_spec(y, y)
    }
}

/// The opening point of the point `u`: `u0, u0^2, u0^4, ..., u0^(2^(l_skip - 1))`
/// followed by `u[1..]`.
pub open spec fn spec_opening_point_cube(u: Seq<KbExt>, l_skip: nat) -> Seq<KbExt> {
    Seq::new(l_skip, |i: int| square_times(u[0], i as nat)) + u.skip(1)
}

/// Builds the opening point from the reduced point `u` (which has at least its
/// first coordinate): `l_skip` repeated squares of `u[0]`, starting with `u[0]`
/// itself, then the remaining coordinates of `u`.
pub fn opening_point_cube(u: &Vec<KbExt>, l_skip: usize) -> (r: Vec<KbExt>)
    requires
        u@.len() >= 1,
        is_ext(u@[0]),
    ensures
        r@ == spec_opening_point_cube(u@, l_skip as nat),
{
    let mut out: Vec<KbExt> = Vec::new();
    let mut cur = u[0];
    let mut i: usize = 0;
    while i < l_skip
        invariant
            u@.len() >= 1,
            i <= l_skip,
            cur == square_times(u@[0], i as nat),
            is_ext(cur),
            out@ == Seq::new(i as nat, |k: int| square_times(u@[0], k as nat)),
        decreases l_skip - i,
    {
        out.push(cur);
        proof {
            lemma_ext_mul_canonical(cur, cur);
        }
        cur = ext_mul(cur, cur);
        i = i + 1;
        assert(out@ =~= Seq::new(i as nat, |k: int| square_times(u@[0], k as nat)));
    }
    let ghost head = out@;
    let mut j: usize = 1;
    while j < u.len()
        invariant
            1 <= j <= u@.len(),
            out@ == head + u@.subrange(1, j as int),
        decreases u@.len() - j,
    {
        out.push(u[j]);
        j = j + 1;
        assert(out@ =~= head + u@.subrange(1, j as int));
    }
    assert(u@.subrange(1, u@.len() as int) =~= u@.skip(1));
    out
}

} // verus!
