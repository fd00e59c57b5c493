//! Interpretation of the tuning variables of the precompute-M strategy. The
//! caller reads the process environment and hands over each value (`None` when
//! unset or not valid unicode).

use vstd::prelude::*;

use crate::gkr_schedule::{
    clamp_spec, max_spec, GKR_WINDOW_DEFAULT_MIN_N, PRECOMPUTE_M_DEFAULT_MIN_BLOCKS,
    PRECOMPUTE_M_DEFAULT_TARGET_BLOCKS, PRECOMPUTE_M_MIN_TAIL_TILE, PRECOMPUTE_M_TAIL_TILE,
};

verus! {

/// True for an ASCII decimal digit.
pub open spec fn is_digit(c: char) -> bool {
    '0' <= c && c <= '9'
}

/// Value of the decimal numeral `s` (all digits).
pub open spec fn digits_value(s: Seq<char>) -> int
    decreases s.len(),
{
    if s.len() == 0 {
        0
    } else {
        digits_value(s.drop_last()) * 10 + (s.last() as int - '0' as int)
    }
}

/// The digits of a numeral after an optional leading `+`.
pub open spec fn numeral_digits(s: Seq<char>) -> Seq<char> {
    if s.len() > 0 && s[0] == '+' {
        s.drop_first()
    } else {
        s
    }
}

/// Decimal parse of an unsigned machine integer, as `str::parse::<usize>` does it:
/// an optional `+`, then at least one decimal digit and nothing else, with a value
/// that fits.
pub open spec fn parse_usize_spec(s: Seq<char>) -> Option<usize> {
    let d = numeral_digits(s);
    if d.len() > 0 && (forall|i: int| 0 <= i < d.len() ==> is_digit(#[trigger] d[i])) && digits_value(d)
        <= usize::MAX {
        Some(digits_value(d) as usize)
    } else {
        None
    }
}

proof fn lemma_digits_value_prefix_monotone(d: Seq<char>, k: int)
    requires
        0 <= k <= d.len(),
        forall|i: int| 0 <= i < d.len() ==> is_digit(#[trigger] d[i]),
    ensures
        0 <= digits_value(d.subrange(0, k)) <= digits_value(d),
    decreases d.len() - k,
{
    if k < d.len() {
        lemma_digits_value_prefix_monotone(d, k + 1);
        let p = d.subrange(0, k + 1);
        assert(p.drop_last() =~= d.subrange(0, k));
        assert(is_digit(d[k]));
    } else {
        assert(d.subrange(0, k) =~= d);
    }
    lemma_digits_value_nonneg(d.subrange(0, k));
}

proof fn lemma_digits_value_nonneg(d: Seq<char>)
    requires
        forall|i: int| 0 <= i < d.len() ==> is_digit(#[trigger] d[i]),
    ensures
        digits_value(d) >= 0,
    decreases d.len(),
{
    if d.len() > 0 {
        let p = d.drop_last();
        assert forall|i: int| 0 <= i < p.len() implies is_digit(#[trigger] p[i]) by {
            assert(p[i] == d[i]);
        }
        lemma_digits_value_nonneg(p);
        assert(is_digit(d[d.len() - 1]));
    }
}

/// Parses a decimal `usize` the way `str::parse::<usize>` does.
pub fn parse_usize(s: &str) -> (r: Option<usize>)
    ensures
        r == parse_usize_spec(s@),
{
    let n = s.unicode_len();
    let mut start: usize = 0;
    if n > 0 && s.get_char(0) == '+' {
        start = 1;
    }
    let ghost d = numeral_digits(s@);
    assert(d =~= s@.subrange(start as int, n as int));
    if start == n {
        return None;
    }
    let mut value: usize = 0;
    let mut i: usize = start;
    while i < n
        invariant
            n == s@.len(),
            start <= i <= n,
            d == s@.subrange(start as int, n as int),
            d == numeral_digits(s@),
            forall|k: int| start <= k < i ==> is_digit(#[trigger] s@[k]),
            value as int == digits_value(s@.subrange(start as int, i as int)),
        decreases n - i,
    {
        let c = s.get_char(i);
        proof {
            assert(s@.subrange(start as int, i + 1).drop_last() =~= s@.subrange(start as int, i as int));
        }
        if !('0' <= c && c <= '9') {
            proof {
                assert(d[i - start] == c);
                assert(!is_digit(d[i - start]));
            }
            return None;
        }
        let digit: usize = (c as u32 - '0' as u32) as usize;
        let next = match value.checked_mul(10) {
            Some(m) => m.checked_add(digit),
            None => None,
        };
        match next {
            Some(v) => {
                value = v;
            },
            None => {
                proof {
                    assert(value * 10 + digit > usize::MAX);
                    assert(digits_value(s@.subrange(start as int, i + 1)) == value * 10 + digit);
                    if forall|k: int| 0 <= k < d.len() ==> is_digit(#[trigger] d[k]) {
                        lemma_digits_value_prefix_monotone(d, i + 1 - start);
                        assert(d.subrange(0, i + 1 - start) =~= s@.subrange(start as int, i + 1));
                    }
                }
                return None;
            },
        }
        i = i + 1;
    }
    proof {
        assert(s@.subrange(start as int, n as int) == d);
        assert forall|k: int| 0 <= k < d.len() implies is_digit(#[trigger] d[k]) by {
            assert(d[k] == s@[start + k]);
        }
    }
    Some(value)
}

/// True for the values that disable precompute-M: `0`, `false`, `FALSE`, `no`, `NO`.
pub open spec fn is_disabling_value(s: Seq<char>) -> bool {
    s == seq!['0'] || s == seq!['f', 'a', 'l', 's', 'e'] || s == seq!['F', 'A', 'L', 'S', 'E']
        || s == seq!['n', 'o'] || s == seq!['N', 'O']
}

/// True when `s` spells exactly the characters `w`.
fn spells(s: &str, w: &[char]) -> (r: bool)
    ensures
        r == (s@ == w@),
{
    let n = s.unicode_len();
    if n != w.len() {
        return false;
    }
    let mut i: usize = 0;
    while i < n
        invariant
            n == s@.len(),
            n == w@.len(),
            i <= n,
            forall|k: int| 0 <= k < i ==> s@[k] == w@[k],
        decreases n - i,
    {
        if s.get_char(i) != w[i] {
            return false;
        }
        i = i + 1;
    }
    assert(s@ =~= w@);
    true
}

/// Whether precompute-M is enabled: on unless the variable holds a disabling value.
pub fn precompute_m_enabled(value: Option<&str>) -> (r: bool)
    ensures
        r == !(value is Some && is_disabling_value(value->0@)),
{
    match value {
        None => true,
        Some(s) => {
            let off = spells(s, &['0']) || spells(s, &['f', 'a', 'l', 's', 'e']) || spells(
                s,
                &['F', 'A', 'L', 'S', 'E'],
            ) || spells(s, &['n', 'o']) || spells(s, &['N', 'O']);
            proof {
                assert(seq!['0'] =~= ['0']@);
            }
            !off
        },
    }
}

/// The parsed value of the variable, or `default` when unset or not a number.
pub open spec fn value_or(value: Option<&str>, default: usize) -> usize {
    match value {
        Some(s) => match parse_usize_spec(s@) {
            Some(v) => v,
            None => default,
        },
        None => default,
    }
}

fn parsed_or(value: Option<&str>, default: usize) -> (r: usize)
    ensures
        r == value_or(value, default),
{
    match value {
        Some(s) => match parse_usize(s) {
            Some(v) => v,
            None => default,
        },
        None => default,
    }
}

/// Minimum number of tail blocks for precompute-M (default 64, at least 1).
pub fn precompute_m_min_blocks_threshold(value: Option<&str>) -> (r: usize)
    ensures
        r as int == max_spec(value_or(value, PRECOMPUTE_M_DEFAULT_MIN_BLOCKS) as int, 1),
{
    let v = parsed_or(value, PRECOMPUTE_M_DEFAULT_MIN_BLOCKS);
    if v >= 1 { v } else { 1 }
}

/// Target number of tail blocks for precompute-M (default 1024, at least 1).
pub fn precompute_m_target_blocks(value: Option<&str>) -> (r: usize)
    ensures
        r as int == max_spec(value_or(value, PRECOMPUTE_M_DEFAULT_TARGET_BLOCKS) as int, 1),
{
    let v = parsed_or(value, PRECOMPUTE_M_DEFAULT_TARGET_BLOCKS);
    if v >= 1 { v } else { 1 }
}

/// Tail tile override for precompute-M, clamped to the supported tile range; none
/// when unset or not a number.
pub fn precompute_m_tail_tile_override(value: Option<&str>) -> (r: Option<usize>)
    ensures
        r == match value {
            Some(s) => match parse_usize_spec(s@) {
                Some(v) => Some(
                    clamp_spec(v as int, PRECOMPUTE_M_MIN_TAIL_TILE as int, PRECOMPUTE_M_TAIL_TILE as int) as usize,
                ),
                None => None,
            },
            None => None,
        },
        r matches Some(t) ==> PRECOMPUTE_M_MIN_TAIL_TILE <= t <= PRECOMPUTE_M_TAIL_TILE,
{
    match value {
        Some(s) => match parse_usize(s) {
            Some(v) => {
                let t = if v < PRECOMPUTE_M_MIN_TAIL_TILE {
                    PRECOMPUTE_M_MIN_TAIL_TILE
                } else if v > PRECOMPUTE_M_TAIL_TILE {
                    PRECOMPUTE_M_TAIL_TILE
                } else {
                    v
                };
                Some(t)
            },
            None => None,
        },
        None => None,
    }
}

/// Smallest remaining variable count for precompute-M (default 22).
pub fn precompute_m_min_n(value: Option<&str>) -> (r: usize)
    ensures
        r == value_or(value, GKR_WINDOW_DEFAULT_MIN_N),
{
    parsed_or(value, GKR_WINDOW_DEFAULT_MIN_N)
}

} // verus!
