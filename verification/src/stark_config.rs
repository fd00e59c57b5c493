//! The KoalaBear Poseidon2 configuration: round constants of the width-16
//! permutation and the two-to-one compression with capacity.

use p3_field::PrimeField32;
use p3_koala_bear::KoalaBear;
use p3_symmetric::Permutation;
use vstd::prelude::*;

use crate::kb_field::{is_kb, KB_P};

verus! {

/// Sponge rate of the transcript.
pub const RATE: usize = 8;
/// Width of the permutation.
pub const WIDTH: usize = 16;
/// Number of field elements in a hash chunk.
pub const CHUNK: usize = 8;
/// Number of field elements in a digest.
pub const DIGEST_SIZE: usize = 8;
/// Degree of the challenge extension field.
pub const D_EF: usize = 4;

/// Initial external round constants of the width-16 KoalaBear Poseidon2 (the u32
/// values of rows 0 to 3 of the BabyBear width-16 table, read as KoalaBear elements).
pub const KOALABEAR_RC16_EXTERNAL_INITIAL: [[u32; 16]; 4] = [
    [
        0x69cbb6af, 0x46ad93f9, 0x60a00f4e, 0x6b1297cd, 0x23189afe, 0x732e7bef, 0x72c246de,
        0x2c941900, 0x0557eede, 0x1580496f, 0x3a3ea77b, 0x54f3f271, 0x0f49b029, 0x47872fe1,
        0x221e2e36, 0x1ab7202e,
    ],
    [
        0x487779a6, 0x3851c9d8, 0x38dc17c0, 0x209f8849, 0x268dcee8, 0x350c48da, 0x5b9ad32e,
        0x0523272b, 0x3f89055b, 0x01e894b2, 0x13ddedde, 0x1b2ef334, 0x7507d8b4, 0x6ceeb94e,
        0x52eb6ba2, 0x50642905,
    ],
    [
        0x05453f3f, 0x06349efc, 0x6922787c, 0x04bfff9c, 0x768c714a, 0x3e9ff21a, 0x15737c9c,
        0x2229c807, 0x0d47f88c, 0x097e0ecc, 0x27eadba0, 0x2d7d29e4, 0x3502aaa0, 0x0f475fd7,
        0x29fbda49, 0x018afffd,
    ],
    [
        0x0315b618, 0x6d4497d1, 0x1b171d9e, 0x52861abd, 0x2e5d0501, 0x3ec8646c, 0x6e5f250a,
        0x148ae8e6, 0x17f5fa4a, 0x3e66d284, 0x0051aa3b, 0x483f7913, 0x2cfe5f15, 0x023427ca,
        0x2cc78315, 0x1e36ea47,
    ],
];

/// Terminal external round constants of the width-16 KoalaBear Poseidon2 (zero).
pub const KOALABEAR_RC16_EXTERNAL_FINAL: [[u32; 16]; 4] = [
    [0, 0, 0, 0, 0, 0, 0, 0, 0, 0, 0, 0, 0, 0, 0, 0],
    [0, 0, 0, 0, 0, 0, 0, 0, 0, 0, 0, 0, 0, 0, 0, 0],
    [0, 0, 0, 0, 0, 0, 0, 0, 0, 0, 0, 0, 0, 0, 0, 0],
    [0, 0, 0, 0, 0, 0, 0, 0, 0, 0, 0, 0, 0, 0, 0, 0],
];

/// Internal round constants of the width-16 KoalaBear Poseidon2 (20 rounds): the
/// first column of rows 4 to 20 of the BabyBear table, then three zeros.
pub const KOALABEAR_RC16_INTERNAL: [u32; 20] = [
    0x5a8053c0, 0x693be639, 0x3858867d, 0x19334f6b, 0x128f0fd8, 0x4e2b1ccb, 0x61210ce0, 0x3c318939,
    0x0b5b2f22, 0x2edb11d5, 0x213effdf, 0x0cac4606, 0x241af16d, 0x7290a80d, 0x5b8fe9c4, 0x58eb1611,
    0x59986d19, 0, 0, 0,
];

/// The width-16 KoalaBear Poseidon2 permutation with the given round constants,
/// applied to `state` (canonical values), as `p3_poseidon2` computes it.
pub uninterp spec fn kb_poseidon2_permutation(
    external_initial: Seq<Seq<u32>>,
    external_final: Seq<Seq<u32>>,
    internal: Seq<u32>,
    state: Seq<u32>,
) -> Seq<u32>;

/// The permutation of the default configuration.
pub open spec fn default_permutation(state: Seq<u32>) -> Seq<u32> {
    kb_poseidon2_permutation(
        KOALABEAR_RC16_EXTERNAL_INITIAL@.map_values(|r: [u32; 16]| r@),
        KOALABEAR_RC16_EXTERNAL_FINAL@.map_values(|r: [u32; 16]| r@),
        KOALABEAR_RC16_INTERNAL@,
        state,
    )
}

/// Applies the width-16 KoalaBear Poseidon2 permutation built from the given round
/// constants to `state`.
///
/// Calls `p3_poseidon2::Poseidon2::new` (with `ExternalLayerConstants::new`) to
/// build `p3_koala_bear::Poseidon2KoalaBear<16>` from the constants, then
/// `Permutation::permute_mut` on the state. The contract claims that the result is
/// the named permutation of the constants and the state, of width 16 and canonical.
#[verifier::external_body]
fn kb_poseidon2_permute(
    external_initial: &[[u32; 16]; 4],
    external_final: &[[u32; 16]; 4],
    internal: &[u32; 20],
    state: [u32; 16],
) -> (r: [u32; 16])
    ensures
        r@ == kb_poseidon2_permutation(
            external_initial@.map_values(|row: [u32; 16]| row@),
            external_final@.map_values(|row: [u32; 16]| row@),
            internal@,
            state@,
        ),
        forall|i: int| 0 <= i < 16 ==> is_kb(#[trigger] r@[i]),
{
    let perm = p3_koala_bear::Poseidon2KoalaBear::<16>::new(
        p3_poseidon2::ExternalLayerConstants::new(
            KoalaBear::new_2d_array(*external_initial).to_vec(),
            KoalaBear::new_2d_array(*external_final).to_vec(),
        ),
        KoalaBear::new_array(*internal).to_vec(),
    );
    let mut s = KoalaBear::new_array(state);
    perm.permute_mut(&mut s);
    s.map(|v| v.as_canonical_u32())
}

/// The two-to-one truncated compression of the default permutation: the first
/// `CHUNK` words of the permuted state `left || right`.
pub open spec fn truncated_compress(left: Seq<u32>, right: Seq<u32>) -> Seq<u32> {
    default_permutation(left + right).subrange(0, CHUNK as int)
}

/// Compresses two chunks with the default permutation and keeps the capacity half:
/// the state `left || right` is permuted, and both halves are returned. The first
/// half is the truncated compression of the two chunks.
pub fn poseidon2_compress_with_capacity(left: [u32; 8], right: [u32; 8]) -> (r: ([u32; 8], [u32; 8]))
    ensures
        r.0@ + r.1@ == default_permutation(left@ + right@),
        r.0@ == truncated_compress(left@, right@),
        r.1@ == default_permutation(left@ + right@).subrange(CHUNK as int, WIDTH as int),
        forall|i: int| 0 <= i < 8 ==> is_kb(#[trigger] r.0@[i]) && is_kb(r.1@[i]),
{
    let mut state: [u32; 16] = [0; 16];
    let mut i: usize = 0;
    while i < 8
        invariant
            i <= 8,
            forall|k: int| 0 <= k < i ==> #[trigger] state@[k] == left@[k],
            forall|k: int| 8 <= k < 8 + i ==> #[trigger] state@[k] == right@[k - 8],
        decreases 8 - i,
    {
        state[i] = left[i];
        state[8 + i] = right[i];
        i = i + 1;
    }
    assert(state@ =~= left@ + right@);
    let out = kb_poseidon2_permute(
        &KOALABEAR_RC16_EXTERNAL_INITIAL,
        &KOALABEAR_RC16_EXTERNAL_FINAL,
        &KOALABEAR_RC16_INTERNAL,
        state,
    );
    let mut a: [u32; 8] = [0; 8];
    let mut b: [u32; 8] = [0; 8];
    let mut j: usize = 0;
    while j < 8
        invariant
            j <= 8,
            forall|k: int| 0 <= k < j ==> #[trigger] a@[k] == out@[k],
            forall|k: int| 0 <= k < j ==> #[trigger] b@[k] == out@[k + 8],
        decreases 8 - j,
    {
        a[j] = out[j];
        b[j] = out[8 + j];
        j = j + 1;
    }
    assert(a@ + b@ =~= out@);
    assert(a@ =~= out@.subrange(0, 8));
    assert(b@ =~= out@.subrange(8, 16));
    (a, b)
}

} // verus!
