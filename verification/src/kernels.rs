//! The field-specific kernel families and hash schemes of the GPU prover, with the
//! host-side choices each makes.

use vstd::prelude::*;

verus! {

/// BabyBear kernel family.
#[derive(Debug, Clone, Copy, Default)]
pub struct BabyBearKernels;

/// KoalaBear kernel family.
#[derive(Debug, Clone, Copy, Default)]
pub struct KoalaBearKernels;

impl BabyBearKernels {
    /// The GKR fractional sumcheck runs on the device.
    pub fn use_cpu_gkr() -> (r: bool)
        ensures
            !r,
    {
        false
    }

    /// The GKR input layer is evaluated on the device.
    pub fn use_cpu_gkr_input_eval() -> (r: bool)
        ensures
            !r,
    {
        false
    }

    /// The zerocheck and logup MLE rounds run on the device.
    pub fn use_cpu_zerocheck_mle() -> (r: bool)
        ensures
            !r,
    {
        false
    }
}

impl KoalaBearKernels {
    /// The GKR fractional sumcheck runs on the device (the extension-field inverse
    /// of the KoalaBear kernels is correct).
    pub fn use_cpu_gkr() -> (r: bool)
        ensures
            !r,
    {
        false
    }

    /// The GKR input layer is evaluated on the device.
    pub fn use_cpu_gkr_input_eval() -> (r: bool)
        ensures
            !r,
    {
        false
    }

    /// The zerocheck and logup MLE rounds run on the device.
    pub fn use_cpu_zerocheck_mle() -> (r: bool)
        ensures
            !r,
    {
        false
    }
}

/// Fields with a device NTT.
#[derive(Debug, Clone, Copy, PartialEq, Eq, Structural)]
pub enum NttField {
    BabyBear,
    KoalaBear,
}

/// Whether the CPU fallback is used for operations with known device arithmetic
/// problems in this field: yes for KoalaBear, no for BabyBear.
pub fn ntt_field_use_cpu_gkr(field: NttField) -> (r: bool)
    ensures
        r == (field == NttField::KoalaBear),
{
    match field {
        NttField::BabyBear => false,
        NttField::KoalaBear => true,
    }
}

/// Poseidon2 Merkle hash over BabyBear.
#[derive(Debug, Clone, Copy, Default)]
pub struct Poseidon2MerkleHash;

/// The BabyBear Poseidon2 hash scheme (the default one).
#[derive(Debug, Clone, Copy, Default)]
pub struct BabyBearPoseidon2HashScheme;

/// BN254 Poseidon2 Merkle hash.
#[derive(Debug, Clone, Copy, Default)]
pub struct Bn254Poseidon2MerkleHash;

/// BabyBear and BN254 Poseidon2 hash scheme (Groth16-friendly transcript).
#[derive(Debug, Clone, Copy, Default)]
pub struct BabyBearBn254Poseidon2HashScheme;

/// KoalaBear Poseidon2 Merkle hash.
#[derive(Debug, Clone, Copy, Default)]
pub struct KoalaBearPoseidon2MerkleHash;

/// KoalaBear Poseidon2 hash scheme.
#[derive(Debug, Clone, Copy, Default)]
pub struct KoalaBearPoseidon2HashScheme;

/// Marks the hash schemes whose base field is KoalaBear.
pub trait KoalaBearNativeHash {
}

impl KoalaBearNativeHash for KoalaBearPoseidon2HashScheme {
}

} // verus!
