//! Argument checks made before kernel launches.

use vstd::prelude::*;

verus! {

/// A kernel launch refused before it reached the device (the driver's generic
/// invalid-argument error).
#[derive(Debug, Clone, Copy, PartialEq, Eq, Structural)]
pub enum LaunchError {
    /// An argument is outside what the kernel supports.
    InvalidArgument,
}

/// Largest `l_skip` supported by the small-NTT kernel.
pub const MAX_SMALL_NTT_LEVEL: usize = 10;

/// Size of the device twiddle table of the small NTT (`2^11 - 2`).
pub const DEVICE_NTT_TWIDDLES_SIZE: usize = 2046;

/// Largest grid y-dimension of a kernel launch.
pub const CUDA_GRID_Y_DIM_MAX: u32 = 65535;

/// Below this number of evaluation points, round 0 runs the cosets in parallel.
pub const ROUND0_COSET_PARALLEL_THRESHOLD: u32 = 32768;

/// Largest number of cosets the lockstep round-0 kernel handles.
pub const MAX_LOCKSTEP_NUM_COSETS: u32 = 4;

/// Largest log domain size of the KoalaBear NTT (its two-adicity: `p - 1 = 2^24 * 127`).
pub const MAX_CUDA_KB_NTT_LOG_DOMAIN_SIZE: u32 = 24;

/// Checks the small-NTT domain size. `l_skip == 0` is allowed: the caller then
/// takes the size-1 no-op path without launching the kernel.
pub fn validate_gpu_l_skip(l_skip: usize) -> (r: Result<(), LaunchError>)
    ensures
        r is Err <==> l_skip > MAX_SMALL_NTT_LEVEL,
        r is Err ==> r == Err::<(), LaunchError>(LaunchError::InvalidArgument),
{
    if l_skip > MAX_SMALL_NTT_LEVEL {
        return Err(LaunchError::InvalidArgument);
    }
    Ok(())
}

/// Checks the number of `x` points of an MLE evaluation: it is the grid's y
/// dimension, so it must be positive and at most the grid limit.
pub fn validate_mle_num_x(num_x: u32) -> (r: Result<(), LaunchError>)
    ensures
        r is Err <==> (num_x == 0 || num_x > CUDA_GRID_Y_DIM_MAX),
        r is Err ==> r == Err::<(), LaunchError>(LaunchError::InvalidArgument),
{
    if num_x == 0 || num_x > CUDA_GRID_Y_DIM_MAX {
        return Err(LaunchError::InvalidArgument);
    }
    Ok(())
}

/// Product of two `u32` values, saturating at `u32::MAX`.
pub open spec fn saturating_product(a: u32, b: u32) -> int {
    if a * b > u32::MAX {
        u32::MAX as int
    } else {
        a * b
    }
}

/// True when round 0 evaluates the cosets in parallel: the number of evaluation
/// points `num_x * skip_domain` (saturating) is below the threshold.
pub fn uses_round0_coset_parallel(num_x: u32, skip_domain: u32) -> (r: bool)
    ensures
        r == (saturating_product(num_x, skip_domain) < ROUND0_COSET_PARALLEL_THRESHOLD),
{
    let product = match num_x.checked_mul(skip_domain) {
        Some(p) => p,
        None => u32::MAX,
    };
    product < ROUND0_COSET_PARALLEL_THRESHOLD
}

/// Checks the number of round-0 cosets: more than the lockstep kernel supports is
/// only allowed when round 0 runs the cosets in parallel.
pub fn validate_round0_num_cosets(num_x: u32, skip_domain: u32, num_cosets: u32) -> (r: Result<(), LaunchError>)
    ensures
        r is Err <==> (num_cosets > MAX_LOCKSTEP_NUM_COSETS && saturating_product(num_x, skip_domain)
            >= ROUND0_COSET_PARALLEL_THRESHOLD),
        r is Err ==> r == Err::<(), LaunchError>(LaunchError::InvalidArgument),
{
    if num_cosets > MAX_LOCKSTEP_NUM_COSETS && !uses_round0_coset_parallel(num_x, skip_domain) {
        return Err(LaunchError::InvalidArgument);
    }
    Ok(())
}

/// Checks the log domain size of a KoalaBear mixed-radix NTT step.
pub fn validate_kb_ntt_log_domain(lg_domain_size: u32) -> (r: Result<(), LaunchError>)
    ensures
        r is Err <==> lg_domain_size > MAX_CUDA_KB_NTT_LOG_DOMAIN_SIZE,
        r is Err ==> r == Err::<(), LaunchError>(LaunchError::InvalidArgument),
{
    if lg_domain_size > MAX_CUDA_KB_NTT_LOG_DOMAIN_SIZE {
        return Err(LaunchError::InvalidArgument);
    }
    Ok(())
}

} // verus!
