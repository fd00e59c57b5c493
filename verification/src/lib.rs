//! Host-side decision logic of a GPU STARK prover backend over the KoalaBear and
//! BabyBear fields: GKR fractional-sumcheck buffer scheduling and round strategy
//! selection, the GKR prover's protocol as a state machine, the launch shape and
//! interaction layout of the GKR input evaluation, kernel launch argument
//! checks, NTT launch planning, the opening point, grinding search,
//! production parameter sets, and the KoalaBear field arithmetic used by the
//! host-side sumcheck bookkeeping.

pub mod gkr_schedule;
pub mod launch_checks;
pub mod kb_field;
pub mod ntt_plan;
pub mod gkr_math;
pub mod gkr_input;
pub mod gkr_prover;
pub mod opening;
pub mod round0;
pub mod grind;
pub mod params;
pub mod env_config;
pub mod kernels;
pub mod stark_config;
