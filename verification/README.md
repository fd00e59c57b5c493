# cuda_backend

Host-side logic of a GPU STARK prover backend over the KoalaBear field, with
machine-checked contracts.

- `src/` is the verified library:
  - `gkr_schedule`: ping-pong buffer scheduling, the fold-eval / precompute-M round
    strategy, the precompute-M window plan, the segment-tree build plan and the
    work-buffer size of the GKR fractional sumcheck;
  - `gkr_math`: fractions, eq polynomials, interpolation and the per-round claims of
    the GKR sumcheck over the quartic extension;
  - `gkr_input`: the launch shape of the GKR input evaluation and the interaction
    slices of each trace in the stacked layout;
  - `gkr_prover`: the GKR fractional-sumcheck prover as a state machine from
    device results and sampled challenges to transcript observations and the next
    device step;
  - `opening`: the opening point built from the reduced point;
  - `kb_field`: KoalaBear and its quartic extension on canonical `u32` values;
  - `ntt_plan`: launch plans of the mixed-radix NTT and the host small-domain NTT;
  - `round0`: selector columns, interaction weights, the zerofier product and the
    lifting normalisation of the round-0 sumcheck;
  - `grind`: the host loop of proof-of-work grinding as a state machine;
  - `launch_checks`, `kernels`, `params`, `env_config`, `stark_config`: launch
    argument checks, kernel-family flags, production parameter sets, the tuning
    variables and the Poseidon2 configuration.
- `tests/` exercises the library against Plonky3 and the STARK backend.
- `app/` holds what the library leaves to its callers: the environment, the loops
  that run the GKR prover and the grinding search against a device and a
  transcript, the host GKR prover path and the round-0 fallbacks built on the
  backend's symbolic evaluation.
