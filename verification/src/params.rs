//! Production system parameters targeting 100 bits of proven round-by-round security.

use vstd::prelude::*;

verus! {

/// Largest log final polynomial length of WHIR.
pub const WHIR_MAX_LOG_FINAL_POLY_LEN: usize = 10;
/// Security target in bits.
pub const SECURITY_BITS_TARGET: usize = 100;
/// Default `l_skip` of app circuits.
pub const DEFAULT_APP_L_SKIP: usize = 4;
/// Default log blowup of app circuits.
pub const DEFAULT_APP_LOG_BLOWUP: usize = 1;
/// Default log blowup of leaf aggregation circuits.
pub const DEFAULT_LEAF_LOG_BLOWUP: usize = 2;
/// Default log blowup of internal aggregation circuits.
pub const DEFAULT_INTERNAL_LOG_BLOWUP: usize = 3;
/// Default log blowup of root circuits.
pub const DEFAULT_ROOT_LOG_BLOWUP: usize = 4;
/// Default log blowup of the compress layer (above the app's, to need fewer WHIR queries).
pub const DEFAULT_COMPRESS_LOG_BLOWUP: usize = 2;
/// Largest log stacked height of app circuits for which the security analysis holds.
pub const MAX_APP_LOG_STACKED_HEIGHT: usize = 24;

/// Proximity regime of WHIR.
#[derive(Debug, Clone, Copy, PartialEq, Eq, Structural)]
pub enum WhirProximityStrategy {
    /// Unique decoding radius.
    UniqueDecoding,
    /// List decoding with multiplicity `m`.
    ListDecoding { m: usize },
}

/// Which preset of logup security parameters a configuration uses.
#[derive(Debug, Clone, Copy, PartialEq, Eq, Structural)]
pub enum LogUpSecurity {
    /// 100-bit logup parameters for the BabyBear field.
    BabyBear100Bits,
    /// 100-bit logup parameters for the KoalaBear field.
    KoalaBear100Bits,
}

/// The system parameters of a proving configuration.
#[derive(Debug, Clone, Copy, PartialEq, Eq, Structural)]
pub struct SystemParams {
    pub log_blowup: usize,
    pub l_skip: usize,
    pub n_stack: usize,
    pub w_stack: usize,
    pub log_final_poly_len: usize,
    pub folding_pow_bits: usize,
    pub mu_pow_bits: usize,
    pub proximity: WhirProximityStrategy,
    pub security_bits: usize,
    pub logup: LogUpSecurity,
}

/// Parameters of the app (and KoalaBear app, with `logup`) layer: `n_stack` is the
/// log stacked height minus `l_skip` (saturating at zero).
pub open spec fn app_like_params(log_blowup: usize, log_stacked_height: usize, logup: LogUpSecurity) -> SystemParams {
    SystemParams {
        log_blowup,
        l_skip: DEFAULT_APP_L_SKIP,
        n_stack: if log_stacked_height >= DEFAULT_APP_L_SKIP { (log_stacked_height - DEFAULT_APP_L_SKIP) as usize } else { 0 },
        w_stack: 2048,
        log_final_poly_len: WHIR_MAX_LOG_FINAL_POLY_LEN,
        folding_pow_bits: 5,
        mu_pow_bits: 15,
        proximity: WhirProximityStrategy::UniqueDecoding,
        security_bits: SECURITY_BITS_TARGET,
        logup,
    }
}

fn app_like(log_blowup: usize, log_stacked_height: usize, logup: LogUpSecurity) -> (r: SystemParams)
    ensures
        r == app_like_params(log_blowup, log_stacked_height, logup),
{
    SystemParams {
        log_blowup,
        l_skip: DEFAULT_APP_L_SKIP,
        n_stack: log_stacked_height.saturating_sub(DEFAULT_APP_L_SKIP),
        w_stack: 2048,
        log_final_poly_len: WHIR_MAX_LOG_FINAL_POLY_LEN,
        folding_pow_bits: 5,
        mu_pow_bits: 15,
        proximity: WhirProximityStrategy::UniqueDecoding,
        security_bits: SECURITY_BITS_TARGET,
        logup,
    }
}

/// Parameters of the leaf aggregation layer: `l_skip = 4`, `n_stack = 17`, `log_blowup = 2`.
pub open spec fn leaf_like_params(logup: LogUpSecurity) -> SystemParams {
    SystemParams {
        log_blowup: DEFAULT_LEAF_LOG_BLOWUP,
        l_skip: 4,
        n_stack: 17,
        w_stack: 2048,
        log_final_poly_len: WHIR_MAX_LOG_FINAL_POLY_LEN,
        folding_pow_bits: 4,
        mu_pow_bits: 13,
        proximity: WhirProximityStrategy::UniqueDecoding,
        security_bits: SECURITY_BITS_TARGET,
        logup,
    }
}

/// Parameters of the internal aggregation layer: `l_skip = 2`, `n_stack = 17`,
/// `log_blowup = 3`, list decoding.
pub open spec fn internal_like_params(logup: LogUpSecurity) -> SystemParams {
    SystemParams {
        log_blowup: DEFAULT_INTERNAL_LOG_BLOWUP,
        l_skip: 2,
        n_stack: 17,
        w_stack: 512,
        log_final_poly_len: WHIR_MAX_LOG_FINAL_POLY_LEN,
        folding_pow_bits: 18,
        mu_pow_bits: 20,
        proximity: WhirProximityStrategy::ListDecoding { m: 2 },
        security_bits: SECURITY_BITS_TARGET,
        logup,
    }
}

/// Parameters of the root layer: `l_skip = 2`, `n_stack = 19`, `log_blowup = 4`,
/// list decoding.
pub open spec fn root_like_params(logup: LogUpSecurity) -> SystemParams {
    SystemParams {
        log_blowup: DEFAULT_ROOT_LOG_BLOWUP,
        l_skip: 2,
        n_stack: 19,
        w_stack: 9,
        log_final_poly_len: WHIR_MAX_LOG_FINAL_POLY_LEN,
        folding_pow_bits: 20,
        mu_pow_bits: 20,
        proximity: WhirProximityStrategy::ListDecoding { m: 2 },
        security_bits: SECURITY_BITS_TARGET,
        logup,
    }
}

/// App VM parameters (BabyBear) for a log stacked height of at most 24.
pub fn app_params_with_100_bits_security(log_stacked_height: usize) -> (r: SystemParams)
    requires
        log_stacked_height <= MAX_APP_LOG_STACKED_HEIGHT,
    ensures
        r == app_like_params(DEFAULT_APP_LOG_BLOWUP, log_stacked_height, LogUpSecurity::BabyBear100Bits),
        r.log_blowup == 1,
        r.l_skip == 4,
        r.n_stack == (if log_stacked_height >= 4 { log_stacked_height - 4 } else { 0 }),
        r.w_stack == 2048,
        r.log_final_poly_len == 10,
        r.folding_pow_bits == 5,
        r.mu_pow_bits == 15,
        r.proximity == WhirProximityStrategy::UniqueDecoding,
        r.security_bits == 100,
        r.logup == LogUpSecurity::BabyBear100Bits,
{
    app_like(DEFAULT_APP_LOG_BLOWUP, log_stacked_height, LogUpSecurity::BabyBear100Bits)
}

/// Compress layer parameters (BabyBear): as the app's, with `log_blowup = 2`.
pub fn compress_params_with_100_bits_security(log_stacked_height: usize) -> (r: SystemParams)
    ensures
        r == app_like_params(DEFAULT_COMPRESS_LOG_BLOWUP, log_stacked_height, LogUpSecurity::BabyBear100Bits),
        r.log_blowup == 2,
        r.l_skip == 4,
        r.n_stack == (if log_stacked_height >= 4 { log_stacked_height - 4 } else { 0 }),
        r.w_stack == 2048,
        r.log_final_poly_len == 10,
        r.folding_pow_bits == 5,
        r.mu_pow_bits == 15,
        r.proximity == WhirProximityStrategy::UniqueDecoding,
        r.security_bits == 100,
        r.logup == LogUpSecurity::BabyBear100Bits,
{
    app_like(DEFAULT_COMPRESS_LOG_BLOWUP, log_stacked_height, LogUpSecurity::BabyBear100Bits)
}

/// Leaf aggregation parameters (BabyBear).
pub fn leaf_params_with_100_bits_security() -> (r: SystemParams)
    ensures
        r == leaf_like_params(LogUpSecurity::BabyBear100Bits),
        r.log_blowup == 2,
        r.l_skip == 4,
        r.n_stack == 17,
        r.w_stack == 2048,
        r.log_final_poly_len == 10,
        r.folding_pow_bits == 4,
        r.mu_pow_bits == 13,
        r.proximity == WhirProximityStrategy::UniqueDecoding,
        r.security_bits == 100,
        r.logup == LogUpSecurity::BabyBear100Bits,
{
    SystemParams {
        log_blowup: DEFAULT_LEAF_LOG_BLOWUP,
        l_skip: 4,
        n_stack: 17,
        w_stack: 2048,
        log_final_poly_len: WHIR_MAX_LOG_FINAL_POLY_LEN,
        folding_pow_bits: 4,
        mu_pow_bits: 13,
        proximity: WhirProximityStrategy::UniqueDecoding,
        security_bits: SECURITY_BITS_TARGET,
        logup: LogUpSecurity::BabyBear100Bits,
    }
}

/// Internal aggregation parameters (BabyBear).
pub fn internal_params_with_100_bits_security() -> (r: SystemParams)
    ensures
        r == internal_like_params(LogUpSecurity::BabyBear100Bits),
        r.log_blowup == 3,
        r.l_skip == 2,
        r.n_stack == 17,
        r.w_stack == 512,
        r.log_final_poly_len == 10,
        r.folding_pow_bits == 18,
        r.mu_pow_bits == 20,
        r.proximity == (WhirProximityStrategy::ListDecoding { m: 2 }),
        r.security_bits == 100,
        r.logup == LogUpSecurity::BabyBear100Bits,
{
    SystemParams {
        log_blowup: DEFAULT_INTERNAL_LOG_BLOWUP,
        l_skip: 2,
        n_stack: 17,
        w_stack: 512,
        log_final_poly_len: WHIR_MAX_LOG_FINAL_POLY_LEN,
        folding_pow_bits: 18,
        mu_pow_bits: 20,
        proximity: WhirProximityStrategy::ListDecoding { m: 2 },
        security_bits: SECURITY_BITS_TARGET,
        logup: LogUpSecurity::BabyBear100Bits,
    }
}

/// Root parameters (BabyBear).
pub fn root_params_with_100_bits_security() -> (r: SystemParams)
    ensures
        r == root_like_params(LogUpSecurity::BabyBear100Bits),
        r.log_blowup == 4,
        r.l_skip == 2,
        r.n_stack == 19,
        r.w_stack == 9,
        r.log_final_poly_len == 10,
        r.folding_pow_bits == 20,
        r.mu_pow_bits == 20,
        r.proximity == (WhirProximityStrategy::ListDecoding { m: 2 }),
        r.security_bits == 100,
        r.logup == LogUpSecurity::BabyBear100Bits,
{
    SystemParams {
        log_blowup: DEFAULT_ROOT_LOG_BLOWUP,
        l_skip: 2,
        n_stack: 19,
        w_stack: 9,
        log_final_poly_len: WHIR_MAX_LOG_FINAL_POLY_LEN,
        folding_pow_bits: 20,
        mu_pow_bits: 20,
        proximity: WhirProximityStrategy::ListDecoding { m: 2 },
        security_bits: SECURITY_BITS_TARGET,
        logup: LogUpSecurity::BabyBear100Bits,
    }
}

/// App VM parameters (KoalaBear) for a log stacked height of at most 24.
pub fn kb_app_params_with_100_bits_security(log_stacked_height: usize) -> (r: SystemParams)
    requires
        log_stacked_height <= MAX_APP_LOG_STACKED_HEIGHT,
    ensures
        r == app_like_params(DEFAULT_APP_LOG_BLOWUP, log_stacked_height, LogUpSecurity::KoalaBear100Bits),
        r.log_blowup == 1,
        r.l_skip == 4,
        r.n_stack == (if log_stacked_height >= 4 { log_stacked_height - 4 } else { 0 }),
        r.w_stack == 2048,
        r.log_final_poly_len == 10,
        r.folding_pow_bits == 5,
        r.mu_pow_bits == 15,
        r.proximity == WhirProximityStrategy::UniqueDecoding,
        r.security_bits == 100,
        r.logup == LogUpSecurity::KoalaBear100Bits,
{
    app_like(DEFAULT_APP_LOG_BLOWUP, log_stacked_height, LogUpSecurity::KoalaBear100Bits)
}

/// Compress layer parameters (KoalaBear).
pub fn kb_compress_params_with_100_bits_security(log_stacked_height: usize) -> (r: SystemParams)
    ensures
        r == app_like_params(DEFAULT_COMPRESS_LOG_BLOWUP, log_stacked_height, LogUpSecurity::KoalaBear100Bits),
        r.log_blowup == 2,
        r.l_skip == 4,
        r.n_stack == (if log_stacked_height >= 4 { log_stacked_height - 4 } else { 0 }),
        r.w_stack == 2048,
        r.log_final_poly_len == 10,
        r.folding_pow_bits == 5,
        r.mu_pow_bits == 15,
        r.proximity == WhirProximityStrategy::UniqueDecoding,
        r.security_bits == 100,
        r.logup == LogUpSecurity::KoalaBear100Bits,
{
    app_like(DEFAULT_COMPRESS_LOG_BLOWUP, log_stacked_height, LogUpSecurity::KoalaBear100Bits)
}

/// Leaf aggregation parameters (KoalaBear).
pub fn kb_leaf_params_with_100_bits_security() -> (r: SystemParams)
    ensures
        r == leaf_like_params(LogUpSecurity::KoalaBear100Bits),
        r.log_blowup == 2,
        r.l_skip == 4,
        r.n_stack == 17,
        r.w_stack == 2048,
        r.log_final_poly_len == 10,
        r.folding_pow_bits == 4,
        r.mu_pow_bits == 13,
        r.proximity == WhirProximityStrategy::UniqueDecoding,
        r.security_bits == 100,
        r.logup == LogUpSecurity::KoalaBear100Bits,
{
    let mut p = leaf_params_with_100_bits_security();
    p.logup = LogUpSecurity::KoalaBear100Bits;
    p
}

/// Internal aggregation parameters (KoalaBear).
pub fn kb_internal_params_with_100_bits_security() -> (r: SystemParams)
    ensures
        r == internal_like_params(LogUpSecurity::KoalaBear100Bits),
        r.log_blowup == 3,
        r.l_skip == 2,
        r.n_stack == 17,
        r.w_stack == 512,
        r.log_final_poly_len == 10,
        r.folding_pow_bits == 18,
        r.mu_pow_bits == 20,
        r.proximity == (WhirProximityStrategy::ListDecoding { m: 2 }),
        r.security_bits == 100,
        r.logup == LogUpSecurity::KoalaBear100Bits,
{
    let mut p = internal_params_with_100_bits_security();
    p.logup = LogUpSecurity::KoalaBear100Bits;
    p
}

/// Root parameters (KoalaBear).
pub fn kb_root_params_with_100_bits_security() -> (r: SystemParams)
    ensures
        r == root_like_params(LogUpSecurity::KoalaBear100Bits),
        r.log_blowup == 4,
        r.l_skip == 2,
        r.n_stack == 19,
        r.w_stack == 9,
        r.log_final_poly_len == 10,
        r.folding_pow_bits == 20,
        r.mu_pow_bits == 20,
        r.proximity == (WhirProximityStrategy::ListDecoding { m: 2 }),
        r.security_bits == 100,
        r.logup == LogUpSecurity::KoalaBear100Bits,
{
    let mut p = root_params_with_100_bits_security();
    p.logup = LogUpSecurity::KoalaBear100Bits;
    p
}

/// Law of the parameter sets: each KoalaBear set differs from the BabyBear set of
/// the same layer only in the logup preset.
pub proof fn lemma_kb_params_match_bb(log_stacked_height: usize)
    ensures
        ({
            let bb = app_like_params(DEFAULT_APP_LOG_BLOWUP, log_stacked_height, LogUpSecurity::BabyBear100Bits);
            let kb = app_like_params(DEFAULT_APP_LOG_BLOWUP, log_stacked_height, LogUpSecurity::KoalaBear100Bits);
            kb == (SystemParams { logup: LogUpSecurity::KoalaBear100Bits, ..bb })
        }),
        leaf_like_params(LogUpSecurity::KoalaBear100Bits) == (SystemParams {
            logup: LogUpSecurity::KoalaBear100Bits,
            ..leaf_like_params(LogUpSecurity::BabyBear100Bits)
        }),
        internal_like_params(LogUpSecurity::KoalaBear100Bits) == (SystemParams {
            logup: LogUpSecurity::KoalaBear100Bits,
            ..internal_like_params(LogUpSecurity::BabyBear100Bits)
        }),
        root_like_params(LogUpSecurity::KoalaBear100Bits) == (SystemParams {
            logup: LogUpSecurity::KoalaBear100Bits,
            ..root_like_params(LogUpSecurity::BabyBear100Bits)
        }),
{
}


/// Law of the production parameter sets: each layer has the documented
/// configuration (app and compress: `l_skip = 4` and `n_stack` the log stacked
/// height minus 4; leaf: `l_skip = 4, n_stack = 17, log_blowup = 2`; internal:
/// `l_skip = 2, n_stack = 17, log_blowup = 3`; root: `l_skip = 2, n_stack = 19,
/// log_blowup = 4, w_stack = 9`), with the security target of 100 bits, whatever the
/// field's logup preset.
pub proof fn lemma_documented_configs(logup: LogUpSecurity, log_stacked_height: usize)
    ensures
        app_like_params(1, log_stacked_height, logup).l_skip == 4,
        app_like_params(1, log_stacked_height, logup).n_stack + 4 == if log_stacked_height >= 4 {
            log_stacked_height as int
        } else {
            4
        },
        app_like_params(1, log_stacked_height, logup).w_stack == 2048,
        leaf_like_params(logup).l_skip == 4,
        leaf_like_params(logup).n_stack == 17,
        leaf_like_params(logup).log_blowup == 2,
        leaf_like_params(logup).w_stack == 2048,
        internal_like_params(logup).l_skip == 2,
        internal_like_params(logup).n_stack == 17,
        internal_like_params(logup).log_blowup == 3,
        internal_like_params(logup).w_stack == 512,
        root_like_params(logup).l_skip == 2,
        root_like_params(logup).n_stack == 19,
        root_like_params(logup).log_blowup == 4,
        root_like_params(logup).w_stack == 9,
        root_like_params(logup).security_bits == 100,
        leaf_like_params(logup).security_bits == 100,
        internal_like_params(logup).security_bits == 100,
        app_like_params(1, log_stacked_height, logup).security_bits == 100,
{
}

} // verus!
