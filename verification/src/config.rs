//! Parameters of a run.

use vstd::prelude::*;

verus! {

/// One whole, in the fixed-point unit that fractional parameters use: a value
/// `x` stands for `x / SCALE`. A duration in this unit is in microseconds.
pub const SCALE: u64 = 1_000_000;

/// General parameters that control timeouts and retries.
#[derive(Clone, Copy, Debug, PartialEq, Eq)]
pub struct RequestConfig {
    /// The timeout is this multiple of the expected transfer time, in
    /// millionths (more than `SCALE`).
    pub timeout_fraction: u64,
    /// Every retry, the timeout is multiplied by this factor, in millionths
    /// (more than `SCALE`).
    pub backoff: u64,
    /// Number of times to retry a single request before giving up: a request
    /// is attempted once more than this.
    pub n_retries: usize,
    /// Initial estimate of the transfer speed, in millionths of a byte per
    /// second.
    pub expected_upload_speed: u64,
    /// Weight of a new sample in the exponential average of the speed, in
    /// millionths (at most `SCALE`):
    /// `new_avg_speed = avg_power * new_speed + (1 - avg_power) * avg_speed`.
    pub avg_power: u64,
    /// Only requests of at least this many bytes are used to estimate the
    /// speed.
    pub avg_min_bytes: u64,
    /// The minimum timeout in microseconds, always added as an extra term to
    /// the total timeout.
    pub min_timeout: u64,
}

/// Parameters of a bulk operation.
#[derive(Clone, Copy, Debug, PartialEq, Eq)]
pub struct Config {
    /// Maximum number of simultaneous copy requests.
    pub copy_parallelization: usize,
    pub request: RequestConfig,
}

impl RequestConfig {
    /// The ranges that the parameters are meant to lie in. The number of
    /// attempts at a request, one more than `n_retries`, has to fit the
    /// machine's word.
    pub open spec fn valid(&self) -> bool {
        &&& self.timeout_fraction > SCALE
        &&& self.backoff > SCALE
        &&& self.n_retries < usize::MAX
        &&& self.avg_power <= SCALE
        &&& self.expected_upload_speed > 0
    }

    /// Tests whether the parameters lie in their ranges.
    pub fn is_valid(&self) -> (ok: bool)
        ensures
            ok == self.valid(),
    {
        self.timeout_fraction > SCALE && self.backoff > SCALE && self.n_retries < usize::MAX
            && self.avg_power <= SCALE && self.expected_upload_speed > 0
    }
}

impl Default for RequestConfig {
    fn default() -> (cfg: Self)
        ensures
            cfg == (RequestConfig {
                timeout_fraction: 1_500_000,
                backoff: 1_500_000,
                n_retries: 8,
                expected_upload_speed: 1_000_000,
                avg_power: 700_000,
                avg_min_bytes: 1_000_000,
                min_timeout: 500_000,
            }),
            cfg.valid(),
    {
        RequestConfig {
            timeout_fraction: 1_500_000,
            backoff: 1_500_000,
            n_retries: 8,
            expected_upload_speed: 1_000_000,
            avg_power: 700_000,
            avg_min_bytes: 1_000_000,
            min_timeout: 500_000,
        }
    }
}

impl Default for Config {
    fn default() -> (cfg: Self)
        ensures
            cfg.copy_parallelization == 20,
            cfg.request == (RequestConfig {
                timeout_fraction: 1_500_000,
                backoff: 1_500_000,
                n_retries: 8,
                expected_upload_speed: 1_000_000,
                avg_power: 700_000,
                avg_min_bytes: 1_000_000,
                min_timeout: 500_000,
            }),
    {
        Config { copy_parallelization: 20, request: RequestConfig::default() }
    }
}

} // verus!
