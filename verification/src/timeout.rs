//! The speed estimator and the timeout policy.
//!
//! The estimator keeps a running estimate of the achievable transfer speed,
//! an exponential moving average over the requests that completed. The policy
//! turns that estimate and a request's size into a timeout, and grows the
//! timeout from one attempt to the next.
//!
//! All arithmetic is fixed-point in millionths (see [`SCALE`]): a quotient is
//! rounded down, and a value that does not fit in 64 bits is replaced by the
//! largest that does.

use crate::config::{RequestConfig, SCALE};
use vstd::prelude::*;

verus! {

/// `x`, or the largest 64-bit value where `x` exceeds it.
pub open spec fn saturated(x: int) -> int {
    if x > u64::MAX {
        u64::MAX as int
    } else {
        x
    }
}

/// The speed at which `size` bytes went through in `elapsed` microseconds, in
/// millionths of a byte per second: `size / elapsed`. A transfer that took no
/// measurable time counts as the largest speed.
pub open spec fn observed_speed(size: u64, elapsed: u64) -> int {
    if elapsed == 0 {
        u64::MAX as int
    } else {
        saturated(size * SCALE * SCALE / (elapsed as int))
    }
}

/// The exponential moving average
/// `avg_power * sample + (1 - avg_power) * estimate`, kept positive.
pub open spec fn blended(avg_power: u64, sample: int, estimate: int) -> int {
    let average = (avg_power * sample + (SCALE - avg_power) * estimate) / (SCALE as int);
    if average < 1 {
        1
    } else {
        average
    }
}

/// The estimate after a request of `size` bytes completed in `elapsed`
/// microseconds: the moving average where the request is large enough to
/// count, else the estimate unchanged.
pub open spec fn updated_estimate(
    cfg: RequestConfig,
    estimate: u64,
    size: u64,
    elapsed: u64,
) -> int {
    if size >= cfg.avg_min_bytes {
        blended(cfg.avg_power, observed_speed(size, elapsed), estimate as int)
    } else {
        estimate as int
    }
}

/// The part of the first attempt's timeout that depends on the size, in
/// microseconds: `timeout_fraction * size / estimate`.
pub open spec fn size_timeout(cfg: RequestConfig, estimate: u64, size: u64) -> int {
    saturated(cfg.timeout_fraction * size * SCALE / (estimate as int))
}

/// `t` multiplied `attempt` times by `backoff`.
pub open spec fn backed_off(t: int, backoff: u64, attempt: nat) -> int
    decreases attempt,
{
    if attempt == 0 {
        t
    } else {
        saturated(backed_off(t, backoff, (attempt - 1) as nat) * backoff / (SCALE as int))
    }
}

/// The timeout in microseconds of attempt number `attempt` (from 0) at a
/// request of `size` bytes:
/// `min_timeout + backoff^attempt * timeout_fraction * size / estimate`.
pub open spec fn timeout(cfg: RequestConfig, estimate: u64, size: u64, attempt: nat) -> int {
    saturated(
        cfg.min_timeout + backed_off(size_timeout(cfg, estimate, size), cfg.backoff, attempt),
    )
}

/// The moving average is the exact weighted average of sample and estimate,
/// rounded down to a millionth, unless that is less than one millionth.
pub proof fn lemma_blended_rounds_down(avg_power: u64, sample: int, estimate: int)
    requires
        avg_power <= SCALE,
        sample >= 0,
        estimate >= 0,
    ensures
        ({
            let exact = avg_power * sample + (SCALE - avg_power) * estimate;
            let average = blended(avg_power, sample, estimate);
            &&& average >= 1
            &&& exact >= SCALE ==> average * SCALE <= exact < (average + 1) * SCALE
        }),
{
    let exact = avg_power * sample + (SCALE - avg_power) * estimate;
    assert(exact >= 0) by (nonlinear_arith)
        requires
            exact == avg_power * sample + (SCALE - avg_power) * estimate,
            0 <= avg_power <= SCALE,
            sample >= 0,
            estimate >= 0,
    ;
    assert(exact >= SCALE ==> exact / (SCALE as int) >= 1 && (exact / (SCALE as int)) * SCALE
        <= exact < (exact / (SCALE as int) + 1) * SCALE) by (nonlinear_arith)
        requires
            exact >= 0,
            SCALE == 1_000_000,
    ;
}

/// The moving average lies between the sample and the estimate.
pub proof fn lemma_blended_between(avg_power: u64, sample: int, estimate: int)
    requires
        avg_power <= SCALE,
        sample >= 0,
        estimate >= 1,
    ensures
        sample <= estimate ==> sample <= blended(avg_power, sample, estimate) <= estimate,
        estimate <= sample ==> estimate <= blended(avg_power, sample, estimate) <= sample,
{
    let exact = avg_power * sample + (SCALE - avg_power) * estimate;
    assert(sample <= estimate ==> sample * SCALE <= exact <= estimate * SCALE) by (nonlinear_arith)
        requires
            exact == avg_power * sample + (SCALE - avg_power) * estimate,
            0 <= avg_power <= SCALE,
    ;
    assert(estimate <= sample ==> estimate * SCALE <= exact <= sample * SCALE) by (nonlinear_arith)
        requires
            exact == avg_power * sample + (SCALE - avg_power) * estimate,
            0 <= avg_power <= SCALE,
    ;
    let average = exact / (SCALE as int);
    assert(sample * SCALE <= exact ==> sample <= average) by (nonlinear_arith)
        requires
            average == exact / (SCALE as int),
            SCALE == 1_000_000,
    ;
    assert(estimate * SCALE <= exact ==> estimate <= average) by (nonlinear_arith)
        requires
            average == exact / (SCALE as int),
            SCALE == 1_000_000,
    ;
    assert(exact <= sample * SCALE ==> average <= sample) by (nonlinear_arith)
        requires
            average == exact / (SCALE as int),
            SCALE == 1_000_000,
    ;
    assert(exact <= estimate * SCALE ==> average <= estimate) by (nonlinear_arith)
        requires
            average == exact / (SCALE as int),
            SCALE == 1_000_000,
    ;
}

/// A timeout that has been backed off fits in 64 bits if it did at first.
pub proof fn lemma_backed_off_bounds(t: int, backoff: u64, attempt: nat)
    requires
        0 <= t <= u64::MAX,
    ensures
        0 <= backed_off(t, backoff, attempt) <= u64::MAX,
    decreases attempt,
{
    if attempt > 0 {
        lemma_backed_off_bounds(t, backoff, (attempt - 1) as nat);
        let prev = backed_off(t, backoff, (attempt - 1) as nat);
        assert(prev * backoff / (SCALE as int) >= 0) by (nonlinear_arith)
            requires
                prev >= 0,
                backoff >= 0,
                SCALE > 0,
        ;
    }
}

/// Backing off `j` more times after `i` times is backing off `i + j` times.
proof fn lemma_backed_off_split(t: int, backoff: u64, i: nat, j: nat)
    ensures
        backed_off(backed_off(t, backoff, i), backoff, j) == backed_off(t, backoff, i + j),
    decreases j,
{
    if j > 0 {
        lemma_backed_off_split(t, backoff, i, (j - 1) as nat);
    }
}

/// A timeout that one more retry leaves as it is stays so under any number.
proof fn lemma_backed_off_fixed(t: int, backoff: u64, attempt: nat)
    requires
        saturated(t * backoff / (SCALE as int)) == t,
    ensures
        backed_off(t, backoff, attempt) == t,
    decreases attempt,
{
    if attempt > 0 {
        lemma_backed_off_fixed(t, backoff, (attempt - 1) as nat);
    }
}

/// One more retry does not shorten the size-dependent part of the timeout.
proof fn lemma_backed_off_step(t: int, backoff: u64, attempt: nat)
    requires
        0 <= t <= u64::MAX,
        backoff >= SCALE,
    ensures
        backed_off(t, backoff, attempt) <= backed_off(t, backoff, attempt + 1),
{
    lemma_backed_off_bounds(t, backoff, attempt);
    let prev = backed_off(t, backoff, attempt);
    assert(prev * backoff / (SCALE as int) >= prev) by (nonlinear_arith)
        requires
            prev >= 0,
            backoff >= SCALE,
            SCALE > 0,
    ;
}

/// With a backoff of at least one, the timeout does not shrink from one
/// attempt to a later one, whatever the size and the speed estimate.
pub proof fn lemma_timeout_monotonic(
    cfg: RequestConfig,
    estimate: u64,
    size: u64,
    earlier: nat,
    later: nat,
)
    requires
        cfg.backoff >= SCALE,
        estimate > 0,
        earlier <= later,
    ensures
        timeout(cfg, estimate, size, earlier) <= timeout(cfg, estimate, size, later),
    decreases later - earlier,
{
    if earlier < later {
        lemma_timeout_monotonic(cfg, estimate, size, earlier, (later - 1) as nat);
        let product = cfg.timeout_fraction * size * SCALE;
        assert(product / (estimate as int) >= 0) by (nonlinear_arith)
            requires
                product == cfg.timeout_fraction * size * SCALE,
                cfg.timeout_fraction >= 0,
                size >= 0,
                SCALE > 0,
                estimate > 0,
        ;
        lemma_backed_off_step(size_timeout(cfg, estimate, size), cfg.backoff, (later - 1) as nat);
    }
}

/// The speed estimate of one run, with the parameters it was made with.
#[derive(Clone, Copy, Debug, PartialEq, Eq)]
pub struct TimeoutState {
    upload_speed: u64,
    cfg: RequestConfig,
}

/// The quotient `numerator / denominator`, saturated.
fn saturating_quotient(numerator: u128, denominator: u64) -> (q: u64)
    requires
        denominator > 0,
    ensures
        q == saturated((numerator as int) / (denominator as int)),
{
    let wide: u128 = numerator / (denominator as u128);
    if wide > u64::MAX as u128 {
        u64::MAX
    } else {
        wide as u64
    }
}

/// Computes [`observed_speed`].
fn speed_of(size: u64, elapsed: u64) -> (speed: u64)
    ensures
        speed == observed_speed(size, elapsed),
{
    if elapsed == 0 {
        u64::MAX
    } else {
        assert(size * SCALE * SCALE == size * 1_000_000_000_000) by (nonlinear_arith)
            requires
                SCALE == 1_000_000,
        ;
        let bytes: u128 = (size as u128) * 1_000_000_000_000;
        saturating_quotient(bytes, elapsed)
    }
}

/// Computes [`blended`].
fn blend(avg_power: u64, sample: u64, estimate: u64) -> (average: u64)
    requires
        avg_power <= SCALE,
    ensures
        average == blended(avg_power, sample as int, estimate as int),
        average > 0,
{
    let rest: u64 = SCALE - avg_power;
    proof {
        assert(avg_power * sample + rest * estimate <= SCALE * u64::MAX) by (nonlinear_arith)
            requires
                0 <= avg_power <= SCALE,
                rest == SCALE - avg_power,
                0 <= sample <= u64::MAX,
                0 <= estimate <= u64::MAX,
        ;
        assert(avg_power * sample >= 0 && rest * estimate >= 0) by (nonlinear_arith)
            requires
                avg_power >= 0,
                sample >= 0,
                rest >= 0,
                estimate >= 0,
        ;
    }
    let weighted: u128 = (avg_power as u128) * (sample as u128) + (rest as u128) * (
    estimate as u128);
    let average: u128 = weighted / (SCALE as u128);
    if average < 1 {
        1
    } else {
        average as u64
    }
}

/// Computes [`size_timeout`].
fn size_term(cfg: &RequestConfig, estimate: u64, size: u64) -> (t: u64)
    requires
        estimate > 0,
    ensures
        t == size_timeout(*cfg, estimate, size),
{
    proof {
        assert(cfg.timeout_fraction * size <= u64::MAX * u64::MAX) by (nonlinear_arith)
            requires
                0 <= cfg.timeout_fraction <= u64::MAX,
                0 <= size <= u64::MAX,
        ;
        assert(cfg.timeout_fraction * size >= 0) by (nonlinear_arith)
            requires
                cfg.timeout_fraction >= 0,
                size >= 0,
        ;
    }
    let bytes: u128 = (cfg.timeout_fraction as u128) * (size as u128);
    match bytes.checked_mul(SCALE as u128) {
        Some(scaled) => saturating_quotient(scaled, estimate),
        None => {
            proof {
                let product = cfg.timeout_fraction * size * SCALE;
                assert(product / (estimate as int) > u64::MAX) by (nonlinear_arith)
                    requires
                        product > u128::MAX,
                        0 < estimate <= u64::MAX,
                ;
            }
            u64::MAX
        },
    }
}

impl TimeoutState {
    #[verifier::type_invariant]
    spec fn inv(self) -> bool {
        self.cfg.valid() && self.upload_speed > 0
    }

    /// The current speed estimate, in millionths of a byte per second.
    pub closed spec fn estimate(&self) -> u64 {
        self.upload_speed
    }

    /// The parameters of the run.
    pub closed spec fn config(&self) -> RequestConfig {
        self.cfg
    }

    /// The state at the start of a run: the estimate is the expected speed.
    pub fn new(cfg: RequestConfig) -> (state: Self)
        requires
            cfg.valid(),
        ensures
            state.config() == cfg,
            state.estimate() == cfg.expected_upload_speed,
    {
        TimeoutState { upload_speed: cfg.expected_upload_speed, cfg }
    }

    /// Takes in a request of `size` bytes that completed after `elapsed`
    /// microseconds.
    pub fn update(&mut self, size: u64, elapsed: u64)
        ensures
            final(self).config() == old(self).config(),
            final(self).estimate() == updated_estimate(
                old(self).config(),
                old(self).estimate(),
                size,
                elapsed,
            ),
            final(self).estimate() > 0,
    {
        proof {
            use_type_invariant(&*self);
        }
        if size >= self.cfg.avg_min_bytes {
            let sample = speed_of(size, elapsed);
            self.upload_speed = blend(self.cfg.avg_power, sample, self.upload_speed);
        }
    }

    /// The current speed estimate, in millionths of a byte per second.
    pub fn get_estimate(&self) -> (speed: u64)
        ensures
            speed == self.estimate(),
            speed > 0,
    {
        proof {
            use_type_invariant(self);
        }
        self.upload_speed
    }

    /// The parameters of the run.
    pub fn get_config(&self) -> (cfg: RequestConfig)
        ensures
            cfg == self.config(),
            cfg.valid(),
    {
        proof {
            use_type_invariant(self);
        }
        self.cfg
    }

    /// The timeout in microseconds of attempt number `attempt` (from 0) at a
    /// request of `size` bytes.
    pub fn get_timeout(&self, size: u64, attempt: usize) -> (t: u64)
        ensures
            t == timeout(self.config(), self.estimate(), size, attempt as nat),
            t >= self.config().min_timeout,
    {
        proof {
            use_type_invariant(self);
        }
        let base: u64 = size_term(&self.cfg, self.upload_speed, size);
        let backoff: u64 = self.cfg.backoff;
        let mut t: u64 = base;
        let mut i: usize = 0;
        while i < attempt
            invariant
                i <= attempt,
                t == backed_off(base as int, backoff, i as nat),
            ensures
                t == backed_off(base as int, backoff, attempt as nat),
            decreases attempt - i,
        {
            proof {
                assert(t * backoff <= u64::MAX * u64::MAX && t * backoff >= 0) by (nonlinear_arith)
                    requires
                        0 <= t <= u64::MAX,
                        0 <= backoff <= u64::MAX,
                ;
            }
            let next: u64 = saturating_quotient((t as u128) * (backoff as u128), SCALE);
            if next == t {
                proof {
                    lemma_backed_off_fixed(t as int, backoff, (attempt - i) as nat);
                    lemma_backed_off_split(base as int, backoff, i as nat, (attempt - i) as nat);
                }
                break ;
            }
            t = next;
            i += 1;
        }
        self.cfg.min_timeout.saturating_add(t)
    }
}

} // verus!
