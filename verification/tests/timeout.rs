use s3_algo::{Config, RequestConfig, TimeoutState, SCALE};

fn config() -> RequestConfig {
    RequestConfig {
        timeout_fraction: 2 * SCALE,
        backoff: 3 * SCALE,
        n_retries: 4,
        expected_upload_speed: 1_000 * SCALE,
        avg_power: SCALE / 2,
        avg_min_bytes: 100,
        min_timeout: 250_000,
    }
}

#[test]
fn default_request_config() {
    let cfg = RequestConfig::default();
    assert_eq!(cfg.timeout_fraction, 1_500_000);
    assert_eq!(cfg.backoff, 1_500_000);
    assert_eq!(cfg.n_retries, 8);
    assert_eq!(cfg.expected_upload_speed, 1_000_000);
    assert_eq!(cfg.avg_power, 700_000);
    assert_eq!(cfg.avg_min_bytes, 1_000_000);
    assert_eq!(cfg.min_timeout, 500_000);
    assert!(cfg.is_valid());
}

#[test]
fn default_config() {
    let cfg = Config::default();
    assert_eq!(cfg.copy_parallelization, 20);
    assert_eq!(cfg.request, RequestConfig::default());
}

#[test]
fn config_ranges() {
    assert!(config().is_valid());
    assert!(!RequestConfig { timeout_fraction: SCALE, ..config() }.is_valid());
    assert!(!RequestConfig { backoff: SCALE, ..config() }.is_valid());
    assert!(!RequestConfig { avg_power: SCALE + 1, ..config() }.is_valid());
    assert!(!RequestConfig { expected_upload_speed: 0, ..config() }.is_valid());
    assert!(!RequestConfig { n_retries: usize::MAX, ..config() }.is_valid());
    assert!(RequestConfig { n_retries: usize::MAX - 1, ..config() }.is_valid());
    assert!(RequestConfig { n_retries: 0, ..config() }.is_valid());
    assert!(RequestConfig { avg_power: 0, ..config() }.is_valid());
    assert!(RequestConfig { avg_power: SCALE, ..config() }.is_valid());
}

#[test]
fn new_state_holds_expected_speed() {
    let state = TimeoutState::new(config());
    assert_eq!(state.get_estimate(), 1_000 * SCALE);
    assert_eq!(state.get_config(), config());
}

#[test]
fn update_blends_observed_speed() {
    // 3000 bytes in 2 s are 1500 bytes/s; half of that and half of 1000.
    let mut state = TimeoutState::new(config());
    state.update(3_000, 2_000_000);
    assert_eq!(state.get_estimate(), 1_250 * SCALE);
}

#[test]
fn update_with_default_config() {
    // 0.7 * 2_000_000 + 0.3 * 1 bytes per second.
    let mut state = TimeoutState::new(RequestConfig::default());
    state.update(2_000_000, 1_000_000);
    assert_eq!(state.get_estimate(), 1_400_000_300_000);
}

#[test]
fn update_ignores_small_requests() {
    let mut state = TimeoutState::new(config());
    state.update(99, 1);
    assert_eq!(state.get_estimate(), 1_000 * SCALE);
    state.update(0, 0);
    assert_eq!(state.get_estimate(), 1_000 * SCALE);
}

#[test]
fn update_counts_request_of_threshold_size() {
    // 100 bytes in 1 s: half of 100 and half of 1000.
    let mut state = TimeoutState::new(config());
    state.update(100, 1_000_000);
    assert_eq!(state.get_estimate(), 550 * SCALE);
}

#[test]
fn update_rounds_down() {
    // 100 bytes in 3 s are 33.333333 bytes/s; the average is 516.6666665.
    let mut state = TimeoutState::new(config());
    state.update(100, 3_000_000);
    assert_eq!(state.get_estimate(), 516_666_666);
}

#[test]
fn update_with_full_weight_takes_the_sample() {
    let cfg = RequestConfig { avg_power: SCALE, ..config() };
    let mut state = TimeoutState::new(cfg);
    state.update(4_000, 1_000_000);
    assert_eq!(state.get_estimate(), 4_000 * SCALE);
}

#[test]
fn update_with_no_weight_keeps_the_estimate() {
    let cfg = RequestConfig { avg_power: 0, ..config() };
    let mut state = TimeoutState::new(cfg);
    state.update(4_000, 1_000_000);
    assert_eq!(state.get_estimate(), 1_000 * SCALE);
}

#[test]
fn update_in_no_time_counts_as_largest_speed() {
    let mut state = TimeoutState::new(config());
    state.update(100, 0);
    let expected = (u64::MAX as u128 * 500_000 + 1_000_000_000u128 * 500_000) / 1_000_000;
    assert_eq!(state.get_estimate() as u128, expected);
}

#[test]
fn update_saturates_observed_speed() {
    // u64::MAX bytes in a microsecond is beyond what 64 bits hold.
    let cfg = RequestConfig { avg_power: SCALE, ..config() };
    let mut state = TimeoutState::new(cfg);
    state.update(u64::MAX, 1);
    assert_eq!(state.get_estimate(), u64::MAX);
}

#[test]
fn estimate_stays_positive() {
    let cfg = RequestConfig { avg_power: SCALE, avg_min_bytes: 0, ..config() };
    let mut state = TimeoutState::new(cfg);
    state.update(0, 1_000_000);
    assert_eq!(state.get_estimate(), 1);
    state.update(1, u64::MAX);
    assert_eq!(state.get_estimate(), 1);
}

#[test]
fn timeout_of_first_attempt() {
    // 0.25 s + 2 * 5000 bytes / 1000 bytes/s.
    let state = TimeoutState::new(config());
    assert_eq!(state.get_timeout(5_000, 0), 10_250_000);
}

#[test]
fn timeout_grows_by_backoff() {
    let state = TimeoutState::new(config());
    assert_eq!(state.get_timeout(5_000, 1), 30_250_000);
    assert_eq!(state.get_timeout(5_000, 2), 90_250_000);
    assert_eq!(state.get_timeout(5_000, 3), 270_250_000);
}

#[test]
fn timeout_with_default_config() {
    // 0.5 s + 1.5^k * 1.5 * 3 bytes / 1 byte/s.
    let state = TimeoutState::new(RequestConfig::default());
    assert_eq!(state.get_timeout(3, 0), 5_000_000);
    assert_eq!(state.get_timeout(3, 1), 7_250_000);
    assert_eq!(state.get_timeout(3, 2), 10_625_000);
}

#[test]
fn timeout_of_empty_request_is_the_minimum() {
    let state = TimeoutState::new(config());
    assert_eq!(state.get_timeout(0, 0), 250_000);
    assert_eq!(state.get_timeout(0, 7), 250_000);
}

#[test]
fn timeout_follows_the_estimate() {
    let mut state = TimeoutState::new(config());
    state.update(3_000, 2_000_000);
    // 0.25 s + 2 * 5000 / 1250.
    assert_eq!(state.get_timeout(5_000, 0), 8_250_000);
}

#[test]
fn timeout_never_shrinks_with_attempts() {
    let mut cfg = config();
    cfg.backoff = SCALE + 1;
    let state = TimeoutState::new(cfg);
    for size in [0u64, 1, 999, 5_000, u64::MAX / 2, u64::MAX] {
        let mut last = 0;
        for attempt in 0..40 {
            let t = state.get_timeout(size, attempt);
            assert!(t >= last);
            assert!(t >= cfg.min_timeout);
            last = t;
        }
    }
}

#[test]
fn timeout_saturates() {
    let state = TimeoutState::new(config());
    assert_eq!(state.get_timeout(u64::MAX, 0), u64::MAX);
    assert_eq!(state.get_timeout(u64::MAX, 3), u64::MAX);
    assert_eq!(state.get_timeout(1_000_000, 1_000), u64::MAX);
}

#[test]
fn timeout_stops_at_a_fixed_point() {
    // One microsecond times 1.000001 is still one microsecond, however often.
    let cfg = RequestConfig {
        backoff: SCALE + 1,
        timeout_fraction: SCALE + 1,
        expected_upload_speed: SCALE,
        min_timeout: 0,
        ..config()
    };
    let state = TimeoutState::new(cfg);
    assert_eq!(state.get_timeout(0, usize::MAX), 0);
}
