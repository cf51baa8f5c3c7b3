use std::time::Duration;

use reticulum::channel::params::{
    adjust_params, is_slow, ChannelParams, RTT_FAST_NANOS, RTT_MEDIUM_NANOS, RTT_SLOW_NANOS,
};

const FAST: u128 = 20_000_000;
const MEDIUM: u128 = 400_000_000;
const SLOW: u128 = 900_000_000;

fn seconds(nanos: u128) -> f32 {
    Duration::from_nanos(nanos as u64).as_secs_f32()
}

#[test]
fn thresholds_agree_with_single_precision() {
    for (nanos, limit) in [
        (RTT_FAST_NANOS, 0.18f32),
        (RTT_MEDIUM_NANOS, 0.75f32),
        (RTT_SLOW_NANOS, 1.45f32),
    ] {
        assert!(!(seconds(nanos) > limit));
        assert!(seconds(nanos + 1) > limit);
        for step in 0..2000u128 {
            assert!(!(seconds(nanos - step) > limit));
            assert!(seconds(nanos + 1 + step) > limit);
        }
        for step in 1..1000u128 {
            assert!(!(seconds(nanos / 1000 * step) > limit));
            assert!(seconds(nanos + nanos / 100 * step) > limit);
        }
    }
    assert!(seconds(0) == 0.0);
    assert!(seconds(1) != 0.0);
}

#[test]
fn slow_links_start_slow() {
    assert!(!is_slow(0));
    assert!(!is_slow(1_450_000_000));
    assert!(is_slow(1_460_000_000));
    assert_eq!(
        ChannelParams::new(true),
        ChannelParams {
            max_tries: 5,
            fast_rate_rounds: 0,
            medium_rate_rounds: 0,
            window: 1,
            window_max: 1,
            window_min: 1,
        }
    );
}

#[test]
fn other_links_start_with_the_usual_window() {
    assert_eq!(
        ChannelParams::new(false),
        ChannelParams {
            max_tries: 5,
            fast_rate_rounds: 0,
            medium_rate_rounds: 0,
            window: 2,
            window_max: 5,
            window_min: 2,
        }
    );
}

#[test]
fn window_grows_by_one_up_to_its_limit() {
    let mut params = ChannelParams::new(false);
    let mut windows = Vec::new();
    for _ in 0..6 {
        adjust_params(&mut params, SLOW);
        windows.push(params.window);
    }
    assert_eq!(windows, vec![3, 4, 5, 5, 5, 5]);
    assert_eq!(params.window_max, 5);
}

#[test]
fn ten_fast_rounds_raise_the_limit() {
    let mut params = ChannelParams::new(false);
    for _ in 0..9 {
        adjust_params(&mut params, FAST);
    }
    assert_eq!(params.fast_rate_rounds, 9);
    assert_eq!(params.window_max, 5);
    adjust_params(&mut params, FAST);
    assert_eq!(params.fast_rate_rounds, 10);
    assert_eq!(params.window_max, 48);
    assert_eq!(params.window_min, 16);
    assert_eq!(params.window, 5);
    for _ in 0..60 {
        adjust_params(&mut params, FAST);
    }
    assert_eq!(params.window, 48);
}

#[test]
fn slower_round_starts_the_count_of_fast_rounds_anew() {
    let mut params = ChannelParams::new(false);
    for _ in 0..9 {
        adjust_params(&mut params, FAST);
    }
    adjust_params(&mut params, MEDIUM);
    assert_eq!(params.fast_rate_rounds, 0);
    assert_eq!(params.medium_rate_rounds, 1);
    adjust_params(&mut params, FAST);
    assert_eq!(params.fast_rate_rounds, 1);
    assert_eq!(params.window_max, 5);
}

#[test]
fn ten_medium_rounds_raise_the_limit() {
    let mut params = ChannelParams::new(true);
    for _ in 0..5 {
        adjust_params(&mut params, MEDIUM);
    }
    adjust_params(&mut params, FAST);
    for _ in 0..4 {
        adjust_params(&mut params, MEDIUM);
    }
    assert_eq!(params.window_max, 1);
    adjust_params(&mut params, MEDIUM);
    assert_eq!(params.medium_rate_rounds, 10);
    assert_eq!(params.window_max, 12);
    assert_eq!(params.window_min, 5);
    adjust_params(&mut params, SLOW);
    assert_eq!(params.medium_rate_rounds, 0);
    assert_eq!(params.window, 2);
}

#[test]
fn unmeasured_round_counts_neither_way() {
    let mut params = ChannelParams::new(false);
    adjust_params(&mut params, FAST);
    adjust_params(&mut params, 0);
    assert_eq!(params.fast_rate_rounds, 1);
    assert_eq!(params.medium_rate_rounds, 0);
    assert_eq!(params.window, 4);
}

#[test]
fn counters_of_rounds_are_bounded() {
    let mut params = ChannelParams::new(false);
    params.fast_rate_rounds = u16::MAX;
    params.medium_rate_rounds = 3;
    assert!(!params.can_adjust(FAST));
    assert!(params.can_adjust(MEDIUM));
    assert!(params.can_adjust(SLOW));
    assert!(params.can_adjust(0));
    params.fast_rate_rounds = 0;
    params.medium_rate_rounds = u16::MAX;
    assert!(params.can_adjust(FAST));
    assert!(!params.can_adjust(MEDIUM));
}
