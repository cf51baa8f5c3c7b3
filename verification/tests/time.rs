use embassy_time::{Duration, MockDriver};
use reticulum::time::{
    elapsed_since_boot, init, now, unix_time_as_secs, BootTime, TickDuration,
};

fn micros(ticks: u64) -> TickDuration {
    TickDuration {
        ticks,
        tick_hz: 1_000_000,
    }
}

#[test]
fn time_is_read_from_the_clock() {
    let driver = MockDriver::get();
    driver.reset();
    assert_eq!(now(), Some(0));

    driver.advance(Duration::from_millis(5_250));
    assert_eq!(now(), Some(5_250_000_000));
    assert_eq!(elapsed_since_boot().as_secs(), 5);
    assert_eq!(
        elapsed_since_boot().as_secs(),
        Duration::from_millis(5_250).as_secs()
    );
    assert_eq!(
        elapsed_since_boot().as_nanos(),
        Some(Duration::from_millis(5_250).as_nanos())
    );

    let mut boot = BootTime::new();
    assert!(!boot.is_initialized());
    assert!(init(&mut boot, 1_700_000_000));
    assert!(boot.is_initialized());
    assert_eq!(unix_time_as_secs(&boot), Some(1_700_000_000));

    driver.advance(Duration::from_millis(2_800));
    assert_eq!(unix_time_as_secs(&boot), Some(1_700_000_003));

    let mut early = BootTime::new();
    assert!(!init(&mut early, 7));
    assert!(!early.is_initialized());
    assert!(init(&mut early, 9));
    assert_eq!(unix_time_as_secs(&early), Some(9));
}

#[test]
fn spans_are_rounded_down() {
    assert_eq!(micros(1_999_999).as_secs(), 1);
    assert_eq!(micros(1_999_999).as_nanos(), Some(1_999_999_000));
    let slow = TickDuration {
        ticks: 100,
        tick_hz: 32_768,
    };
    assert_eq!(slow.as_secs(), 0);
    assert_eq!(slow.as_nanos(), Some(3_051_757));
    assert_eq!(micros(u64::MAX).as_nanos(), None);
}

#[test]
fn unix_time_follows_the_clock() {
    let mut boot = BootTime::new();
    assert!(boot.init_at(1000, micros(10_500_000)));
    assert_eq!(boot.unix_time_at(micros(10_500_000)), Some(1000));
    assert_eq!(boot.unix_time_at(micros(11_000_000)), Some(1001));
    assert_eq!(boot.unix_time_at(micros(60_000_000)), Some(1050));
}

#[test]
fn device_cannot_have_booted_before_the_unix_time() {
    let mut boot = BootTime::new();
    assert!(boot.init_at(1000, micros(0)));
    assert!(!boot.init_at(3, micros(4_000_000)));
    assert_eq!(boot.unix_time_at(micros(0)), Some(1000));
    assert!(boot.init_at(4, micros(4_000_000)));
    assert!(!boot.is_initialized());
}

#[test]
fn unix_time_beyond_the_range_is_refused() {
    let mut boot = BootTime::new();
    assert!(boot.init_at(u64::MAX, micros(0)));
    assert_eq!(boot.unix_time_at(micros(999_999)), Some(u64::MAX));
    assert_eq!(boot.unix_time_at(micros(1_000_000)), None);
}

#[test]
fn nanoseconds_add_up() {
    let nanos = |span: TickDuration| span.as_nanos().unwrap();
    assert_eq!(
        nanos(micros(1_234_567)),
        nanos(micros(1_000_000)) + nanos(micros(234_567))
    );
    // A tick that is no whole number of nanoseconds: rounding shows.
    let slow = |ticks: u64| TickDuration {
        ticks,
        tick_hz: 32_768,
    };
    assert_eq!(nanos(slow(1)), 30_517);
    assert_eq!(nanos(slow(2)), 61_035);
    assert_eq!(nanos(slow(3)), 91_552);
}
