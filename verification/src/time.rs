//! The time of a device that has no clock of its own: it counts ticks since it
//! booted, and is told the UNIX time once.

use vstd::prelude::*;

verus! {

/// How many nanoseconds make a second.
pub const NANOS_PER_SEC: u64 = 1_000_000_000;

/// A span of time, in ticks of the device.
#[derive(Debug, Clone, Copy, PartialEq, Eq, Structural)]
pub struct TickDuration {
    pub ticks: u64,
    /// How many ticks make a second.
    pub tick_hz: u64,
}

impl TickDuration {
    /// Whether time passes at all.
    pub open spec fn wf(self) -> bool {
        self.tick_hz > 0
    }

    /// The span in whole seconds, rounded down.
    pub open spec fn secs(self) -> int {
        self.ticks as int / self.tick_hz as int
    }

    /// The span in whole nanoseconds, rounded down.
    pub open spec fn nanos(self) -> int {
        (self.ticks as int * NANOS_PER_SEC as int) / self.tick_hz as int
    }

    /// The span in whole seconds, rounded down.
    pub fn as_secs(&self) -> (secs: u64)
        requires
            self.wf(),
        ensures
            secs == self.secs(),
    {
        self.ticks / self.tick_hz
    }

    /// The span in whole nanoseconds, rounded down, if their number fits in 64
    /// bits.
    pub fn as_nanos(&self) -> (nanos: Option<u64>)
        requires
            self.wf(),
        ensures
            nanos == (if self.nanos() <= u64::MAX {
                Some(self.nanos() as u64)
            } else {
                None
            }),
    {
        assert(0 <= self.ticks as int * NANOS_PER_SEC as int <= u64::MAX as int
            * NANOS_PER_SEC as int) by (nonlinear_arith)
            requires
                0 <= self.ticks <= u64::MAX,
        ;
        let nanos: u128 = self.ticks as u128 * NANOS_PER_SEC as u128 / self.tick_hz as u128;
        if nanos <= u64::MAX as u128 {
            Some(nanos as u64)
        } else {
            None
        }
    }
}

/// `embassy_time::Instant::now`, as its number of ticks, which are counted from
/// the instant at which the device booted. Nothing is claimed of it: it is what
/// the clock says.
#[verifier::external_body]
fn ticks_since_boot() -> (ticks: u64) {
    embassy_time::Instant::now().as_ticks()
}

/// `embassy_time::TICK_HZ`, the number of ticks per second, which is chosen when
/// that crate is built. All that is claimed is that it is not 0.
#[verifier::external_body]
fn ticks_per_second() -> (tick_hz: u64)
    ensures
        tick_hz > 0,
{
    embassy_time::TICK_HZ
}

/// Whether a span is a reading of the clock: its ticks are what the clock may say,
/// and its rate is that at which the clock ticks.
pub closed spec fn shown_by_the_clock(elapsed: TickDuration) -> bool {
    &&& call_ensures(ticks_since_boot, (), elapsed.ticks)
    &&& call_ensures(ticks_per_second, (), elapsed.tick_hz)
}

/// How much time has passed since the device booted.
pub fn elapsed_since_boot() -> (elapsed: TickDuration)
    ensures
        elapsed.wf(),
        shown_by_the_clock(elapsed),
{
    let ticks: u64 = ticks_since_boot();
    let tick_hz: u64 = ticks_per_second();
    proof {
        assert(call_ensures(ticks_since_boot, (), ticks));
        assert(call_ensures(ticks_per_second, (), tick_hz));
    }
    TickDuration { ticks, tick_hz }
}

/// The UNIX time at which a device booted that was told the time when this much
/// time had passed since.
pub open spec fn boot_time(unix_now: u64, elapsed: TickDuration) -> int {
    unix_now - elapsed.secs()
}

/// The UNIX time when this much time has passed since the device booted.
pub open spec fn unix_time(boot_unix_time: int, elapsed: TickDuration) -> int {
    boot_unix_time + elapsed.secs()
}

/// What the device knows of the UNIX time.
pub struct BootTime {
    /// The UNIX time at which the device booted, in seconds; 0 if it has not been
    /// told yet.
    boot_unix_time: u64,
}

impl View for BootTime {
    type V = u64;

    closed spec fn view(&self) -> u64 {
        self.boot_unix_time
    }
}

impl BootTime {
    /// Whether the device has been told the UNIX time.
    pub open spec fn initialized(self) -> bool {
        self@ != 0
    }

    /// The UNIX time of a device that has just booted, and has not been told.
    pub fn new() -> (boot: Self)
        ensures
            boot@ == 0,
            !boot.initialized(),
    {
        BootTime { boot_unix_time: 0 }
    }

    /// Whether the device has been told the UNIX time.
    pub fn is_initialized(&self) -> (initialized: bool)
        ensures
            initialized == self.initialized(),
    {
        self.boot_unix_time != 0
    }

    /// Take note that it is `unix_now` when this much time has passed since the
    /// device booted.
    ///
    /// Fails, and changes nothing, if the device would have booted before the
    /// UNIX time began.
    pub fn init_at(&mut self, unix_now: u64, elapsed: TickDuration) -> (done: bool)
        requires
            elapsed.wf(),
        ensures
            done == (boot_time(unix_now, elapsed) >= 0),
            done ==> final(self)@ == boot_time(unix_now, elapsed),
            !done ==> final(self)@ == old(self)@,
    {
        let secs: u64 = elapsed.as_secs();
        if secs > unix_now {
            return false;
        }
        self.boot_unix_time = unix_now - secs;
        true
    }

    /// The UNIX time when this much time has passed since the device booted, if
    /// it fits in 64 bits.
    pub fn unix_time_at(&self, elapsed: TickDuration) -> (secs: Option<u64>)
        requires
            self.initialized(),
            elapsed.wf(),
        ensures
            secs == (if unix_time(self@ as int, elapsed) <= u64::MAX {
                Some(unix_time(self@ as int, elapsed) as u64)
            } else {
                None
            }),
    {
        self.boot_unix_time.checked_add(elapsed.as_secs())
    }
}

/// Initialize the UNIX time.
///
/// Reticulum needs to know the current UNIX timestamp in order to create announce
/// packets. This must be called before any destinations are created.
///
/// `unix_now`: the current UNIX timestamp in seconds. If it says that the device
/// booted in the very first second of the UNIX time, the device still counts as
/// not told.
///
/// Fails, and changes nothing, if the device would have booted before the UNIX
/// time began. How much time has passed since then is read from the clock: that
/// it fails, or what it notes, holds of whatever the clock said.
pub fn init(boot: &mut BootTime, unix_now: u64) -> (done: bool)
    ensures
        exists|elapsed: TickDuration| #[trigger]
            shown_by_the_clock(elapsed) && elapsed.wf() && done == (boot_time(unix_now, elapsed) >= 0) && final(boot)@ == (if done {
                boot_time(unix_now, elapsed)
            } else {
                old(boot)@ as int
            }),
{
    let elapsed = elapsed_since_boot();
    boot.init_at(unix_now, elapsed)
}

/// How many nanoseconds have passed since the device booted, if their number fits
/// in 64 bits.
pub fn now() -> (nanos: Option<u64>)
    ensures
        exists|elapsed: TickDuration| #[trigger]
            shown_by_the_clock(elapsed) && elapsed.wf() && nanos == (if elapsed.nanos() <= u64::MAX {
                Some(elapsed.nanos() as u64)
            } else {
                None
            }),
{
    let elapsed = elapsed_since_boot();
    elapsed.as_nanos()
}

/// The current UNIX timestamp in seconds, if it fits in 64 bits.
pub fn unix_time_as_secs(boot: &BootTime) -> (secs: Option<u64>)
    requires
        boot.initialized(),
    ensures
        exists|elapsed: TickDuration| #[trigger]
            shown_by_the_clock(elapsed) && elapsed.wf() && secs == (if unix_time(boot@ as int, elapsed) <= u64::MAX {
                Some(unix_time(boot@ as int, elapsed) as u64)
            } else {
                None
            }),
        secs matches Some(secs) ==> secs >= boot@,
{
    let elapsed = elapsed_since_boot();
    boot.unix_time_at(elapsed)
}

/// A span of more ticks is no shorter, in seconds and in nanoseconds: neither of
/// the two times ever runs backwards.
pub proof fn time_is_monotonic(earlier: TickDuration, later: TickDuration)
    requires
        earlier.wf(),
        later.tick_hz == earlier.tick_hz,
        earlier.ticks <= later.ticks,
    ensures
        0 <= earlier.secs() <= later.secs(),
        0 <= earlier.nanos() <= later.nanos(),
{
    let hz = earlier.tick_hz as int;
    vstd::arithmetic::div_mod::lemma_div_is_ordered(earlier.ticks as int, later.ticks as int, hz);
    vstd::arithmetic::div_mod::lemma_div_is_ordered(
        earlier.ticks as int * NANOS_PER_SEC as int,
        later.ticks as int * NANOS_PER_SEC as int,
        hz,
    );
    vstd::arithmetic::div_mod::lemma_div_pos_is_pos(earlier.ticks as int, hz);
    vstd::arithmetic::div_mod::lemma_div_pos_is_pos(
        earlier.ticks as int * NANOS_PER_SEC as int,
        hz,
    );
}

/// A later reading of the clock is the earlier one plus what the clock advanced
/// in between, in nanoseconds: exactly if a tick is a whole number of nanoseconds,
/// and else within one nanosecond, because each of the three is rounded down.
pub proof fn nanos_follow_the_clock(
    earlier: TickDuration,
    later: TickDuration,
    advance: TickDuration,
)
    requires
        earlier.wf(),
        later.tick_hz == earlier.tick_hz,
        advance.tick_hz == earlier.tick_hz,
        later.ticks == earlier.ticks + advance.ticks,
    ensures
        NANOS_PER_SEC as int % earlier.tick_hz as int == 0 ==> later.nanos() == earlier.nanos()
            + advance.nanos(),
        earlier.nanos() + advance.nanos() <= later.nanos() <= earlier.nanos() + advance.nanos() + 1,
{
    let hz = earlier.tick_hz as int;
    let billion = NANOS_PER_SEC as int;
    let (a, b) = (earlier.ticks * billion, advance.ticks * billion);
    assert(later.ticks * billion == a + b) by (nonlinear_arith)
        requires
            later.ticks == earlier.ticks + advance.ticks,
            a == earlier.ticks * billion,
            b == advance.ticks * billion,
    ;
    vstd::arithmetic::div_mod::lemma_fundamental_div_mod(a, hz);
    vstd::arithmetic::div_mod::lemma_fundamental_div_mod(b, hz);
    vstd::arithmetic::div_mod::lemma_fundamental_div_mod(a + b, hz);
    vstd::arithmetic::div_mod::lemma_mod_bound(a, hz);
    vstd::arithmetic::div_mod::lemma_mod_bound(b, hz);
    vstd::arithmetic::div_mod::lemma_mod_bound(a + b, hz);
    let (p, q, r) = (a / hz, b / hz, (a + b) / hz);
    assert(p + q <= r <= p + q + 1) by (nonlinear_arith)
        requires
            hz > 0,
            a == hz * p + a % hz,
            b == hz * q + b % hz,
            a + b == hz * r + (a + b) % hz,
            0 <= a % hz < hz,
            0 <= b % hz < hz,
            0 <= (a + b) % hz < hz,
    ;
    if billion % hz == 0 {
        let per_tick = billion / hz;
        vstd::arithmetic::div_mod::lemma_fundamental_div_mod(billion, hz);
        lemma_whole_ticks(earlier.ticks as int, billion, hz, per_tick);
        lemma_whole_ticks(advance.ticks as int, billion, hz, per_tick);
        lemma_whole_ticks(later.ticks as int, billion, hz, per_tick);
        assert(later.ticks * per_tick == earlier.ticks * per_tick + advance.ticks * per_tick)
            by (nonlinear_arith)
            requires
                later.ticks == earlier.ticks + advance.ticks,
        ;
    }
}

proof fn lemma_whole_ticks(ticks: int, billion: int, hz: int, per_tick: int)
    requires
        hz > 0,
        billion == hz * per_tick,
    ensures
        (ticks * billion) / hz == ticks * per_tick,
{
    assert(ticks * billion == hz * (ticks * per_tick)) by (nonlinear_arith)
        requires
            billion == hz * per_tick,
    ;
    vstd::arithmetic::div_mod::lemma_div_multiples_vanish(ticks * per_tick, hz);
}

/// The UNIX time is what it was said to be when the device was told, plus the whole
/// seconds that the clock has counted since; it never falls behind what was said.
pub proof fn unix_time_follows_the_clock(unix_now: u64, told: TickDuration, later: TickDuration)
    requires
        told.wf(),
        later.tick_hz == told.tick_hz,
        told.ticks <= later.ticks,
    ensures
        unix_time(boot_time(unix_now, told), told) == unix_now,
        unix_time(boot_time(unix_now, told), later) == unix_now + (later.secs() - told.secs()),
        unix_time(boot_time(unix_now, told), later) >= unix_now,
{
    time_is_monotonic(told, later);
}

/// The seconds of a span are its ticks by the rate of the ticks, rounded down: that
/// many seconds have passed in full, and one more has not. Its nanoseconds are the
/// same for a billionth of a second.
pub proof fn spans_are_ticks_by_rate(span: TickDuration)
    requires
        span.tick_hz > 0,
    ensures
        span.secs() * span.tick_hz <= span.ticks < (span.secs() + 1) * span.tick_hz,
        span.nanos() * span.tick_hz <= span.ticks * 1_000_000_000 < (span.nanos() + 1)
            * span.tick_hz,
{
    lemma_rounded_down(span.ticks as int, span.tick_hz as int);
    lemma_rounded_down(span.ticks * 1_000_000_000, span.tick_hz as int);
}

proof fn lemma_rounded_down(dividend: int, divisor: int)
    requires
        divisor > 0,
    ensures
        (dividend / divisor) * divisor <= dividend < (dividend / divisor + 1) * divisor,
{
    vstd::arithmetic::div_mod::lemma_fundamental_div_mod(dividend, divisor);
    vstd::arithmetic::div_mod::lemma_mod_bound(dividend, divisor);
    let quotient = dividend / divisor;
    assert(quotient * divisor <= dividend < (quotient + 1) * divisor) by (nonlinear_arith)
        requires
            dividend == divisor * quotient + dividend % divisor,
            0 <= dividend % divisor < divisor,
    ;
}

/// When the clock advances by a number of whole seconds, so do the seconds of the
/// span and the UNIX time, by exactly that number, however long it has run; and the
/// nanoseconds advance by a billion for each.
pub proof fn whole_seconds_advance_the_time(
    boot_unix_time: int,
    earlier: TickDuration,
    later: TickDuration,
    seconds: nat,
)
    requires
        earlier.tick_hz > 0,
        later.tick_hz == earlier.tick_hz,
        later.ticks == earlier.ticks + seconds * earlier.tick_hz,
    ensures
        later.secs() == earlier.secs() + seconds,
        later.nanos() == earlier.nanos() + seconds * 1_000_000_000,
        unix_time(boot_unix_time, later) == unix_time(boot_unix_time, earlier) + seconds,
{
    let hz = earlier.tick_hz as int;
    lemma_whole_quotients_added(earlier.ticks as int, seconds as int, hz);
    lemma_whole_quotients_added(
        earlier.ticks * 1_000_000_000,
        seconds as int * 1_000_000_000,
        hz,
    );
    assert(later.ticks * 1_000_000_000 == earlier.ticks * 1_000_000_000 + (seconds
        * 1_000_000_000) * hz) by (nonlinear_arith)
        requires
            later.ticks == earlier.ticks + seconds * hz,
    ;
}

proof fn lemma_whole_quotients_added(dividend: int, quotients: int, divisor: int)
    requires
        divisor > 0,
    ensures
        (dividend + quotients * divisor) / divisor == dividend / divisor + quotients,
{
    vstd::arithmetic::div_mod::lemma_hoist_over_denominator(dividend, quotients, divisor as nat);
}

/// The device booted as many whole seconds before it was told the UNIX time as the
/// clock had counted by then, and at any reading the UNIX time is that of the boot
/// and as many whole seconds as the clock has counted.
pub proof fn unix_time_is_boot_time_and_seconds(
    unix_now: u64,
    boot_unix_time: int,
    elapsed: TickDuration,
    seconds: int,
)
    requires
        elapsed.tick_hz > 0,
        seconds * elapsed.tick_hz <= elapsed.ticks < (seconds + 1) * elapsed.tick_hz,
    ensures
        boot_time(unix_now, elapsed) + seconds == unix_now,
        unix_time(boot_unix_time, elapsed) == boot_unix_time + seconds,
{
    spans_are_ticks_by_rate(elapsed);
    let (hz, ticks, secs) = (elapsed.tick_hz as int, elapsed.ticks as int, elapsed.secs());
    assert(secs == seconds) by (nonlinear_arith)
        requires
            hz > 0,
            seconds * hz <= ticks < (seconds + 1) * hz,
            secs * hz <= ticks < (secs + 1) * hz,
    ;
}

/// A device has been told the UNIX time exactly if it does not take itself to have
/// booted in the first second of it.
pub proof fn told_iff_boot_time_is_known(boot: BootTime)
    ensures
        boot.initialized() <==> boot@ != 0,
{
}

/// What the conversions of a span return, by its ticks and their rate alone.
pub proof fn converted_spans(span: &TickDuration, secs: u64, nanos: Option<u64>)
    requires
        span.tick_hz > 0,
        call_ensures(TickDuration::as_secs, (span,), secs),
        call_ensures(TickDuration::as_nanos, (span,), nanos),
    ensures
        secs * span.tick_hz <= span.ticks < (secs + 1) * span.tick_hz,
        nanos matches Some(nanos) ==> nanos * span.tick_hz <= span.ticks * 1_000_000_000 < (nanos
            + 1) * span.tick_hz,
        nanos is None ==> span.ticks * 1_000_000_000 >= 0x1_0000_0000_0000_0000 * span.tick_hz,
{
    spans_are_ticks_by_rate(*span);
    if nanos is None {
        let (found, hz, billions) = (
            span.nanos(),
            span.tick_hz as int,
            span.ticks * 1_000_000_000,
        );
        assert(billions >= 0x1_0000_0000_0000_0000 * hz) by (nonlinear_arith)
            requires
                found >= 0x1_0000_0000_0000_0000,
                hz > 0,
                found * hz <= billions,
        ;
    }
}

/// A device that was told the UNIX time says, any whole number of seconds later,
/// that time and as many seconds more, as long as this fits in 64 bits. It can be
/// told unless it would have booted before the UNIX time began.
pub proof fn told_time_goes_on(
    boot: &mut BootTime,
    after: &BootTime,
    unix_now: u64,
    told: TickDuration,
    later: TickDuration,
    seconds: nat,
    done: bool,
    said: Option<u64>,
)
    requires
        told.tick_hz > 0,
        later.tick_hz == told.tick_hz,
        later.ticks == told.ticks + seconds * told.tick_hz,
        *after == *final(boot),
        call_ensures(BootTime::init_at, (boot, unix_now, told), done),
        call_ensures(BootTime::unix_time_at, (after, later), said),
    ensures
        done <==> told.ticks < (unix_now + 1) * told.tick_hz,
        done && unix_now + seconds <= u64::MAX ==> said == Some((unix_now + seconds) as u64),
        done && unix_now + seconds > u64::MAX ==> said is None,
        !done ==> final(boot)@ == old(boot)@,
{
    spans_are_ticks_by_rate(told);
    unix_time_is_boot_time_and_seconds(unix_now, 0, told, told.secs());
    whole_seconds_advance_the_time(boot_time(unix_now, told), told, later, seconds);
    unix_time_is_boot_time_and_seconds(unix_now, boot_time(unix_now, told), told, told.secs());
    let (hz, ticks, secs, now) = (
        told.tick_hz as int,
        told.ticks as int,
        told.secs(),
        unix_now as int,
    );
    assert(secs <= now <==> ticks < (now + 1) * hz) by (nonlinear_arith)
        requires
            hz > 0,
            secs * hz <= ticks < (secs + 1) * hz,
    ;
}

/// A reading of the clock has the ticks that the clock said, and no others, and the
/// rate at which it ticks.
proof fn reading_is_what_the_clock_said(elapsed: TickDuration)
    requires
        shown_by_the_clock(elapsed),
    ensures
        call_ensures(ticks_since_boot, (), elapsed.ticks),
        call_ensures(ticks_per_second, (), elapsed.tick_hz),
        elapsed.tick_hz > 0,
{
}

/// The time since the boot is a reading of the clock, in nanoseconds rounded down,
/// whatever the reading is; there is none only if it does not fit in 64 bits.
pub proof fn time_since_boot_is_a_reading(nanos: Option<u64>)
    requires
        call_ensures(now, (), nanos),
    ensures
        exists|elapsed: TickDuration| #[trigger]
            shown_by_the_clock(elapsed) && elapsed.tick_hz > 0 && match nanos {
                Some(nanos) => nanos * elapsed.tick_hz <= elapsed.ticks * 1_000_000_000 < (nanos
                    + 1) * elapsed.tick_hz,
                None => elapsed.nanos() > u64::MAX,
            },
{
    let elapsed = choose|elapsed: TickDuration| #[trigger]
        shown_by_the_clock(elapsed) && elapsed.wf() && nanos == (if elapsed.nanos() <= u64::MAX {
            Some(elapsed.nanos() as u64)
        } else {
            None
        });
    reading_is_what_the_clock_said(elapsed);
    spans_are_ticks_by_rate(elapsed);
}

/// The UNIX time is that of the boot and the whole seconds of a reading of the clock,
/// whatever the reading is; there is none only if it does not fit in 64 bits.
pub proof fn unix_time_is_a_reading(boot: &BootTime, secs: Option<u64>)
    requires
        boot@ != 0,
        call_ensures(unix_time_as_secs, (boot,), secs),
    ensures
        exists|elapsed: TickDuration| #[trigger]
            shown_by_the_clock(elapsed) && elapsed.tick_hz > 0 && match secs {
                Some(secs) => (secs - boot@) * elapsed.tick_hz <= elapsed.ticks < (secs - boot@ + 1)
                    * elapsed.tick_hz,
                None => boot@ + elapsed.secs() > u64::MAX,
            },
{
    let elapsed = choose|elapsed: TickDuration| #[trigger]
        shown_by_the_clock(elapsed) && elapsed.wf() && secs == (if unix_time(boot@ as int, elapsed)
            <= u64::MAX {
            Some(unix_time(boot@ as int, elapsed) as u64)
        } else {
            None
        });
    reading_is_what_the_clock_said(elapsed);
    spans_are_ticks_by_rate(elapsed);
}

/// A device that is told the UNIX time now booted as many whole seconds before as a
/// reading of the clock says, whatever the reading is; it cannot be told, and then
/// nothing changes, only if that would be before the UNIX time began.
pub proof fn boot_time_is_told_by_a_reading(boot: &mut BootTime, unix_now: u64, done: bool)
    requires
        call_ensures(init, (boot, unix_now), done),
    ensures
        exists|elapsed: TickDuration| #[trigger]
            shown_by_the_clock(elapsed) && elapsed.tick_hz > 0 && if done {
                let since = unix_now - final(boot)@;
                since * elapsed.tick_hz <= elapsed.ticks < (since + 1) * elapsed.tick_hz
            } else {
                elapsed.secs() > unix_now && final(boot)@ == old(boot)@
            },
{
    let elapsed = choose|elapsed: TickDuration| #[trigger]
        shown_by_the_clock(elapsed) && elapsed.wf() && done == (boot_time(unix_now, elapsed) >= 0)
            && final(boot)@ == (if done {
            boot_time(unix_now, elapsed)
        } else {
            old(boot)@ as int
        });
    reading_is_what_the_clock_said(elapsed);
    spans_are_ticks_by_rate(elapsed);
}

} // verus!
