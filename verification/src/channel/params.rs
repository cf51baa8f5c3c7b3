//! The parameters that govern how a channel sends, and how they follow the
//! round trip time of the link.

use vstd::prelude::*;

verus! {

/// How many messages may await delivery when a channel is opened.
pub const WINDOW: u16 = 2;

pub const WINDOW_MIN: u16 = 2;

pub const WINDOW_MIN_LIMIT_MEDIUM: u16 = 5;

pub const WINDOW_MIN_LIMIT_FAST: u16 = 16;

pub const WINDOW_MAX_SLOW: u16 = 5;

pub const WINDOW_MAX_MEDIUM: u16 = 12;

pub const WINDOW_MAX_FAST: u16 = 48;

/// The largest window that a channel ever has.
pub const WINDOW_MAX: u16 = WINDOW_MAX_FAST;

/// After how many rounds at a better rate the window may grow further.
pub const FAST_RATE_THRESHOLD: u16 = 10;

/// How often a message is sent before the channel gives up.
pub const MAX_TRIES: u16 = 5;

/// The longest round trip of a fast link in nanoseconds: the largest whole
/// number of them that, in seconds and in single precision, is not above 0.18.
pub const RTT_FAST_NANOS: u128 = 180_000_008;

/// The longest round trip of a link of medium speed in nanoseconds: the largest
/// whole number of them that, in seconds and in single precision, is not above
/// 0.75.
pub const RTT_MEDIUM_NANOS: u128 = 750_000_032;

/// The longest round trip with which a channel does not start out slow, in
/// nanoseconds: the largest whole number of them that, in seconds and in single
/// precision, is not above 1.45.
pub const RTT_SLOW_NANOS: u128 = 1_450_000_111;

/// Whether a channel over a link with this round trip time starts out slow.
pub open spec fn starts_slow(rtt_nanos: u128) -> bool {
    rtt_nanos > RTT_SLOW_NANOS
}

/// Whether a round trip time has been measured and is that of a fast link.
pub open spec fn fast_round(rtt_nanos: u128) -> bool {
    0 < rtt_nanos <= RTT_FAST_NANOS
}

/// Whether a round trip time is that of a link of medium speed.
pub open spec fn medium_round(rtt_nanos: u128) -> bool {
    RTT_FAST_NANOS < rtt_nanos <= RTT_MEDIUM_NANOS
}

/// Whether a round trip time is longer than that of a link of medium speed.
pub open spec fn slow_round(rtt_nanos: u128) -> bool {
    RTT_MEDIUM_NANOS < rtt_nanos
}

/// The parameters of a channel.
#[derive(Debug, Clone, Copy, PartialEq, Eq, Structural)]
pub struct ChannelParams {
    pub max_tries: u16,
    pub fast_rate_rounds: u16,
    pub medium_rate_rounds: u16,
    pub window: u16,
    pub window_max: u16,
    pub window_min: u16,
}

impl ChannelParams {
    /// The four pairs of limits that a channel can have.
    pub open spec fn limits_known(self) -> bool {
        ||| self.window_max == 1 && self.window_min == 1
        ||| self.window_max == WINDOW_MAX_SLOW && self.window_min == WINDOW_MIN
        ||| self.window_max == WINDOW_MAX_MEDIUM && self.window_min == WINDOW_MIN_LIMIT_MEDIUM
        ||| self.window_max == WINDOW_MAX_FAST && self.window_min == WINDOW_MIN_LIMIT_FAST
    }

    /// What holds of the parameters of every channel.
    pub open spec fn wf(self) -> bool {
        &&& self.max_tries == MAX_TRIES
        &&& 1 <= self.window <= self.window_max
        &&& self.limits_known()
    }

    /// Whether the counter of rounds that `rtt_nanos` adds to has room for one
    /// more.
    pub open spec fn has_round_left(self, rtt_nanos: u128) -> bool {
        &&& fast_round(rtt_nanos) ==> self.fast_rate_rounds < u16::MAX
        &&& medium_round(rtt_nanos) ==> self.medium_rate_rounds < u16::MAX
    }

    /// How many rounds in a row were fast, after one more with this round trip
    /// time. A round without a measured time counts neither way.
    pub open spec fn fast_rounds_after(self, rtt_nanos: u128) -> int {
        if fast_round(rtt_nanos) {
            self.fast_rate_rounds + 1
        } else if rtt_nanos == 0 {
            self.fast_rate_rounds as int
        } else {
            0
        }
    }

    /// How many rounds were of medium speed since the last slower one, after one
    /// more with this round trip time.
    pub open spec fn medium_rounds_after(self, rtt_nanos: u128) -> int {
        if medium_round(rtt_nanos) {
            self.medium_rate_rounds + 1
        } else if slow_round(rtt_nanos) {
            0
        } else {
            self.medium_rate_rounds as int
        }
    }

    /// The limits of the window, largest and smallest, after one more round.
    pub open spec fn limits_after(self, rtt_nanos: u128) -> (u16, u16) {
        if fast_round(rtt_nanos) && self.fast_rounds_after(rtt_nanos) == FAST_RATE_THRESHOLD
            && self.window_max < WINDOW_MAX_FAST {
            (WINDOW_MAX_FAST, WINDOW_MIN_LIMIT_FAST)
        } else if medium_round(rtt_nanos) && self.medium_rounds_after(rtt_nanos)
            == FAST_RATE_THRESHOLD && self.window_max < WINDOW_MAX_MEDIUM {
            (WINDOW_MAX_MEDIUM, WINDOW_MIN_LIMIT_MEDIUM)
        } else {
            (self.window_max, self.window_min)
        }
    }

    /// The parameters after a message was delivered, with the round trip time of
    /// the link at that moment.
    pub open spec fn adjusted(self, rtt_nanos: u128) -> ChannelParams {
        ChannelParams {
            max_tries: self.max_tries,
            fast_rate_rounds: self.fast_rounds_after(rtt_nanos) as u16,
            medium_rate_rounds: self.medium_rounds_after(rtt_nanos) as u16,
            window: if self.window < self.window_max {
                (self.window + 1) as u16
            } else {
                self.window
            },
            window_max: self.limits_after(rtt_nanos).0,
            window_min: self.limits_after(rtt_nanos).1,
        }
    }

    /// The parameters after several deliveries, one after the other.
    pub open spec fn adjusted_all(self, rtts: Seq<u128>) -> ChannelParams
        decreases rtts.len(),
    {
        if rtts.len() == 0 {
            self
        } else {
            self.adjusted_all(rtts.drop_last()).adjusted(rtts.last())
        }
    }

    /// The parameters of a channel that has just been opened.
    pub fn new(slow: bool) -> (params: Self)
        ensures
            params.wf(),
            params.max_tries == MAX_TRIES,
            params.fast_rate_rounds == 0,
            params.medium_rate_rounds == 0,
            params.window == (if slow { 1 } else { WINDOW }),
            params.window_max == (if slow { 1 } else { WINDOW_MAX_SLOW }),
            params.window_min == (if slow { 1 } else { WINDOW_MIN }),
    {
        ChannelParams {
            max_tries: MAX_TRIES,
            fast_rate_rounds: 0,
            medium_rate_rounds: 0,
            window: if slow { 1 } else { WINDOW },
            window_max: if slow { 1 } else { WINDOW_MAX_SLOW },
            window_min: if slow { 1 } else { WINDOW_MIN },
        }
    }

    /// Whether the parameters can be adjusted to one more round with this round
    /// trip time: the counters of rounds have sixteen bits.
    pub fn can_adjust(&self, rtt_nanos: u128) -> (can: bool)
        ensures
            can == self.has_round_left(rtt_nanos),
    {
        if rtt_nanos == 0 || rtt_nanos > RTT_MEDIUM_NANOS {
            true
        } else if rtt_nanos <= RTT_FAST_NANOS {
            self.fast_rate_rounds < u16::MAX
        } else {
            self.medium_rate_rounds < u16::MAX
        }
    }
}

/// Whether a channel over a link with this round trip time starts out slow.
pub fn is_slow(rtt_nanos: u128) -> (slow: bool)
    ensures
        slow == starts_slow(rtt_nanos),
{
    rtt_nanos > RTT_SLOW_NANOS
}

/// Adjust the parameters when a message has been delivered, to the round trip
/// time of the link (0 if none has been measured).
pub fn adjust_params(params: &mut ChannelParams, rtt_nanos: u128)
    requires
        old(params).has_round_left(rtt_nanos),
    ensures
        *final(params) == old(params).adjusted(rtt_nanos),
{
    if params.window < params.window_max {
        params.window = params.window + 1;
    }
    if rtt_nanos != 0 {
        if rtt_nanos > RTT_FAST_NANOS {
            params.fast_rate_rounds = 0;
            if rtt_nanos > RTT_MEDIUM_NANOS {
                params.medium_rate_rounds = 0;
            } else {
                params.medium_rate_rounds = params.medium_rate_rounds + 1;
                if params.window_max < WINDOW_MAX_MEDIUM && params.medium_rate_rounds
                    == FAST_RATE_THRESHOLD {
                    params.window_max = WINDOW_MAX_MEDIUM;
                    params.window_min = WINDOW_MIN_LIMIT_MEDIUM;
                }
            }
        } else {
            params.fast_rate_rounds = params.fast_rate_rounds + 1;
            if params.window_max < WINDOW_MAX_FAST && params.fast_rate_rounds
                == FAST_RATE_THRESHOLD {
                params.window_max = WINDOW_MAX_FAST;
                params.window_min = WINDOW_MIN_LIMIT_FAST;
            }
        }
    }
}

/// Adjusting keeps the parameters valid. Neither the window nor its largest size
/// ever shrinks, the window grows by at most one, and it never exceeds the
/// largest window of all channels.
pub proof fn adjusting_widens_within_bounds(params: ChannelParams, rtt_nanos: u128)
    requires
        params.wf(),
        params.has_round_left(rtt_nanos),
    ensures
        params.adjusted(rtt_nanos).wf(),
        params.window <= params.adjusted(rtt_nanos).window <= params.window + 1,
        params.window_max <= params.adjusted(rtt_nanos).window_max,
        params.adjusted(rtt_nanos).window <= WINDOW_MAX,
        params.window < params.window_max ==> params.adjusted(rtt_nanos).window == params.window
            + 1,
{
}

/// As many fast rounds in a row as the threshold asks for, right after the
/// channel was opened or a slower round, let the window grow to its largest
/// size.
pub proof fn fast_rounds_raise_the_limit(params: ChannelParams, rtts: Seq<u128>)
    requires
        params.wf(),
        params.fast_rate_rounds == 0,
        rtts.len() == FAST_RATE_THRESHOLD,
        forall|i: int| 0 <= i < rtts.len() ==> fast_round(#[trigger] rtts[i]),
    ensures
        params.adjusted_all(rtts).window_max == WINDOW_MAX_FAST,
        params.adjusted_all(rtts).window_min == WINDOW_MIN_LIMIT_FAST,
{
    let before = params.adjusted_all(rtts.drop_last());
    fast_rounds_are_counted(params, rtts.drop_last());
    assert(before.fast_rounds_after(rtts.last()) == FAST_RATE_THRESHOLD);
}

/// As many rounds of medium speed as the threshold asks for, right after the
/// channel was opened or a slower round, let the window of a channel that was
/// slow grow to the size for medium speed.
pub proof fn medium_rounds_raise_the_limit(params: ChannelParams, rtts: Seq<u128>)
    requires
        params.wf(),
        params.window_max < WINDOW_MAX_MEDIUM,
        params.medium_rate_rounds == 0,
        rtts.len() == FAST_RATE_THRESHOLD,
        forall|i: int| 0 <= i < rtts.len() ==> medium_round(#[trigger] rtts[i]),
    ensures
        params.adjusted_all(rtts).window_max == WINDOW_MAX_MEDIUM,
        params.adjusted_all(rtts).window_min == WINDOW_MIN_LIMIT_MEDIUM,
{
    let before = params.adjusted_all(rtts.drop_last());
    medium_rounds_are_counted(params, rtts.drop_last());
    assert(before.medium_rounds_after(rtts.last()) == FAST_RATE_THRESHOLD);
}

proof fn medium_rounds_are_counted(params: ChannelParams, rtts: Seq<u128>)
    requires
        params.wf(),
        params.window_max < WINDOW_MAX_MEDIUM,
        params.medium_rate_rounds + rtts.len() < FAST_RATE_THRESHOLD,
        forall|i: int| 0 <= i < rtts.len() ==> medium_round(#[trigger] rtts[i]),
    ensures
        params.adjusted_all(rtts).wf(),
        params.adjusted_all(rtts).window_max == params.window_max,
        params.adjusted_all(rtts).medium_rate_rounds == params.medium_rate_rounds + rtts.len(),
    decreases rtts.len(),
{
    if rtts.len() > 0 {
        assert forall|i: int| 0 <= i < rtts.drop_last().len() implies medium_round(
            #[trigger] rtts.drop_last()[i],
        ) by {
            assert(rtts.drop_last()[i] == rtts[i]);
        }
        medium_rounds_are_counted(params, rtts.drop_last());
        adjusting_widens_within_bounds(params.adjusted_all(rtts.drop_last()), rtts.last());
    }
}

proof fn fast_rounds_are_counted(params: ChannelParams, rtts: Seq<u128>)
    requires
        params.wf(),
        params.fast_rate_rounds + rtts.len() <= u16::MAX,
        forall|i: int| 0 <= i < rtts.len() ==> fast_round(#[trigger] rtts[i]),
    ensures
        params.adjusted_all(rtts).wf(),
        params.adjusted_all(rtts).fast_rate_rounds == params.fast_rate_rounds + rtts.len(),
    decreases rtts.len(),
{
    if rtts.len() > 0 {
        assert forall|i: int| 0 <= i < rtts.drop_last().len() implies fast_round(
            #[trigger] rtts.drop_last()[i],
        ) by {
            assert(rtts.drop_last()[i] == rtts[i]);
        }
        fast_rounds_are_counted(params, rtts.drop_last());
        adjusting_widens_within_bounds(params.adjusted_all(rtts.drop_last()), rtts.last());
    }
}

/// What one more delivery does to the parameters, by the round trip time of the
/// link in nanoseconds. The window grows by one up to its limit. A fast round adds
/// to the fast ones, a medium one ends the run of fast ones and adds to the medium
/// ones, a slow one ends both, and one without a measured time counts neither way.
/// The tenth fast round raises the limits to 48 and 16, the tenth medium one to 12
/// and 5, unless they were as high before.
pub proof fn delivery_adjusts_parameters(params: ChannelParams, rtt_nanos: u128)
    requires
        0 < rtt_nanos <= 180_000_008 ==> params.fast_rate_rounds < 65535,
        180_000_008 < rtt_nanos <= 750_000_032 ==> params.medium_rate_rounds < 65535,
    ensures
        ({
            let after = params.adjusted(rtt_nanos);
            &&& after.max_tries == params.max_tries
            &&& params.window < params.window_max ==> after.window == params.window + 1
            &&& params.window >= params.window_max ==> after.window == params.window
            &&& rtt_nanos == 0 ==> {
                &&& after.fast_rate_rounds == params.fast_rate_rounds
                &&& after.medium_rate_rounds == params.medium_rate_rounds
                &&& after.window_max == params.window_max
                &&& after.window_min == params.window_min
            }
            &&& 0 < rtt_nanos <= 180_000_008 ==> {
                &&& after.fast_rate_rounds == params.fast_rate_rounds + 1
                &&& after.medium_rate_rounds == params.medium_rate_rounds
                &&& if params.fast_rate_rounds == 9 && params.window_max < 48 {
                    after.window_max == 48 && after.window_min == 16
                } else {
                    after.window_max == params.window_max && after.window_min == params.window_min
                }
            }
            &&& 180_000_008 < rtt_nanos <= 750_000_032 ==> {
                &&& after.fast_rate_rounds == 0
                &&& after.medium_rate_rounds == params.medium_rate_rounds + 1
                &&& if params.medium_rate_rounds == 9 && params.window_max < 12 {
                    after.window_max == 12 && after.window_min == 5
                } else {
                    after.window_max == params.window_max && after.window_min == params.window_min
                }
            }
            &&& 750_000_032 < rtt_nanos ==> {
                &&& after.fast_rate_rounds == 0
                &&& after.medium_rate_rounds == 0
                &&& after.window_max == params.window_max
                &&& after.window_min == params.window_min
            }
        }),
{
}

/// Only a counter that is full keeps the parameters from being adjusted, and only
/// at a round trip time that would add to it.
pub proof fn only_a_full_counter_stops_adjusting(params: ChannelParams, rtt_nanos: u128)
    ensures
        params.has_round_left(rtt_nanos) <==> !(0 < rtt_nanos <= 180_000_008
            && params.fast_rate_rounds == 65535) && !(180_000_008 < rtt_nanos <= 750_000_032
            && params.medium_rate_rounds == 65535),
{
}

/// A channel starts out slow exactly if the round trip takes longer than about 1.45
/// seconds.
pub proof fn long_round_trips_start_slow(rtt_nanos: u128, slow: bool)
    requires
        call_ensures(is_slow, (rtt_nanos,), slow),
    ensures
        slow <==> rtt_nanos > 1_450_000_111,
        slow <==> starts_slow(rtt_nanos),
{
}

} // verus!
