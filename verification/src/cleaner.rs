//! Per-channel scheduled-cleanup countdown. Each configured channel counts
//! down one minute per tick; a warning is broadcast on the single tick where
//! the countdown meets the configured warning time, and when it reaches zero
//! the channel is purged and the countdown resets to the full cycle.

use vstd::prelude::*;

verus! {

/// A scheduled-cleanup configuration for one channel, as the store keeps it.
/// `time_between_cleans` is in hours; the other two fields are in minutes.
#[derive(Debug, Clone)]
pub struct CleanConfig {
    pub guild_id: u64,
    pub channel_name: String,
    pub time_between_cleans: i64,
    pub warning_time: i64,
    pub remaining_time: i64,
}

/// What one tick of the countdown asks the surrounding process to do.
#[derive(Debug, Clone, Copy, PartialEq, Eq, Structural)]
pub struct TickEffects {
    /// Broadcast the pre-clean warning to the channel.
    pub warn: bool,
    /// Purge the channel's recent messages and announce completion.
    pub purge: bool,
}

/// The full cycle length of a configuration, in minutes.
pub open spec fn cycle_minutes(time_between_cleans: int) -> int {
    time_between_cleans * 60
}

impl CleanConfig {
    /// Machine bounds under which a tick can be computed exactly: the
    /// decrement cannot underflow and the reset value fits in the field.
    pub open spec fn tickable(&self) -> bool {
        &&& self.remaining_time > i64::MIN
        &&& -153_722_867_280_912_930 <= self.time_between_cleans <= 153_722_867_280_912_930
    }

    /// A freshly administered configuration: `hours` between cleans, a
    /// warning `warning_minutes` before each clean, countdown started at the
    /// full cycle.
    pub fn new(guild_id: u64, channel_name: String, hours: i64, warning_minutes: i64) -> (cfg:
        CleanConfig)
        requires
            valid_clean_params_spec(hours as int, warning_minutes as int),
        ensures
            cfg.guild_id == guild_id,
            cfg.channel_name == channel_name,
            cfg.time_between_cleans == hours,
            cfg.warning_time == warning_minutes,
            cfg.remaining_time == cycle_minutes(hours as int),
            cfg.tickable(),
    {
        proof {
            lemma_valid_params_cycle_fits(hours as int, warning_minutes as int);
        }
        CleanConfig {
            guild_id,
            channel_name,
            time_between_cleans: hours,
            warning_time: warning_minutes,
            remaining_time: hours * 60,
        }
    }

    /// One tick of the countdown: the remaining time falls by exactly one
    /// minute; the warning fires exactly on the tick where it meets
    /// `warning_time`; at zero the channel is purged and the countdown
    /// resets to the full cycle.
    pub fn tick(&mut self) -> (fx: TickEffects)
        requires
            old(self).tickable(),
        ensures
            fx.warn == (old(self).remaining_time - 1 == old(self).warning_time),
            fx.purge == (old(self).remaining_time - 1 <= 0),
            final(self).guild_id == old(self).guild_id,
            final(self).channel_name == old(self).channel_name,
            final(self).time_between_cleans == old(self).time_between_cleans,
            final(self).warning_time == old(self).warning_time,
            final(self).remaining_time == next_remaining(
                old(self).remaining_time as int,
                cycle_minutes(old(self).time_between_cleans as int),
            ),
    {
        let new_remaining = self.remaining_time - 1;
        let warn = new_remaining == self.warning_time;
        if new_remaining <= 0 {
            proof {
                assert(i64::MIN <= self.time_between_cleans * 60 <= i64::MAX) by (nonlinear_arith)
                    requires
                        -153_722_867_280_912_930 <= self.time_between_cleans
                            <= 153_722_867_280_912_930,
                ;
            }
            self.remaining_time = self.time_between_cleans * 60;
            TickEffects { warn, purge: true }
        } else {
            self.remaining_time = new_remaining;
            TickEffects { warn, purge: false }
        }
    }

    /// Postpone the next clean by five minutes, as the channel command does.
    pub fn delay(&mut self)
        requires
            old(self).remaining_time <= i64::MAX - 5,
        ensures
            final(self).remaining_time == old(self).remaining_time + 5,
            final(self).guild_id == old(self).guild_id,
            final(self).channel_name == old(self).channel_name,
            final(self).time_between_cleans == old(self).time_between_cleans,
            final(self).warning_time == old(self).warning_time,
    {
        self.remaining_time = self.remaining_time + 5;
    }
}

/// The countdown after one tick from `remaining`, in a cycle of the given
/// length: down one minute, or back to the full cycle once it ran out.
pub open spec fn next_remaining(remaining: int, cycle: int) -> int {
    if remaining - 1 <= 0 {
        cycle
    } else {
        remaining - 1
    }
}

/// How many of the next `k` ticks warn, counting down from `remaining` in a
/// cycle of the given length.
pub open spec fn warns_within(remaining: int, cycle: int, warning: int, k: nat) -> nat
    decreases k,
{
    if k == 0 {
        0
    } else {
        (if remaining - 1 == warning {
            1nat
        } else {
            0nat
        }) + warns_within(next_remaining(remaining, cycle), cycle, warning, (k - 1) as nat)
    }
}

/// Over one full cycle the warning fires on exactly one tick, provided the
/// warning time lies strictly between zero and the cycle length. (At or
/// past the cycle length it can never be met by the countdown.)
pub proof fn lemma_warning_fires_once_per_cycle(cycle: int, warning: int)
    requires
        0 < warning < cycle,
    ensures
        warns_within(cycle, cycle, warning, cycle as nat) == 1,
{
    lemma_warns_counted_down(cycle, cycle, warning, cycle);
}

/// Counting down from `r`, the next `r` ticks warn exactly once if the
/// warning time lies below `r`, and never otherwise.
proof fn lemma_warns_counted_down(r: int, cycle: int, warning: int, k: int)
    requires
        0 < warning < cycle,
        0 < r <= cycle,
        k == r,
    ensures
        warns_within(r, cycle, warning, k as nat) == if warning < r {
            1int
        } else {
            0int
        },
    decreases r,
{
    if r == 1 {
        assert(next_remaining(1, cycle) == cycle);
        assert(warns_within(r, cycle, warning, k as nat) == (if r - 1 == warning {
            1nat
        } else {
            0nat
        }) + warns_within(cycle, cycle, warning, (k - 1) as nat));
        assert(warns_within(cycle, cycle, warning, 0) == 0);
    } else {
        lemma_warns_counted_down(r - 1, cycle, warning, k - 1);
        assert(next_remaining(r, cycle) == r - 1);
        assert(warns_within(r, cycle, warning, k as nat) == (if r - 1 == warning {
            1nat
        } else {
            0nat
        }) + warns_within(r - 1, cycle, warning, (k - 1) as nat));
    }
}

/// The bounds an administrator's request must meet: at least one hour
/// between cleans, a cycle that fits the countdown field, and a warning at
/// least a minute before the clean but strictly inside the cycle.
pub open spec fn valid_clean_params_spec(hours: int, warning_minutes: int) -> bool {
    &&& hours >= 1
    &&& hours <= i64::MAX / 60
    &&& warning_minutes >= 1
    &&& warning_minutes < cycle_minutes(hours)
}

/// Valid parameters keep the full cycle positive and within the field.
proof fn lemma_valid_params_cycle_fits(hours: int, warning_minutes: int)
    requires
        valid_clean_params_spec(hours, warning_minutes),
    ensures
        0 < cycle_minutes(hours) <= i64::MAX,
{
    assert(60 <= hours * 60 <= 153_722_867_280_912_930 * 60) by (nonlinear_arith)
        requires
            1 <= hours <= 153_722_867_280_912_930,
    ;
}

/// Decide whether an administrator's cleanup request is acceptable.
pub fn valid_clean_params(hours: i64, warning_minutes: i64) -> (ok: bool)
    ensures
        ok == valid_clean_params_spec(hours as int, warning_minutes as int),
{
    if hours < 1 || warning_minutes < 1 {
        return false;
    }
    if hours > i64::MAX / 60 {
        return false;
    }
    proof {
        lemma_valid_params_cycle_fits_weak(hours as int);
    }
    warning_minutes < hours * 60
}

/// The cycle of any in-range hour count fits the field.
proof fn lemma_valid_params_cycle_fits_weak(hours: int)
    requires
        1 <= hours <= i64::MAX / 60,
    ensures
        0 < hours * 60 <= i64::MAX,
{
    assert(60 <= hours * 60 <= 153_722_867_280_912_930 * 60) by (nonlinear_arith)
        requires
            1 <= hours <= 153_722_867_280_912_930,
    ;
}

} // verus!
