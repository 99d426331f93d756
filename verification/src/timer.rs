//! Timers. Starting one calls off the one before it.

use vstd::prelude::*;

use crate::config;
use crate::config::AppConfig;
use crate::error::HelperError;

verus! {

/// Counts the timers that were started or called off. A timer is valid while the count is the one it
/// was started with. The count goes on from zero after the largest number.
#[derive(Debug)]
pub struct TimerCount {
    pub count: u64,
}

/// The count after `n` more timers were started or called off.
pub open spec fn advanced(count: u64, n: nat) -> u64 {
    ((count + n) % 0x1_0000_0000_0000_0000) as u64
}

impl TimerCount {
    /// The count before the first timer.
    pub fn new() -> (r: Self)
        ensures
            r.count == 0,
    {
        TimerCount { count: 0 }
    }

    /// Starts a timer and calls off the one before it; the number tells whether it is still valid
    /// when its time has come. Without a duration nothing is started and nothing called off.
    pub fn start(&mut self, seconds: u32) -> (r: Option<u64>)
        ensures
            seconds == 0 ==> r is None && final(self).count == old(self).count,
            seconds > 0 ==> final(self).count == advanced(old(self).count, 1) && r == Some(
                final(self).count,
            ),
    {
        if seconds == 0 {
            return None;
        }
        self.cancel();
        Some(self.count)
    }

    /// Calls off the running timer.
    pub fn cancel(&mut self)
        ensures
            final(self).count == advanced(old(self).count, 1),
    {
        self.count = self.count.wrapping_add(1);
    }

    /// Whether the alarm is due for a timer whose time has come: no other was started since, and it
    /// was not called off.
    pub fn is_due(&self, number: u64) -> (r: bool)
        ensures
            r == (self.count == number),
    {
        self.count == number
    }
}

/// Starts the timer of the preset with an id. Gives its duration in seconds, 0 where it has none, and
/// the number that tells whether it is still valid when its time has come. Where no preset has the id,
/// or its timer has no duration, nothing is started and nothing called off.
pub fn start_timer(timers: &mut TimerCount, cfg: &AppConfig, id: &str) -> (r: Result<
    (u32, Option<u64>),
    HelperError,
>)
    ensures
        match config::preset_with_id(cfg@.presets, id@) {
            Some(p) => if p.timer_seconds == 0 {
                &&& r == Ok::<(u32, Option<u64>), HelperError>((0, None))
                &&& final(timers).count == old(timers).count
            } else {
                &&& r == Ok::<(u32, Option<u64>), HelperError>(
                    (p.timer_seconds, Some(final(timers).count)),
                )
                &&& final(timers).count == advanced(old(timers).count, 1)
            },
            None => {
                &&& r == Err::<(u32, Option<u64>), HelperError>(HelperError::PresetNotFound)
                &&& final(timers).count == old(timers).count
            },
        },
{
    match cfg.find_preset(id) {
        Some(i) => {
            assert(cfg@.presets[i as int] == cfg.presets@[i as int]@);
            let seconds = cfg.presets[i].timer_seconds;
            Ok((seconds, timers.start(seconds)))
        },
        None => Err(HelperError::PresetNotFound),
    }
}

/// A timer that was followed by another, or called off, is not due, however many more follow, as long
/// as the count has not come round.
pub proof fn law_only_the_last_timer_is_due(number: u64, n: nat)
    requires
        0 < n < 0x1_0000_0000_0000_0000,
    ensures
        advanced(number, n) != number,
{
}

/// Starting and calling off timers one by one adds up.
pub proof fn law_counts_add_up(count: u64, n: nat)
    ensures
        advanced(advanced(count, n), 1) == advanced(count, n + 1),
        advanced(count, 0) == count,
{
}

/// A timer more, started or called off, is one more in the count, and after the largest number comes
/// zero.
pub proof fn law_count_goes_up_by_one(count: u64)
    ensures
        count < u64::MAX ==> advanced(count, 1) == count + 1,
        advanced(u64::MAX, 1) == 0,
{
}

} // verus!
