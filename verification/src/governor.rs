//! The activity governor: a three-state machine that sets the delay before
//! the next poll.

use crate::clock::{millis_to_u64, monotonic_now, time_between, whole_millis};
use crate::config::DaemonConfig;
use std::time::Instant;
use vstd::prelude::*;

verus! {

/// How busy the game was at the last polls.
#[derive(Debug, Clone, Copy, PartialEq, Eq, Structural)]
pub enum PollActivity {
    Combat,
    Normal,
    Idle,
}

impl Default for PollActivity {
    fn default() -> (res: PollActivity)
        ensures
            res == PollActivity::Idle,
    {
        PollActivity::Idle
    }
}

/// The governor's state: the activity level, and the instant at which it
/// was last set or confirmed by activity.
#[derive(Debug, Clone, Copy)]
pub struct ActivityState {
    pub level: PollActivity,
    pub last_activity: Instant,
}

/// The level after a poll, given the level before it, whether the poll
/// produced events, and the milliseconds since the last activity: activity
/// sets combat; without activity, combat falls to normal once the combat
/// cooldown has passed, and normal to idle once the idle cooldown has.
pub open spec fn next_level(
    level: PollActivity,
    had_activity: bool,
    idle_ms: u64,
    config: DaemonConfig,
) -> PollActivity {
    if had_activity {
        PollActivity::Combat
    } else {
        match level {
            PollActivity::Combat => if idle_ms >= config.combat_cooldown {
                PollActivity::Normal
            } else {
                PollActivity::Combat
            },
            PollActivity::Normal => if idle_ms >= config.idle_cooldown {
                PollActivity::Idle
            } else {
                PollActivity::Normal
            },
            PollActivity::Idle => PollActivity::Idle,
        }
    }
}

/// Whether a poll restarts the measure of time since the last activity: it
/// had activity, or it changed the level.
pub open spec fn restarts_measure(
    level: PollActivity,
    had_activity: bool,
    idle_ms: u64,
    config: DaemonConfig,
) -> bool {
    had_activity || next_level(level, had_activity, idle_ms, config) != level
}

/// Whether a poll can lead from `level` to `next`, for some reading of the
/// clock.
pub open spec fn may_follow(
    level: PollActivity,
    had_activity: bool,
    next: PollActivity,
    config: DaemonConfig,
) -> bool {
    exists|idle_ms: u64| next == #[trigger] next_level(level, had_activity, idle_ms, config)
}

/// The poll interval that is bound to a level.
pub open spec fn interval_of(level: PollActivity, config: DaemonConfig) -> u64 {
    match level {
        PollActivity::Combat => config.poll_interval_combat,
        PollActivity::Normal => config.poll_interval_normal,
        PollActivity::Idle => config.poll_interval_idle,
    }
}

impl Default for ActivityState {
    fn default() -> (res: ActivityState)
        ensures
            res.level == PollActivity::Idle,
    {
        ActivityState { level: PollActivity::Idle, last_activity: monotonic_now() }
    }
}

impl ActivityState {
    /// Evaluates one poll that ended at `now`, `idle_ms` milliseconds after
    /// the last activity, and returns the delay before the next poll.
    pub fn on_poll_after(
        &mut self,
        had_activity: bool,
        idle_ms: u64,
        now: Instant,
        config: &DaemonConfig,
    ) -> (delay: u64)
        ensures
            final(self).level == next_level(old(self).level, had_activity, idle_ms, *config),
            final(self).last_activity == (if restarts_measure(
                old(self).level,
                had_activity,
                idle_ms,
                *config,
            ) {
                now
            } else {
                old(self).last_activity
            }),
            delay == interval_of(final(self).level, *config),
    {
        if had_activity {
            self.level = PollActivity::Combat;
            self.last_activity = now;
        } else {
            match self.level {
                PollActivity::Combat => {
                    if idle_ms >= config.combat_cooldown {
                        self.level = PollActivity::Normal;
                        self.last_activity = now;
                    }
                },
                PollActivity::Normal => {
                    if idle_ms >= config.idle_cooldown {
                        self.level = PollActivity::Idle;
                        self.last_activity = now;
                    }
                },
                PollActivity::Idle => {},
            }
        }
        match self.level {
            PollActivity::Combat => config.poll_interval_combat,
            PollActivity::Normal => config.poll_interval_normal,
            PollActivity::Idle => config.poll_interval_idle,
        }
    }

    /// Evaluates one poll at the present instant and returns the delay
    /// before the next poll. A poll that produced events sets combat; what a
    /// poll without events does depends on the time read from the clock.
    pub fn on_poll(&mut self, had_activity: bool, config: &DaemonConfig) -> (delay: u64)
        ensures
            may_follow(old(self).level, had_activity, final(self).level, *config),
            had_activity ==> final(self).level == PollActivity::Combat && delay
                == config.poll_interval_combat,
            delay == interval_of(final(self).level, *config),
    {
        let now = monotonic_now();
        let elapsed = time_between(&now, &self.last_activity);
        let idle_ms = millis_to_u64(whole_millis(&elapsed));
        self.on_poll_after(had_activity, idle_ms, now, config)
    }

    /// Takes note of a poll that failed at `now`: the level falls to idle,
    /// the time since the last activity is measured from `now`, and the
    /// delay is the error backoff.
    pub fn on_error_at(&mut self, now: Instant, config: &DaemonConfig) -> (delay: u64)
        ensures
            final(self).level == PollActivity::Idle,
            final(self).last_activity == now,
            delay == config.error_backoff,
    {
        self.level = PollActivity::Idle;
        self.last_activity = now;
        config.error_backoff
    }

    /// Takes note of a poll that failed at the present instant: the level
    /// falls to idle, and the delay is the error backoff.
    pub fn on_error(&mut self, config: &DaemonConfig) -> (delay: u64)
        ensures
            final(self).level == PollActivity::Idle,
            delay == config.error_backoff,
    {
        let now = monotonic_now();
        self.on_error_at(now, config)
    }
}

/// A poll that produced events is followed by the combat interval, whatever
/// the state and the clock.
pub proof fn lemma_activity_polls_fast(level: PollActivity, idle_ms: u64, config: DaemonConfig)
    ensures
        interval_of(next_level(level, true, idle_ms, config), config)
            == config.poll_interval_combat,
{
}

/// A poll without events that follows a combat poll keeps the combat
/// interval until the combat cooldown has passed since the last activity,
/// and is followed by the normal interval from then on.
pub proof fn lemma_combat_cools_down(idle_ms: u64, config: DaemonConfig)
    ensures
        idle_ms < config.combat_cooldown ==> interval_of(
            next_level(PollActivity::Combat, false, idle_ms, config),
            config,
        ) == config.poll_interval_combat,
        idle_ms >= config.combat_cooldown ==> interval_of(
            next_level(PollActivity::Combat, false, idle_ms, config),
            config,
        ) == config.poll_interval_normal,
{
}

} // verus!
