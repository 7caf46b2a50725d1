//! The daemon's settings.

use vstd::prelude::*;
use vstd::string::StringExecFns;

verus! {

/// Configuration passed to the daemon when bootstrapping. Every duration is
/// in milliseconds.
#[derive(Debug, Clone)]
pub struct DaemonConfig {
    /// Reserved for periodic heartbeats.
    pub heartbeat_interval: u64,
    /// Base URL of the live client data service; a trailing slash is
    /// tolerated.
    pub live_base_url: String,
    /// Interval used while the player is in combat or high activity.
    pub poll_interval_combat: u64,
    /// Interval used for normal gameplay moments.
    pub poll_interval_normal: u64,
    /// Interval used while the game is idle or in low activity.
    pub poll_interval_idle: u64,
    /// Cooldown before downgrading from combat to normal.
    pub combat_cooldown: u64,
    /// Cooldown before downgrading from normal activity to idle.
    pub idle_cooldown: u64,
    /// Backoff used when the live client endpoints cannot be reached.
    pub error_backoff: u64,
    /// Optional override pointing at the client lockfile.
    pub lcu_lockfile: Option<String>,
    /// Interval used while the lockfile is missing.
    pub lcu_discovery_interval: u64,
    /// Delay before reconnecting after a websocket disconnect.
    pub lcu_retry_delay: u64,
}

impl Default for DaemonConfig {
    fn default() -> (res: DaemonConfig)
        ensures
            res.heartbeat_interval == 1000,
            res.live_base_url@ == "https://127.0.0.1:2999"@,
            res.poll_interval_combat == 150,
            res.poll_interval_normal == 750,
            res.poll_interval_idle == 1500,
            res.combat_cooldown == 5000,
            res.idle_cooldown == 20000,
            res.error_backoff == 1000,
            res.lcu_lockfile is None,
            res.lcu_discovery_interval == 1000,
            res.lcu_retry_delay == 2000,
    {
        DaemonConfig {
            heartbeat_interval: 1000,
            live_base_url: String::from_str("https://127.0.0.1:2999"),
            poll_interval_combat: 150,
            poll_interval_normal: 750,
            poll_interval_idle: 1500,
            combat_cooldown: 5000,
            idle_cooldown: 20000,
            error_backoff: 1000,
            lcu_lockfile: None,
            lcu_discovery_interval: 1000,
            lcu_retry_delay: 2000,
        }
    }
}

} // verus!
