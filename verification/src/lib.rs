//! An observer of a running game client: turns the client's polled live
//! data and its phase announcements into one stream of typed events.

pub mod clock;
pub mod codec;
pub mod codec_laws;
pub mod config;
pub mod daemon;
pub mod differ;
pub mod digest;
pub mod digest_laws;
pub mod event_laws;
pub mod feed;
pub mod governor;
pub mod json;
pub mod lockfile;
pub mod model;
pub mod order;
pub mod paths;
pub mod phase;
pub mod poller;
pub mod poller_laws;
pub mod registry;
pub mod registry_laws;
pub mod roster;
pub mod text;
pub mod watcher;
pub mod wire;

pub use config::DaemonConfig;
pub use daemon::LiveDaemon;
pub use model::{
    AbilitySlot, Event, EventBatch, EventKind, EventPayload, GoldEvent, HeartbeatEvent, ItemEvent,
    LevelEvent, PhaseEvent, PlayerEvent, PlayerRef, Team, TimestampMs,
};
