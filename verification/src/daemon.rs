//! The daemon's own state: its settings and the counter of heartbeats.

use crate::config::DaemonConfig;
use crate::model::{
    Event,
    EventBatch,
    EventKind,
    EventPayload,
    EventView,
    HeartbeatEvent,
    PayloadView,
};
use crate::wire::{synthetic_kill, synthetic_kill_of};
use vstd::prelude::*;

verus! {

/// Shared state for the daemon runtime.
#[derive(Debug, Clone)]
pub struct LiveDaemon {
    pub config: DaemonConfig,
    pub seq: u64,
}

/// The heartbeat with sequence number `seq` at time `ts`.
pub open spec fn heartbeat(seq: u64, ts: u64) -> EventView {
    EventView { kind: EventKind::Heartbeat, ts, payload: PayloadView::Heartbeat { seq } }
}

impl LiveDaemon {
    /// Constructs the daemon; no heartbeat has been counted yet.
    pub fn new(config: DaemonConfig) -> (res: LiveDaemon)
        ensures
            res.config == config,
            res.seq == 0,
    {
        LiveDaemon { config, seq: 0 }
    }

    /// The URL that the bootstrap routine probes: the active-player
    /// endpoint below the base URL as it is configured.
    pub fn metadata_url(&self) -> (res: String)
        ensures
            res@ == self.config.live_base_url@ + "/liveclientdata/activeplayer"@,
    {
        let mut url = self.config.live_base_url.clone();
        vstd::string::StringExecFns::append(&mut url, "/liveclientdata/activeplayer");
        url
    }

    /// The batch of the bootstrap routine: one heartbeat, which bears the
    /// next sequence number and the milliseconds that the routine took.
    pub fn bootstrap(&mut self, elapsed_ms: u64) -> (batch: EventBatch)
        requires
            old(self).seq < u64::MAX,
        ensures
            final(self).seq == old(self).seq + 1,
            final(self).config == old(self).config,
            batch@ == seq![heartbeat(final(self).seq, elapsed_ms)],
    {
        self.seq = self.seq + 1;
        let event = Event {
            kind: EventKind::Heartbeat,
            ts: elapsed_ms,
            payload: EventPayload::Heartbeat(HeartbeatEvent { seq: self.seq }),
        };
        let mut events: Vec<Event> = Vec::new();
        events.push(event);
        let batch = EventBatch { events };
        assert(batch@ =~= seq![heartbeat(self.seq, elapsed_ms)]);
        batch
    }

    /// The batch of the bootstrap routine, or none when the counter of
    /// heartbeats is exhausted.
    pub fn try_bootstrap(&mut self, elapsed_ms: u64) -> (batch: Option<EventBatch>)
        ensures
            final(self).config == old(self).config,
            match batch {
                Some(batch) => old(self).seq < u64::MAX && final(self).seq == old(self).seq + 1
                    && batch@ == seq![heartbeat(final(self).seq, elapsed_ms)],
                None => old(self).seq == u64::MAX && final(self).seq == old(self).seq,
            },
    {
        if self.seq < u64::MAX {
            Some(self.bootstrap(elapsed_ms))
        } else {
            None
        }
    }

    /// Constructs a synthetic kill event used by smoke tests.
    pub fn synthetic_kill(&self, summoner: &str) -> (res: Event)
        ensures
            res@ == synthetic_kill_of(summoner@),
    {
        synthetic_kill(summoner)
    }
}

} // verus!
