//! The live poller's step: what one round of fetched responses does to the
//! registry, the digest and the governor, and the batch that it yields.

use crate::config::DaemonConfig;
use crate::differ::{lemma_views_concat, SnapshotView};
use crate::digest::{highwater_after, ingested, DigestState};
use crate::event_laws::lemma_poll_well_formed;
use crate::feed::{raw_views, RawEvent, RawView};
use crate::governor::{interval_of, may_follow, ActivityState, PollActivity};
use crate::model::{all_well_formed, event_views, Event, EventBatch, EventView};
use crate::order::{ordered, sort_by_ts, sorted_by_ts};
use crate::registry::{apply_events, registry_after, PlayerRegistry};
use crate::roster::{entry_views, EntryView, PlayerListEntry};
use crate::text::{append_chars, chars_of, lemma_trailing_is, trailing};
use vstd::prelude::*;
use vstd::string::StringExecFns;

verus! {

/// The 64-bit XXH3 hash of a sequence of bytes, with seed zero and the
/// default secret.
pub uninterp spec fn xxh3_of(bytes: Seq<u8>) -> u64;

/// Hashes a response body. Trusted: `xxhash_rust::xxh3::xxh3_64`, whose
/// result is a function of the bytes alone.
#[verifier::external_body]
pub(crate) fn content_hash(body: &[u8]) -> (hash: u64)
    ensures
        hash == xxh3_of(body@),
{
    xxhash_rust::xxh3::xxh3_64(body)
}

/// The body of a response, with its content hash.
#[derive(Debug)]
pub struct FetchResponse {
    pub hash: u64,
    pub body: Vec<u8>,
}

impl FetchResponse {
    /// Takes a response body and hashes it.
    pub fn new(body: Vec<u8>) -> (res: FetchResponse)
        ensures
            res.body == body,
            res.hash == xxh3_of(body@),
    {
        let hash = content_hash(body.as_slice());
        FetchResponse { hash, body }
    }
}

/// A response that was fetched: its content hash and, if its body could be
/// decoded, what it holds. What it holds is consulted only where the hash
/// differs from the one last seen.
#[derive(Debug)]
pub struct Fetched<T> {
    pub hash: u64,
    pub parsed: Option<T>,
}

/// What a poll makes of the answer of one endpoint.
pub enum Reading {
    /// The fetch failed.
    Unreachable,
    /// The content hash is the one last seen: the body is not read.
    Unchanged,
    /// The body is new but could not be decoded.
    Malformed,
    /// The body is new and was decoded.
    Changed,
}

/// What a poll makes of an answer, given the hash last seen.
pub open spec fn reading<T>(seen: Option<u64>, reply: Option<Fetched<T>>) -> Reading {
    match reply {
        None => Reading::Unreachable,
        Some(fetched) => if seen == Some(fetched.hash) {
            Reading::Unchanged
        } else if fetched.parsed is None {
            Reading::Malformed
        } else {
            Reading::Changed
        },
    }
}

/// The player list that an answer holds.
pub open spec fn list_of(reply: Option<Fetched<Vec<PlayerListEntry>>>) -> Seq<EntryView> {
    entry_views(reply->0.parsed->0@)
}

/// The event log that an answer holds.
pub open spec fn log_of(reply: Option<Fetched<Vec<RawEvent>>>) -> Seq<RawView> {
    raw_views(reply->0.parsed->0@)
}

/// Whether a poll fails: one of the two fetches failed, or a new body could
/// not be decoded.
pub open spec fn poll_fails(
    digest: DigestState,
    players: Option<Fetched<Vec<PlayerListEntry>>>,
    events: Option<Fetched<Vec<RawEvent>>>,
) -> bool {
    ||| players is None
    ||| events is None
    ||| reading(digest.players_hash, players) is Malformed
    ||| reading(digest.events_hash, events) is Malformed
}

/// Whether a poll applies the player list: both fetches succeeded, and the
/// list is new and was decoded.
pub open spec fn applies_list(
    digest: DigestState,
    players: Option<Fetched<Vec<PlayerListEntry>>>,
    events: Option<Fetched<Vec<RawEvent>>>,
) -> bool {
    events is Some && reading(digest.players_hash, players) is Changed
}

/// Whether a poll reads the event log: both fetches succeeded, the player
/// list did not fail to decode, and the log is new and was decoded.
pub open spec fn reads_log(
    digest: DigestState,
    players: Option<Fetched<Vec<PlayerListEntry>>>,
    events: Option<Fetched<Vec<RawEvent>>>,
) -> bool {
    &&& players is Some
    &&& !(reading(digest.players_hash, players) is Malformed)
    &&& reading(digest.events_hash, events) is Changed
}

/// The registry after a poll.
pub open spec fn registry_after_poll(
    digest: DigestState,
    prev: Seq<SnapshotView>,
    players: Option<Fetched<Vec<PlayerListEntry>>>,
    events: Option<Fetched<Vec<RawEvent>>>,
    now_ms: u64,
) -> Seq<SnapshotView> {
    if applies_list(digest, players, events) {
        registry_after(prev, list_of(players), now_ms)
    } else {
        prev
    }
}

/// The digest after a poll: the hash of the active-player answer if there
/// was one, the hashes of the list and the log where they were read, and
/// the highwater mark that reading the log leaves.
pub open spec fn digest_after_poll(
    digest: DigestState,
    active: Option<u64>,
    players: Option<Fetched<Vec<PlayerListEntry>>>,
    events: Option<Fetched<Vec<RawEvent>>>,
) -> DigestState {
    DigestState {
        active_hash: if active is Some {
            active
        } else {
            digest.active_hash
        },
        players_hash: if applies_list(digest, players, events) {
            Some(players->0.hash)
        } else {
            digest.players_hash
        },
        events_hash: if reads_log(digest, players, events) {
            Some(events->0.hash)
        } else {
            digest.events_hash
        },
        last_event_id: if reads_log(digest, players, events) {
            highwater_after(digest.last_event_id, log_of(events))
        } else {
            digest.last_event_id
        },
    }
}

/// The events that a poll produces before they are sorted: those of the
/// player list, then those of the event log, the players named by the log
/// being looked up in the registry as the list left it.
pub open spec fn produced(
    digest: DigestState,
    prev: Seq<SnapshotView>,
    players: Option<Fetched<Vec<PlayerListEntry>>>,
    events: Option<Fetched<Vec<RawEvent>>>,
    now_ms: u64,
) -> Seq<EventView> {
    let from_list = if applies_list(digest, players, events) {
        apply_events(prev, list_of(players), now_ms)
    } else {
        Seq::empty()
    };
    let from_log = if reads_log(digest, players, events) {
        ingested(
            digest.last_event_id,
            log_of(events),
            registry_after_poll(digest, prev, players, events, now_ms),
        )
    } else {
        Seq::empty()
    };
    from_list + from_log
}

/// The batch of a poll: nothing if the poll fails, else what it produced,
/// sorted by timestamp.
pub open spec fn poll_events(
    digest: DigestState,
    prev: Seq<SnapshotView>,
    players: Option<Fetched<Vec<PlayerListEntry>>>,
    events: Option<Fetched<Vec<RawEvent>>>,
    now_ms: u64,
) -> Seq<EventView> {
    if poll_fails(digest, players, events) {
        Seq::empty()
    } else {
        sorted_by_ts(produced(digest, prev, players, events, now_ms))
    }
}

/// What one poll yields: the batch, and the delay in milliseconds before
/// the next poll.
#[derive(Debug)]
pub struct PollOutcome {
    pub events: Vec<Event>,
    pub next_delay: u64,
}

impl PollOutcome {
    /// The outcome of a poll that yields nothing.
    pub fn idle(delay: u64) -> (res: PollOutcome)
        ensures
            res.events@.len() == 0,
            res.next_delay == delay,
    {
        PollOutcome { events: Vec::new(), next_delay: delay }
    }

    /// The batch to publish: the events of the poll, or none where the poll
    /// yielded no event. An empty batch is never published.
    pub fn into_batch(self) -> (res: Option<EventBatch>)
        ensures
            match res {
                Some(batch) => self.events@.len() > 0 && batch.events == self.events,
                None => self.events@.len() == 0,
            },
    {
        if self.events.len() == 0 {
            None
        } else {
            Some(EventBatch { events: self.events })
        }
    }
}

/// An answer whose status tells of no success, with the URL that was asked
/// for.
#[derive(Debug, Clone, PartialEq, Eq)]
pub struct HttpStatusError {
    pub url: String,
    pub status: u16,
}

/// Whether a status tells of success: it lies from 200 to 299.
pub open spec fn is_success(status: u16) -> bool {
    200 <= status <= 299
}

/// Judges the status of an answer: a status from 200 to 299 is accepted,
/// any other is refused with the URL and the status.
pub fn check_status(url: &str, status: u16) -> (res: Result<(), HttpStatusError>)
    ensures
        match res {
            Ok(_) => is_success(status),
            Err(error) => !is_success(status) && error.url@ == url@ && error.status == status,
        },
{
    if 200 <= status && status <= 299 {
        Ok(())
    } else {
        Err(HttpStatusError { url: url.to_owned(), status })
    }
}

/// The URLs of the three endpoints that a poll fetches.
#[derive(Debug)]
pub struct Endpoints {
    pub active_player: String,
    pub player_list: String,
    pub event_data: String,
}

/// A base URL without its trailing slashes.
pub open spec fn without_trailing_slashes(base: Seq<char>) -> Seq<char> {
    base.take(base.len() - trailing(base, |c: char| c == '/'))
}

/// The URL of an endpoint below a base URL.
pub open spec fn endpoint_url(base: Seq<char>, path: Seq<char>) -> Seq<char> {
    without_trailing_slashes(base) + path
}

/// Composes the URLs of the three endpoints from the base URL.
pub fn live_endpoints(base_url: &str) -> (res: Endpoints)
    ensures
        res.active_player@ == endpoint_url(base_url@, "/liveclientdata/activeplayer"@),
        res.player_list@ == endpoint_url(base_url@, "/liveclientdata/playerlist"@),
        res.event_data@ == endpoint_url(base_url@, "/liveclientdata/eventdata"@),
{
    let chars = chars_of(base_url);
    let mut end: usize = chars.len();
    while end > 0 && chars[end - 1] == '/'
        invariant
            0 <= end <= chars.len(),
            forall|i: int| end <= i < chars.len() ==> #[trigger] chars@[i] == '/',
        decreases end,
    {
        end = end - 1;
    }
    proof {
        lemma_trailing_is(chars@, |c: char| c == '/', (chars.len() - end) as nat);
        assert(chars@.subrange(0, end as int) == without_trailing_slashes(base_url@));
    }
    let mut active_player = String::new();
    append_chars(&mut active_player, &chars, 0, end);
    active_player.append("/liveclientdata/activeplayer");
    let mut player_list = String::new();
    append_chars(&mut player_list, &chars, 0, end);
    player_list.append("/liveclientdata/playerlist");
    let mut event_data = String::new();
    append_chars(&mut event_data, &chars, 0, end);
    event_data.append("/liveclientdata/eventdata");
    Endpoints { active_player, player_list, event_data }
}

/// The state that the live poller carries from poll to poll.
pub struct PollContext {
    pub config: DaemonConfig,
    pub digest: DigestState,
    pub players: PlayerRegistry,
    pub activity: ActivityState,
}

impl PollContext {
    /// The state before the first poll: nothing seen, an empty registry, an
    /// idle governor.
    pub fn new(config: DaemonConfig) -> (res: PollContext)
        ensures
            res.config == config,
            res.digest == (DigestState {
                active_hash: None,
                players_hash: None,
                events_hash: None,
                last_event_id: None,
            }),
            res.players@ == Seq::<SnapshotView>::empty(),
            res.activity.level == PollActivity::Idle,
    {
        PollContext {
            config,
            digest: DigestState::default(),
            players: PlayerRegistry::default(),
            activity: ActivityState::default(),
        }
    }

    /// The URLs that a poll fetches.
    pub fn endpoints(&self) -> (res: Endpoints)
        ensures
            res.active_player@ == endpoint_url(
                self.config.live_base_url@,
                "/liveclientdata/activeplayer"@,
            ),
            res.player_list@ == endpoint_url(
                self.config.live_base_url@,
                "/liveclientdata/playerlist"@,
            ),
            res.event_data@ == endpoint_url(
                self.config.live_base_url@,
                "/liveclientdata/eventdata"@,
            ),
    {
        live_endpoints(self.config.live_base_url.as_str())
    }

    /// Whether a player list of this content hash would be read.
    pub fn players_changed(&self, hash: u64) -> (res: bool)
        ensures
            res == (self.digest.players_hash != Some(hash)),
    {
        match self.digest.players_hash {
            Some(seen) => seen != hash,
            None => true,
        }
    }

    /// Whether an event log of this content hash would be read.
    pub fn events_changed(&self, hash: u64) -> (res: bool)
        ensures
            res == (self.digest.events_hash != Some(hash)),
    {
        match self.digest.events_hash {
            Some(seen) => seen != hash,
            None => true,
        }
    }

    /// Takes note of a failed poll and returns its outcome.
    fn fail(&mut self) -> (outcome: PollOutcome)
        ensures
            outcome.events@.len() == 0,
            outcome.next_delay == old(self).config.error_backoff,
            final(self).activity.level == PollActivity::Idle,
            final(self).config == old(self).config,
            final(self).digest == old(self).digest,
            final(self).players == old(self).players,
    {
        let delay = self.activity.on_error(&self.config);
        PollOutcome::idle(delay)
    }

    /// One poll. `active` is the content hash of the active-player answer,
    /// `players` and `events` are the answers of the player list and of the
    /// event log, each `None` where the fetch failed; `now_ms` is the
    /// timestamp that the events of the player list bear.
    ///
    /// A poll fails if one of the two fetches failed or a new body could not
    /// be decoded: it then yields nothing, the governor falls to idle and
    /// the delay is the error backoff. Otherwise the batch holds the events of
    /// the list and of the log, sorted by timestamp, and the governor sets
    /// the delay by whether the batch is empty.
    pub fn poll_once(
        &mut self,
        active: Option<u64>,
        players: Option<Fetched<Vec<PlayerListEntry>>>,
        events: Option<Fetched<Vec<RawEvent>>>,
        now_ms: u64,
    ) -> (outcome: PollOutcome)
        ensures
            final(self).config == old(self).config,
            final(self).digest == digest_after_poll(old(self).digest, active, players, events),
            final(self).players@ == registry_after_poll(
                old(self).digest,
                old(self).players@,
                players,
                events,
                now_ms,
            ),
            event_views(outcome.events@) == poll_events(
                old(self).digest,
                old(self).players@,
                players,
                events,
                now_ms,
            ),
            ordered(event_views(outcome.events@)),
            all_well_formed(event_views(outcome.events@)),
            poll_fails(old(self).digest, players, events) ==> final(self).activity.level
                == PollActivity::Idle && outcome.next_delay == old(self).config.error_backoff,
            !poll_fails(old(self).digest, players, events) ==> outcome.next_delay == interval_of(
                final(self).activity.level,
                old(self).config,
            ) && may_follow(
                old(self).activity.level,
                outcome.events@.len() > 0,
                final(self).activity.level,
                old(self).config,
            ),
            !poll_fails(old(self).digest, players, events) && outcome.events@.len() > 0
                ==> outcome.next_delay == old(self).config.poll_interval_combat,
    {
        proof {
            lemma_poll_well_formed(self.digest, self.players@, players, events, now_ms);
        }
        if let Some(hash) = active {
            self.digest.active_hash = Some(hash);
        }
        let ghost digest = old(self).digest;
        let ghost prev = old(self).players@;
        let (players, events) = match (players, events) {
            (Some(players), Some(events)) => (players, events),
            _ => {
                assert(event_views(Seq::<Event>::empty()) =~= Seq::<EventView>::empty());
                return self.fail();
            },
        };
        let mut batch: Vec<Event> = Vec::new();
        assert(event_views(batch@) =~= Seq::<EventView>::empty());
        if self.players_changed(players.hash) {
            match players.parsed {
                Some(list) => {
                    let mut diff = self.players.apply(list, now_ms);
                    proof {
                        lemma_views_concat(batch@, diff@);
                    }
                    batch.append(&mut diff);
                    self.digest.players_hash = Some(players.hash);
                },
                None => {
                    assert(event_views(Seq::<Event>::empty()) =~= Seq::<EventView>::empty());
                    return self.fail();
                },
            }
        }
        let ghost from_list = event_views(batch@);
        if self.events_changed(events.hash) {
            match events.parsed {
                Some(log) => {
                    let mut news = self.digest.ingest(log, &self.players);
                    proof {
                        lemma_views_concat(batch@, news@);
                    }
                    batch.append(&mut news);
                    self.digest.events_hash = Some(events.hash);
                },
                None => {
                    assert(event_views(Seq::<Event>::empty()) =~= Seq::<EventView>::empty());
                    return self.fail();
                },
            }
        } else {
            assert(from_list + Seq::<EventView>::empty() == from_list);
        }
        let sorted = sort_by_ts(batch);
        let next_delay = self.activity.on_poll(sorted.len() > 0, &self.config);
        PollOutcome { events: sorted, next_delay }
    }
}

} // verus!
