//! The event-log deduplicator: keeps the raw events that are newer than the
//! highwater mark, detects a restarted game, and normalizes what is kept
//! into typed events.

use crate::differ::lemma_views_push;
use crate::event_laws::lemma_normalized_well_formed;
use crate::model::{
    all_well_formed, event_views, Event, EventKind, EventView, PayloadView, PlayerRef, PlayerRefView, Team,
};
use crate::differ::SnapshotView;
use crate::registry::{knows, snapshot_for, PlayerRegistry};
use crate::text::text_eq;
use vstd::prelude::*;

verus! {

/// One entry of the live client's event log. The time on the game clock is
/// carried in whole milliseconds, rounded to the nearest, with negative and
/// non-finite times as zero; whether the time lies under five seconds is
/// carried beside it, because rounding would blur that bound.
#[derive(Debug, Clone)]
pub struct RawEvent {
    pub event_id: u64,
    pub event_name: String,
    pub event_time_ms: u64,
    pub in_opening: bool,
    pub killer_name: Option<String>,
    pub victim_name: Option<String>,
    pub assisters: Vec<String>,
    pub summoner_name: Option<String>,
    pub level: Option<u32>,
    pub item_id: Option<u32>,
    pub item_name: Option<String>,
}

/// What a [`RawEvent`] stands for, as far as the deduplicator reads it.
pub struct RawView {
    pub event_id: u64,
    pub event_name: Seq<char>,
    pub event_time_ms: u64,
    pub in_opening: bool,
    pub killer_name: Option<Seq<char>>,
    pub victim_name: Option<Seq<char>>,
    pub assisters: Seq<Seq<char>>,
    pub summoner_name: Option<Seq<char>>,
}

/// The texts of a sequence of strings, in order.
pub open spec fn texts(names: Seq<String>) -> Seq<Seq<char>> {
    names.map_values(|name: String| name@)
}

impl View for RawEvent {
    type V = RawView;

    open spec fn view(&self) -> RawView {
        RawView {
            event_id: self.event_id,
            event_name: self.event_name@,
            event_time_ms: self.event_time_ms,
            in_opening: self.in_opening,
            killer_name: crate::model::opt_text(self.killer_name),
            victim_name: crate::model::opt_text(self.victim_name),
            assisters: texts(self.assisters@),
            summoner_name: crate::model::opt_text(self.summoner_name),
        }
    }
}

/// The views of a sequence of raw events, in order.
pub open spec fn raw_views(raws: Seq<RawEvent>) -> Seq<RawView> {
    raws.map_values(|raw: RawEvent| raw@)
}

/// The names of the game phases that the event log announces.
pub open spec fn is_phase_name(name: Seq<char>) -> bool {
    ||| name == "GameStart"@
    ||| name == "MinionsSpawning"@
    ||| name == "FirstBrick"@
    ||| name == "FirstBlood"@
    ||| name == "TurretKilled"@
    ||| name == "InhibKilled"@
    ||| name == "InhibRespawningSoon"@
    ||| name == "InhibRespawned"@
    ||| name == "DragonKill"@
    ||| name == "HeraldKill"@
    ||| name == "BaronKill"@
    ||| name == "GameEnd"@
    ||| name == "Ace"@
}

/// Whether an event name announces a game phase.
pub fn is_phase_change(name: &str) -> (res: bool)
    ensures
        res == is_phase_name(name@),
{
    text_eq(name, "GameStart") || text_eq(name, "MinionsSpawning") || text_eq(name, "FirstBrick")
        || text_eq(name, "FirstBlood") || text_eq(name, "TurretKilled") || text_eq(
        name,
        "InhibKilled",
    ) || text_eq(name, "InhibRespawningSoon") || text_eq(name, "InhibRespawned") || text_eq(
        name,
        "DragonKill",
    ) || text_eq(name, "HeraldKill") || text_eq(name, "BaronKill") || text_eq(name, "GameEnd")
        || text_eq(name, "Ace")
}

/// The names of a kill.
pub open spec fn is_kill_name(name: Seq<char>) -> bool {
    name == "ChampionKill"@ || name == "ChampionSpecialKill"@
}

/// The names of the events that the snapshot differ covers, which the
/// deduplicator passes over.
pub open spec fn is_covered_name(name: Seq<char>) -> bool {
    ||| name == "LevelUp"@
    ||| name == "ItemPurchased"@
    ||| name == "ItemDestroyed"@
    ||| name == "ItemSold"@
    ||| name == "ItemUndo"@
}

/// The reference of a player that the registry does not know: neutral, in
/// slot zero.
pub open spec fn neutral_ref(name: Seq<char>) -> PlayerRefView {
    PlayerRefView { summoner_name: name, team: Team::Neutral, slot: 0 }
}

/// The reference under which an event names a player: the registry's, or the
/// neutral one for a name that the registry does not know.
pub open spec fn resolved(players: Seq<SnapshotView>, name: Seq<char>) -> PlayerRefView {
    if knows(players, name) {
        snapshot_for(players, name).reference
    } else {
        neutral_ref(name)
    }
}

/// A neutral stand-in for a player that the registry does not know.
pub fn neutral_player(name: &str) -> (res: PlayerRef)
    ensures
        res@ == neutral_ref(name@),
{
    PlayerRef { summoner_name: name.to_owned(), team: Team::Neutral, slot: 0 }
}

/// The reference of the player called `name`.
pub fn resolve_player(registry: &PlayerRegistry, name: &str) -> (res: PlayerRef)
    ensures
        res@ == resolved(registry@, name@),
{
    match registry.player_ref(name) {
        Some(player) => player,
        None => neutral_player(name),
    }
}

/// The event of kind `kind` about the player called `name`.
pub open spec fn player_event(
    kind: EventKind,
    ts: u64,
    players: Seq<SnapshotView>,
    name: Seq<char>,
) -> EventView {
    EventView { kind, ts, payload: PayloadView::Player { player: resolved(players, name) } }
}

/// One event about the named player, none if no player is named.
pub open spec fn named_event(
    kind: EventKind,
    ts: u64,
    players: Seq<SnapshotView>,
    name: Option<Seq<char>>,
) -> Seq<EventView> {
    match name {
        Some(name) => seq![player_event(kind, ts, players, name)],
        None => Seq::empty(),
    }
}

/// One `Assist` for each of the first `n` assisters whose name is not empty.
pub open spec fn assist_events(
    ts: u64,
    players: Seq<SnapshotView>,
    assisters: Seq<Seq<char>>,
    n: nat,
) -> Seq<EventView>
    decreases n,
{
    if n == 0 {
        Seq::empty()
    } else {
        let before = assist_events(ts, players, assisters, (n - 1) as nat);
        if assisters[n - 1].len() == 0 {
            before
        } else {
            before.push(player_event(EventKind::Assist, ts, players, assisters[n - 1]))
        }
    }
}

/// The typed events of one raw event: a kill gives a `Kill` for the killer,
/// a `Death` for the victim and an `Assist` for each assister; a respawn
/// gives a `Respawn`; a phase name gives a `PhaseChange`; the events that the
/// differ covers, and any other name, give nothing.
pub open spec fn normalized_one(raw: RawView, players: Seq<SnapshotView>) -> Seq<EventView> {
    let ts = raw.event_time_ms;
    if is_kill_name(raw.event_name) {
        named_event(EventKind::Kill, ts, players, raw.killer_name) + named_event(
            EventKind::Death,
            ts,
            players,
            raw.victim_name,
        ) + assist_events(ts, players, raw.assisters, raw.assisters.len())
    } else if is_covered_name(raw.event_name) {
        Seq::empty()
    } else if raw.event_name == "Respawn"@ {
        named_event(EventKind::Respawn, ts, players, raw.summoner_name)
    } else if is_phase_name(raw.event_name) {
        seq![
            EventView {
                kind: EventKind::PhaseChange,
                ts,
                payload: PayloadView::Phase { phase: raw.event_name },
            },
        ]
    } else {
        Seq::empty()
    }
}

/// The typed events of a sequence of raw events, in order.
pub open spec fn normalized(raws: Seq<RawView>, players: Seq<SnapshotView>) -> Seq<EventView>
    decreases raws.len(),
{
    if raws.len() == 0 {
        Seq::empty()
    } else {
        normalized(raws.drop_last(), players) + normalized_one(raws.last(), players)
    }
}

/// Appends one event about the named player, if a player is named.
fn push_named(
    events: &mut Vec<Event>,
    kind: EventKind,
    ts: u64,
    registry: &PlayerRegistry,
    name: &Option<String>,
)
    ensures
        event_views(final(events)@) == event_views(old(events)@) + named_event(
            kind,
            ts,
            registry@,
            crate::model::opt_text(*name),
        ),
{
    match name {
        Some(name) => {
            let event = Event::about_player(kind, ts, resolve_player(registry, name.as_str()));
            proof {
                lemma_views_push(events@, event);
                assert(event_views(events@).push(event@) == event_views(events@) + seq![event@]);
            }
            events.push(event);
        },
        None => {
            assert(event_views(events@) + Seq::<EventView>::empty() == event_views(events@));
        },
    }
}

/// Appends the typed events of one raw event.
fn push_normalized(events: &mut Vec<Event>, raw: &RawEvent, registry: &PlayerRegistry)
    ensures
        event_views(final(events)@) == event_views(old(events)@) + normalized_one(
            raw@,
            registry@,
        ),
{
    let ts = raw.event_time_ms;
    let name = raw.event_name.as_str();
    let ghost start = event_views(events@);
    if text_eq(name, "ChampionKill") || text_eq(name, "ChampionSpecialKill") {
        push_named(events, EventKind::Kill, ts, registry, &raw.killer_name);
        push_named(events, EventKind::Death, ts, registry, &raw.victim_name);
        let ghost head = event_views(events@);
        let mut i: usize = 0;
        assert(head + Seq::<EventView>::empty() == head);
        while i < raw.assisters.len()
            invariant
                0 <= i <= raw.assisters.len(),
                event_views(events@) == head + assist_events(
                    ts,
                    registry@,
                    texts(raw.assisters@),
                    i as nat,
                ),
            decreases raw.assisters.len() - i,
        {
            let assister = raw.assisters[i].as_str();
            assert(texts(raw.assisters@)[i as int] == assister@);
            let ghost before = assist_events(ts, registry@, texts(raw.assisters@), i as nat);
            if !assister.is_empty() {
                let event = Event::about_player(
                    EventKind::Assist,
                    ts,
                    resolve_player(registry, assister),
                );
                proof {
                    lemma_views_push(events@, event);
                    assert((head + before).push(event@) == head + before.push(event@));
                }
                events.push(event);
            }
            i = i + 1;
        }
        assert(event_views(events@) == start + normalized_one(raw@, registry@)) by {
            let kill = named_event(EventKind::Kill, ts, registry@, raw@.killer_name);
            let death = named_event(EventKind::Death, ts, registry@, raw@.victim_name);
            let assists = assist_events(ts, registry@, raw@.assisters, raw@.assisters.len());
            assert(start + kill + death + assists == start + (kill + death + assists));
        }
    } else if text_eq(name, "LevelUp") || text_eq(name, "ItemPurchased") || text_eq(
        name,
        "ItemDestroyed",
    ) || text_eq(name, "ItemSold") || text_eq(name, "ItemUndo") {
        assert(start + Seq::<EventView>::empty() == start);
    } else if text_eq(name, "Respawn") {
        push_named(events, EventKind::Respawn, ts, registry, &raw.summoner_name);
    } else if is_phase_change(name) {
        let event = Event::phase_change(ts, raw.event_name.clone());
        proof {
            lemma_views_push(events@, event);
            assert(start.push(event@) == start + seq![event@]);
        }
        events.push(event);
    } else {
        assert(start + Seq::<EventView>::empty() == start);
    }
}

/// Normalizes raw events into typed events, in the order of the log.
pub fn normalize_events(raw_events: &Vec<RawEvent>, registry: &PlayerRegistry) -> (events: Vec<
    Event,
>)
    ensures
        event_views(events@) == normalized(raw_views(raw_events@), registry@),
        all_well_formed(event_views(events@)),
{
    proof {
        lemma_normalized_well_formed(raw_views(raw_events@), registry@);
    }
    let mut events: Vec<Event> = Vec::new();
    let ghost raws = raw_views(raw_events@);
    let mut i: usize = 0;
    assert(raws.take(0) == Seq::<RawView>::empty());
    assert(event_views(events@) == Seq::<EventView>::empty());
    while i < raw_events.len()
        invariant
            0 <= i <= raw_events.len(),
            raws == raw_views(raw_events@),
            event_views(events@) == normalized(raws.take(i as int), registry@),
        decreases raw_events.len() - i,
    {
        proof {
            assert(raws.take(i + 1).drop_last() == raws.take(i as int));
            assert(raws.take(i + 1).last() == raw_events@[i as int]@);
        }
        push_normalized(&mut events, &raw_events[i], registry);
        i = i + 1;
    }
    assert(raws.take(raws.len() as int) == raws);
    events
}

} // verus!
