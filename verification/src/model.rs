//! The events that the daemon publishes, and their mathematical views.

use std::collections::HashMap;
use vstd::prelude::*;

verus! {

/// Millisecond timestamp sourced from the game client.
pub type TimestampMs = u64;

/// Teams recognised by the game client.
#[derive(Debug, Clone, Copy, PartialEq, Eq, Hash, Structural)]
pub enum Team {
    Order,
    Chaos,
    Neutral,
}

/// The four ability keys of a champion.
#[derive(Debug, Clone, Copy, PartialEq, Eq, Hash, Structural)]
pub enum AbilitySlot {
    Q,
    W,
    E,
    R,
}

/// Identifies a specific player within the current game session.
#[derive(Debug, Clone, PartialEq, Eq, Hash)]
pub struct PlayerRef {
    pub summoner_name: String,
    pub team: Team,
    /// Slot index: 0 to 4 for the Order side, 5 to 9 for the Chaos side.
    pub slot: u8,
}

/// Accepted event kinds.
#[derive(Debug, Clone, Copy, PartialEq, Eq, Hash, Structural)]
pub enum EventKind {
    Kill,
    Death,
    Assist,
    LevelUp,
    SkillLevelUp,
    ItemAdded,
    ItemRemoved,
    GoldDelta,
    Respawn,
    PhaseChange,
    Heartbeat,
}

/// The body of an event about one player.
#[derive(Debug, Clone, PartialEq)]
pub struct PlayerEvent {
    pub player: PlayerRef,
}

/// The body of an event about one unit of an item that a player gained or
/// lost.
#[derive(Debug, Clone, PartialEq)]
pub struct ItemEvent {
    pub player: PlayerRef,
    pub item_id: u32,
    pub item_name: Option<String>,
}

/// The body of an event about the level that a player reached.
#[derive(Debug, Clone, PartialEq)]
pub struct LevelEvent {
    pub player: PlayerRef,
    pub level: u8,
}

/// The body of an event about a change of a player's gold: the signed
/// difference and the new total.
#[derive(Debug, Clone, PartialEq)]
pub struct GoldEvent {
    pub player: PlayerRef,
    pub delta: i32,
    pub total: i32,
}

/// The body of an event that announces a phase.
#[derive(Debug, Clone, PartialEq)]
pub struct PhaseEvent {
    pub phase: String,
}

/// The body of a heartbeat: its sequence number.
#[derive(Debug, Clone, PartialEq)]
pub struct HeartbeatEvent {
    pub seq: u64,
}

/// Event payload variants.
#[derive(Debug, Clone, PartialEq)]
pub enum EventPayload {
    Player(PlayerEvent),
    PlayerItem(ItemEvent),
    PlayerLevel(LevelEvent),
    PlayerGold(GoldEvent),
    Phase(PhaseEvent),
    Heartbeat(HeartbeatEvent),
    Custom(HashMap<String, serde_json::Value>),
}

/// Top-level event emitted by the daemon.
#[derive(Debug, Clone, PartialEq)]
pub struct Event {
    pub kind: EventKind,
    pub ts: TimestampMs,
    pub payload: EventPayload,
}

/// Batch of events emitted in a single poll cycle.
#[derive(Debug, Default, Clone, PartialEq)]
pub struct EventBatch {
    pub events: Vec<Event>,
}

/// What a [`PlayerRef`] stands for.
pub struct PlayerRefView {
    pub summoner_name: Seq<char>,
    pub team: Team,
    pub slot: u8,
}

/// What an [`EventPayload`] stands for.
pub enum PayloadView {
    Player { player: PlayerRefView },
    PlayerItem { player: PlayerRefView, item_id: u32, item_name: Option<Seq<char>> },
    PlayerLevel { player: PlayerRefView, level: u8 },
    PlayerGold { player: PlayerRefView, delta: i32, total: i32 },
    Phase { phase: Seq<char> },
    Heartbeat { seq: u64 },
    Custom { fields: Map<Seq<char>, crate::json::JsonTree> },
}

/// What an [`Event`] stands for.
pub struct EventView {
    pub kind: EventKind,
    pub ts: u64,
    pub payload: PayloadView,
}

/// The text of an optional string.
pub open spec fn opt_text(name: Option<String>) -> Option<Seq<char>> {
    match name {
        Some(s) => Some(s@),
        None => None,
    }
}

impl View for PlayerRef {
    type V = PlayerRefView;

    open spec fn view(&self) -> PlayerRefView {
        PlayerRefView { summoner_name: self.summoner_name@, team: self.team, slot: self.slot }
    }
}

impl View for EventPayload {
    type V = PayloadView;

    open spec fn view(&self) -> PayloadView {
        match *self {
            EventPayload::Player(e) => PayloadView::Player { player: e.player@ },
            EventPayload::PlayerItem(e) => PayloadView::PlayerItem {
                player: e.player@,
                item_id: e.item_id,
                item_name: opt_text(e.item_name),
            },
            EventPayload::PlayerLevel(e) => PayloadView::PlayerLevel {
                player: e.player@,
                level: e.level,
            },
            EventPayload::PlayerGold(e) => PayloadView::PlayerGold {
                player: e.player@,
                delta: e.delta,
                total: e.total,
            },
            EventPayload::Phase(e) => PayloadView::Phase { phase: e.phase@ },
            EventPayload::Heartbeat(e) => PayloadView::Heartbeat { seq: e.seq },
            EventPayload::Custom(fields) => PayloadView::Custom {
                fields: crate::json::fields_tree(fields),
            },
        }
    }
}

impl View for Event {
    type V = EventView;

    open spec fn view(&self) -> EventView {
        EventView { kind: self.kind, ts: self.ts, payload: self.payload@ }
    }
}

impl View for EventBatch {
    type V = Seq<EventView>;

    open spec fn view(&self) -> Seq<EventView> {
        event_views(self.events@)
    }
}

/// The views of a sequence of events, in order.
pub open spec fn event_views(events: Seq<Event>) -> Seq<EventView> {
    events.map_values(|e: Event| e@)
}

/// Whether a payload is of the variant that its event kind calls for: the
/// player variant for kills, deaths, assists and respawns, and the variant of
/// the same name for every other kind.
pub open spec fn payload_matches(kind: EventKind, payload: PayloadView) -> bool {
    match kind {
        EventKind::Kill | EventKind::Death | EventKind::Assist | EventKind::Respawn => payload is Player,
        EventKind::LevelUp => payload is PlayerLevel,
        EventKind::ItemAdded | EventKind::ItemRemoved => payload is PlayerItem,
        EventKind::GoldDelta => payload is PlayerGold,
        EventKind::PhaseChange => payload is Phase,
        EventKind::Heartbeat => payload is Heartbeat,
        EventKind::SkillLevelUp => false,
    }
}

impl EventView {
    /// Whether the payload is of the variant that the kind calls for.
    pub open spec fn well_formed(self) -> bool {
        payload_matches(self.kind, self.payload)
    }
}

/// Whether every event in the sequence carries the payload that its kind
/// calls for.
pub open spec fn all_well_formed(events: Seq<EventView>) -> bool {
    forall|i: int| 0 <= i < events.len() ==> (#[trigger] events[i]).well_formed()
}

impl PlayerRef {
    /// A copy of this reference.
    pub fn duplicate(&self) -> (res: PlayerRef)
        ensures
            res@ == self@,
    {
        PlayerRef { summoner_name: self.summoner_name.clone(), team: self.team, slot: self.slot }
    }
}

/// A copy of an optional string.
pub fn copy_name(name: &Option<String>) -> (res: Option<String>)
    ensures
        opt_text(res) == opt_text(*name),
{
    match name {
        Some(s) => Some(s.clone()),
        None => None,
    }
}

impl Event {
    /// An event of the given kind about one player.
    pub fn about_player(kind: EventKind, ts: u64, player: PlayerRef) -> (res: Event)
        ensures
            res@ == (EventView { kind, ts, payload: PayloadView::Player { player: player@ } }),
    {
        Event { kind, ts, payload: EventPayload::Player(PlayerEvent { player }) }
    }

    /// A phase-change event that carries the phase's name.
    pub fn phase_change(ts: u64, phase: String) -> (res: Event)
        ensures
            res@ == (EventView {
                kind: EventKind::PhaseChange,
                ts,
                payload: PayloadView::Phase { phase: phase@ },
            }),
    {
        Event { kind: EventKind::PhaseChange, ts, payload: EventPayload::Phase(PhaseEvent { phase }) }
    }
}

} // verus!
