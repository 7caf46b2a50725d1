//! The RPC surface: events as they go over the wire, the kind filter of a
//! subscription, what a subscriber is handed for each item of the bus, and
//! the control command.

use crate::json::encode_json_map;
use crate::model::{
    AbilitySlot, Event, EventKind, EventPayload, EventView, PayloadView, PlayerEvent, PlayerRef,
    PlayerRefView, Team,
};
use crate::text::chars_of;
use std::collections::HashSet;
use vstd::prelude::*;
use vstd::string::StringExecFns;

verus! {

/// The event kinds of the wire. `Unspecified` is what an unset field reads
/// as.
#[derive(Debug, Clone, Copy, PartialEq, Eq, Hash, Structural)]
pub enum WireEventKind {
    Unspecified,
    Kill,
    Death,
    Assist,
    LevelUp,
    SkillLevelUp,
    ItemAdded,
    ItemRemoved,
    GoldDelta,
    Respawn,
    PhaseChange,
    Heartbeat,
}

/// The teams of the wire.
#[derive(Debug, Clone, Copy, PartialEq, Eq, Hash, Structural)]
pub enum WireTeam {
    Unspecified,
    Order,
    Chaos,
    Neutral,
}

/// The ability keys of the wire.
#[derive(Debug, Clone, Copy, PartialEq, Eq, Hash, Structural)]
pub enum WireAbilitySlot {
    Unspecified,
    Q,
    W,
    E,
    R,
}

/// The number under which a kind goes over the wire.
pub open spec fn kind_tag(kind: WireEventKind) -> i32 {
    match kind {
        WireEventKind::Unspecified => 0,
        WireEventKind::Kill => 1,
        WireEventKind::Death => 2,
        WireEventKind::Assist => 3,
        WireEventKind::LevelUp => 4,
        WireEventKind::SkillLevelUp => 5,
        WireEventKind::ItemAdded => 6,
        WireEventKind::ItemRemoved => 7,
        WireEventKind::GoldDelta => 8,
        WireEventKind::Respawn => 9,
        WireEventKind::PhaseChange => 10,
        WireEventKind::Heartbeat => 11,
    }
}

/// The kind that a number stands for, if it stands for one.
pub open spec fn kind_of_tag(tag: i32) -> Option<WireEventKind> {
    if tag == 0 {
        Some(WireEventKind::Unspecified)
    } else if tag == 1 {
        Some(WireEventKind::Kill)
    } else if tag == 2 {
        Some(WireEventKind::Death)
    } else if tag == 3 {
        Some(WireEventKind::Assist)
    } else if tag == 4 {
        Some(WireEventKind::LevelUp)
    } else if tag == 5 {
        Some(WireEventKind::SkillLevelUp)
    } else if tag == 6 {
        Some(WireEventKind::ItemAdded)
    } else if tag == 7 {
        Some(WireEventKind::ItemRemoved)
    } else if tag == 8 {
        Some(WireEventKind::GoldDelta)
    } else if tag == 9 {
        Some(WireEventKind::Respawn)
    } else if tag == 10 {
        Some(WireEventKind::PhaseChange)
    } else if tag == 11 {
        Some(WireEventKind::Heartbeat)
    } else {
        None
    }
}

/// The number under which a team goes over the wire.
pub open spec fn team_tag(team: WireTeam) -> i32 {
    match team {
        WireTeam::Unspecified => 0,
        WireTeam::Order => 1,
        WireTeam::Chaos => 2,
        WireTeam::Neutral => 3,
    }
}

/// The number under which an ability key goes over the wire.
pub open spec fn ability_tag(slot: WireAbilitySlot) -> i32 {
    match slot {
        WireAbilitySlot::Unspecified => 0,
        WireAbilitySlot::Q => 1,
        WireAbilitySlot::W => 2,
        WireAbilitySlot::E => 3,
        WireAbilitySlot::R => 4,
    }
}

/// The wire form of an ability key.
pub open spec fn wire_ability(slot: AbilitySlot) -> WireAbilitySlot {
    match slot {
        AbilitySlot::Q => WireAbilitySlot::Q,
        AbilitySlot::W => WireAbilitySlot::W,
        AbilitySlot::E => WireAbilitySlot::E,
        AbilitySlot::R => WireAbilitySlot::R,
    }
}

/// The wire kind of an event kind.
pub open spec fn wire_kind(kind: EventKind) -> WireEventKind {
    match kind {
        EventKind::Kill => WireEventKind::Kill,
        EventKind::Death => WireEventKind::Death,
        EventKind::Assist => WireEventKind::Assist,
        EventKind::LevelUp => WireEventKind::LevelUp,
        EventKind::SkillLevelUp => WireEventKind::SkillLevelUp,
        EventKind::ItemAdded => WireEventKind::ItemAdded,
        EventKind::ItemRemoved => WireEventKind::ItemRemoved,
        EventKind::GoldDelta => WireEventKind::GoldDelta,
        EventKind::Respawn => WireEventKind::Respawn,
        EventKind::PhaseChange => WireEventKind::PhaseChange,
        EventKind::Heartbeat => WireEventKind::Heartbeat,
    }
}

/// The wire team of a team.
pub open spec fn wire_team(team: Team) -> WireTeam {
    match team {
        Team::Order => WireTeam::Order,
        Team::Chaos => WireTeam::Chaos,
        Team::Neutral => WireTeam::Neutral,
    }
}

impl WireEventKind {
    /// The number under which this kind goes over the wire.
    pub fn tag(self) -> (res: i32)
        ensures
            res == kind_tag(self),
            kind_of_tag(res) == Some(self),
    {
        match self {
            WireEventKind::Unspecified => 0,
            WireEventKind::Kill => 1,
            WireEventKind::Death => 2,
            WireEventKind::Assist => 3,
            WireEventKind::LevelUp => 4,
            WireEventKind::SkillLevelUp => 5,
            WireEventKind::ItemAdded => 6,
            WireEventKind::ItemRemoved => 7,
            WireEventKind::GoldDelta => 8,
            WireEventKind::Respawn => 9,
            WireEventKind::PhaseChange => 10,
            WireEventKind::Heartbeat => 11,
        }
    }

    /// The kind that a number stands for.
    pub fn from_i32(tag: i32) -> (res: Option<WireEventKind>)
        ensures
            res == kind_of_tag(tag),
            res is Some ==> kind_tag(res->0) == tag,
    {
        if tag == 0 {
            Some(WireEventKind::Unspecified)
        } else if tag == 1 {
            Some(WireEventKind::Kill)
        } else if tag == 2 {
            Some(WireEventKind::Death)
        } else if tag == 3 {
            Some(WireEventKind::Assist)
        } else if tag == 4 {
            Some(WireEventKind::LevelUp)
        } else if tag == 5 {
            Some(WireEventKind::SkillLevelUp)
        } else if tag == 6 {
            Some(WireEventKind::ItemAdded)
        } else if tag == 7 {
            Some(WireEventKind::ItemRemoved)
        } else if tag == 8 {
            Some(WireEventKind::GoldDelta)
        } else if tag == 9 {
            Some(WireEventKind::Respawn)
        } else if tag == 10 {
            Some(WireEventKind::PhaseChange)
        } else if tag == 11 {
            Some(WireEventKind::Heartbeat)
        } else {
            None
        }
    }
}

impl WireTeam {
    /// The number under which this team goes over the wire.
    pub fn tag(self) -> (res: i32)
        ensures
            res == team_tag(self),
    {
        match self {
            WireTeam::Unspecified => 0,
            WireTeam::Order => 1,
            WireTeam::Chaos => 2,
            WireTeam::Neutral => 3,
        }
    }
}

impl WireAbilitySlot {
    /// The number under which this ability key goes over the wire.
    pub fn tag(self) -> (res: i32)
        ensures
            res == ability_tag(self),
    {
        match self {
            WireAbilitySlot::Unspecified => 0,
            WireAbilitySlot::Q => 1,
            WireAbilitySlot::W => 2,
            WireAbilitySlot::E => 3,
            WireAbilitySlot::R => 4,
        }
    }
}

/// Maps an event kind to its wire kind.
pub fn map_event_kind(kind: &EventKind) -> (res: WireEventKind)
    ensures
        res == wire_kind(*kind),
{
    match kind {
        EventKind::Kill => WireEventKind::Kill,
        EventKind::Death => WireEventKind::Death,
        EventKind::Assist => WireEventKind::Assist,
        EventKind::LevelUp => WireEventKind::LevelUp,
        EventKind::SkillLevelUp => WireEventKind::SkillLevelUp,
        EventKind::ItemAdded => WireEventKind::ItemAdded,
        EventKind::ItemRemoved => WireEventKind::ItemRemoved,
        EventKind::GoldDelta => WireEventKind::GoldDelta,
        EventKind::Respawn => WireEventKind::Respawn,
        EventKind::PhaseChange => WireEventKind::PhaseChange,
        EventKind::Heartbeat => WireEventKind::Heartbeat,
    }
}

/// Maps a team to its wire team.
pub fn map_team(team: Team) -> (res: WireTeam)
    ensures
        res == wire_team(team),
{
    match team {
        Team::Order => WireTeam::Order,
        Team::Chaos => WireTeam::Chaos,
        Team::Neutral => WireTeam::Neutral,
    }
}

/// A player reference as it goes over the wire.
#[derive(Debug, Clone, PartialEq, Eq)]
pub struct WirePlayerRef {
    pub summoner_name: String,
    pub team: i32,
    pub slot: u32,
}

/// The payload of an event as it goes over the wire.
#[derive(Debug, Clone, PartialEq, Eq)]
pub enum WirePayload {
    Player { player: WirePlayerRef },
    PlayerItem { player: WirePlayerRef, item_id: u32, item_name: Option<String> },
    PlayerLevel { player: WirePlayerRef, level: u32 },
    PlayerGold { player: WirePlayerRef, delta: i32, total: i32 },
    Phase { phase: String },
    Heartbeat { seq: u64 },
    Custom { json: String },
}

/// An event as it goes over the wire.
#[derive(Debug, Clone, PartialEq, Eq)]
pub struct WireEvent {
    pub kind: i32,
    pub ts: u64,
    pub payload: Option<WirePayload>,
}

/// What a [`WirePlayerRef`] stands for.
pub struct WireRefView {
    pub summoner_name: Seq<char>,
    pub team: i32,
    pub slot: u32,
}

/// What a [`WirePayload`] stands for.
pub enum WirePayloadView {
    Player { player: WireRefView },
    PlayerItem { player: WireRefView, item_id: u32, item_name: Option<Seq<char>> },
    PlayerLevel { player: WireRefView, level: u32 },
    PlayerGold { player: WireRefView, delta: i32, total: i32 },
    Phase { phase: Seq<char> },
    Heartbeat { seq: u64 },
    Custom { json: Seq<char> },
}

/// What a [`WireEvent`] stands for.
pub struct WireEventView {
    pub kind: i32,
    pub ts: u64,
    pub payload: Option<WirePayloadView>,
}

impl View for WirePlayerRef {
    type V = WireRefView;

    open spec fn view(&self) -> WireRefView {
        WireRefView { summoner_name: self.summoner_name@, team: self.team, slot: self.slot }
    }
}

impl View for WirePayload {
    type V = WirePayloadView;

    open spec fn view(&self) -> WirePayloadView {
        match *self {
            WirePayload::Player { player } => WirePayloadView::Player { player: player@ },
            WirePayload::PlayerItem { player, item_id, item_name } => WirePayloadView::PlayerItem {
                player: player@,
                item_id,
                item_name: crate::model::opt_text(item_name),
            },
            WirePayload::PlayerLevel { player, level } => WirePayloadView::PlayerLevel {
                player: player@,
                level,
            },
            WirePayload::PlayerGold { player, delta, total } => WirePayloadView::PlayerGold {
                player: player@,
                delta,
                total,
            },
            WirePayload::Phase { phase } => WirePayloadView::Phase { phase: phase@ },
            WirePayload::Heartbeat { seq } => WirePayloadView::Heartbeat { seq },
            WirePayload::Custom { json } => WirePayloadView::Custom { json: json@ },
        }
    }
}

impl View for WireEvent {
    type V = WireEventView;

    open spec fn view(&self) -> WireEventView {
        WireEventView {
            kind: self.kind,
            ts: self.ts,
            payload: match self.payload {
                Some(payload) => Some(payload@),
                None => None,
            },
        }
    }
}

/// Maps an ability key to its wire form.
pub fn map_ability(slot: AbilitySlot) -> (res: WireAbilitySlot)
    ensures
        res == wire_ability(slot),
{
    match slot {
        AbilitySlot::Q => WireAbilitySlot::Q,
        AbilitySlot::W => WireAbilitySlot::W,
        AbilitySlot::E => WireAbilitySlot::E,
        AbilitySlot::R => WireAbilitySlot::R,
    }
}

/// The wire form of a player reference.
pub open spec fn wire_ref(player: PlayerRefView) -> WireRefView {
    WireRefView {
        summoner_name: player.summoner_name,
        team: team_tag(wire_team(player.team)),
        slot: player.slot as u32,
    }
}

/// The wire form of a payload. The text of a custom payload is made
/// outside; here it is `json`.
pub open spec fn wire_payload(payload: PayloadView, json: Seq<char>) -> WirePayloadView {
    match payload {
        PayloadView::Player { player } => WirePayloadView::Player { player: wire_ref(player) },
        PayloadView::PlayerItem { player, item_id, item_name } => WirePayloadView::PlayerItem {
            player: wire_ref(player),
            item_id,
            item_name,
        },
        PayloadView::PlayerLevel { player, level } => WirePayloadView::PlayerLevel {
            player: wire_ref(player),
            level: level as u32,
        },
        PayloadView::PlayerGold { player, delta, total } => WirePayloadView::PlayerGold {
            player: wire_ref(player),
            delta,
            total,
        },
        PayloadView::Phase { phase } => WirePayloadView::Phase { phase },
        PayloadView::Heartbeat { seq } => WirePayloadView::Heartbeat { seq },
        PayloadView::Custom { fields } => WirePayloadView::Custom { json },
    }
}

/// The wire form of an event whose custom payload, if it has one, reads
/// `json`.
pub open spec fn wire_event(event: EventView, json: Seq<char>) -> WireEventView {
    WireEventView {
        kind: kind_tag(wire_kind(event.kind)),
        ts: event.ts,
        payload: Some(wire_payload(event.payload, json)),
    }
}

/// Converts a player reference to its wire form.
pub fn convert_player_ref(reference: PlayerRef) -> (res: WirePlayerRef)
    ensures
        res@ == wire_ref(reference@),
{
    WirePlayerRef {
        summoner_name: reference.summoner_name,
        team: map_team(reference.team).tag(),
        slot: reference.slot as u32,
    }
}

/// Why an event could not be converted.
#[derive(Debug, Clone, Copy, PartialEq, Eq, Structural)]
pub enum ConvertError {
    /// The custom payload could not be written as JSON.
    Unserializable,
}

/// Puts an event on the wire, given the JSON text of its custom payload:
/// `None` where the payload could not be written. The text is read only for
/// an event that has a custom payload.
pub fn convert_with(event: Event, json: Option<String>) -> (res: Result<WireEvent, ConvertError>)
    ensures
        match res {
            Ok(wire) => (event@.payload is Custom ==> json is Some) && wire@ == wire_event(
                event@,
                if event@.payload is Custom {
                    json->0@
                } else {
                    Seq::empty()
                },
            ),
            Err(error) => event@.payload is Custom && json is None,
        },
{
    let kind = map_event_kind(&event.kind).tag();
    let ts = event.ts;
    let payload = match event.payload {
        EventPayload::Player(inner) => WirePayload::Player {
            player: convert_player_ref(inner.player),
        },
        EventPayload::PlayerItem(inner) => WirePayload::PlayerItem {
            player: convert_player_ref(inner.player),
            item_id: inner.item_id,
            item_name: inner.item_name,
        },
        EventPayload::PlayerLevel(inner) => WirePayload::PlayerLevel {
            player: convert_player_ref(inner.player),
            level: inner.level as u32,
        },
        EventPayload::PlayerGold(inner) => WirePayload::PlayerGold {
            player: convert_player_ref(inner.player),
            delta: inner.delta,
            total: inner.total,
        },
        EventPayload::Phase(inner) => WirePayload::Phase { phase: inner.phase },
        EventPayload::Heartbeat(inner) => WirePayload::Heartbeat { seq: inner.seq },
        EventPayload::Custom(_) => match json {
            Some(text) => WirePayload::Custom { json: text },
            None => {
                return Err(ConvertError::Unserializable);
            },
        },
    };
    Ok(WireEvent { kind, ts, payload: Some(payload) })
}

/// Puts an event on the wire. An event without a custom payload always
/// converts, to its wire form. A custom payload is written as JSON by the
/// encoder; the event fails to convert if the encoder refuses it.
pub fn convert_event(event: Event) -> (res: Result<WireEvent, ConvertError>)
    ensures
        match res {
            Ok(wire) => exists|json: Seq<char>| wire@ == #[trigger] wire_event(event@, json),
            Err(error) => event@.payload is Custom,
        },
        !(event@.payload is Custom) ==> res is Ok && res->Ok_0@ == wire_event(
            event@,
            Seq::empty(),
        ),
{
    let json = match &event.payload {
        EventPayload::Custom(fields) => match encode_json_map(fields) {
            Ok(text) => Some(text),
            Err(_) => None,
        },
        _ => None,
    };
    let ghost text = if json is Some {
        json->0@
    } else {
        Seq::empty()
    };
    let res = convert_with(event, json);
    proof {
        if res is Ok {
            if event@.payload is Custom {
                assert(res->Ok_0@ == wire_event(event@, text));
            } else {
                assert(res->Ok_0@ == wire_event(event@, Seq::empty()));
            }
        }
    }
    res
}

/// The kinds that a subscription lets through, held by their numbers.
#[derive(Debug)]
pub struct KindFilter {
    tags: HashSet<i32>,
}

impl View for KindFilter {
    type V = Set<WireEventKind>;

    closed spec fn view(&self) -> Set<WireEventKind> {
        Set::new(|kind: WireEventKind| self.tags@.contains(kind_tag(kind)))
    }
}

impl KindFilter {
    /// Whether the filter lets a kind through.
    pub fn contains(&self, kind: WireEventKind) -> (res: bool)
        ensures
            res == self@.contains(kind),
    {
        broadcast use vstd::std_specs::hash::group_hash_axioms;

        let tag = kind.tag();
        self.tags.contains(&tag)
    }
}

/// The kinds that a list of numbers asks for: those that stand for a kind
/// other than `Unspecified`.
pub open spec fn requested(tags: Seq<i32>) -> Set<WireEventKind> {
    Set::new(
        |kind: WireEventKind|
            kind != WireEventKind::Unspecified && exists|i: int|
                0 <= i < tags.len() && kind_of_tag(#[trigger] tags[i]) == Some(kind),
    )
}

/// The view of an optional filter.
pub open spec fn opt_filter(filter: Option<KindFilter>) -> Option<Set<WireEventKind>> {
    match filter {
        Some(filter) => Some(filter@),
        None => None,
    }
}

/// Whether a number is among the first `n` of a list and stands for a kind
/// other than `Unspecified`.
pub open spec fn asked(tags: Seq<i32>, n: int, tag: i32) -> bool {
    &&& tag != 0
    &&& kind_of_tag(tag) is Some
    &&& exists|k: int| 0 <= k < n && #[trigger] tags[k] == tag
}

/// The filter of a subscription. Numbers that stand for no kind, and the
/// number of `Unspecified`, are passed over; a request that then names no
/// kind asks for all kinds, which is `None`.
pub fn allowed_kinds(tags: &Vec<i32>) -> (res: Option<KindFilter>)
    ensures
        match res {
            Some(filter) => filter@ == requested(tags@) && requested(tags@) != Set::<
                WireEventKind,
            >::empty(),
            None => requested(tags@) == Set::<WireEventKind>::empty(),
        },
{
    broadcast use vstd::std_specs::hash::group_hash_axioms;

    let mut kinds: HashSet<i32> = HashSet::new();
    let mut any = false;
    let ghost mut witness: i32 = 0;
    let mut i: usize = 0;
    while i < tags.len()
        invariant
            0 <= i <= tags.len(),
            forall|tag: i32| kinds@.contains(tag) == asked(tags@, i as int, tag),
            any ==> kinds@.contains(witness),
            !any ==> forall|tag: i32| !kinds@.contains(tag),
        decreases tags.len() - i,
    {
        let tag = tags[i];
        let ghost before = kinds@;
        let mut added = false;
        if let Some(kind) = WireEventKind::from_i32(tag) {
            if kind != WireEventKind::Unspecified {
                kinds.insert(tag);
                added = true;
                any = true;
                proof {
                    witness = tag;
                }
            }
        }
        proof {
            assert forall|other: i32| kinds@.contains(other) == asked(
                tags@,
                i + 1,
                other,
            ) by {
                if asked(tags@, i + 1, other) {
                    let k = choose|k: int| 0 <= k < i + 1 && #[trigger] tags@[k] == other;
                    if k < i {
                        assert(asked(tags@, i as int, other));
                    }
                }
                if before.contains(other) {
                    let k = choose|k: int| 0 <= k < i && #[trigger] tags@[k] == other;
                    assert(tags@[k] == other);
                }
                if added && other == tag {
                    assert(tags@[i as int] == other);
                }
            }
        }
        i = i + 1;
    }
    let filter = KindFilter { tags: kinds };
    proof {
        assert forall|kind: WireEventKind| filter@.contains(kind) == requested(tags@).contains(
            kind,
        ) by {
            if requested(tags@).contains(kind) {
                let k = choose|k: int|
                    0 <= k < tags@.len() && kind_of_tag(#[trigger] tags@[k]) == Some(kind);
                assert(tags@[k] == kind_tag(kind));
                assert(asked(tags@, tags@.len() as int, kind_tag(kind)));
            }
            if filter@.contains(kind) {
                assert(asked(tags@, tags@.len() as int, kind_tag(kind)));
                let k = choose|k: int| 0 <= k < tags@.len() && #[trigger] tags@[k] == kind_tag(kind);
                assert(kind_of_tag(tags@[k]) == Some(kind));
            }
        }
        assert(filter@ =~= requested(tags@));
    }
    if any {
        proof {
            let kind = kind_of_tag(witness)->0;
            assert(asked(tags@, tags@.len() as int, witness));
            assert(kind_tag(kind) == witness);
            assert(filter@.contains(kind));
        }
        Some(filter)
    } else {
        assert(filter@ =~= Set::<WireEventKind>::empty());
        None
    }
}

/// What a subscriber's receiver yields: an event, or the notice that so many
/// events were lost to it.
#[derive(Debug, Clone)]
pub enum BusItem {
    Event(Event),
    Lagged(u64),
}

/// What is made of an item of the bus for one subscriber.
#[derive(Debug, Clone)]
pub enum Delivery {
    /// The event goes to the subscriber, in wire form.
    Send(WireEvent),
    /// Nothing goes to the subscriber: the filter holds the event back.
    Skip,
    /// Nothing goes to the subscriber: the event could not be converted.
    Unconverted,
    /// The notice that so many events were lost to the subscriber goes to
    /// the subscriber, which stays attached.
    Lag(u64),
}

/// What goes over a subscriber's stream: an event, or the notice that so
/// many events were lost to this subscriber.
#[derive(Debug, Clone, PartialEq, Eq)]
pub enum StreamItem {
    Event(WireEvent),
    Lagged(u64),
}

impl Delivery {
    /// What goes to the subscriber: the event that is sent, or the lag
    /// notice; nothing for an event that is skipped or was not converted.
    pub fn into_stream_item(self) -> (res: Option<StreamItem>)
        ensures
            res == match self {
                Delivery::Send(wire) => Some(StreamItem::Event(wire)),
                Delivery::Lag(skipped) => Some(StreamItem::Lagged(skipped)),
                Delivery::Skip => None,
                Delivery::Unconverted => None,
            },
    {
        match self {
            Delivery::Send(wire) => Some(StreamItem::Event(wire)),
            Delivery::Lag(skipped) => Some(StreamItem::Lagged(skipped)),
            Delivery::Skip => None,
            Delivery::Unconverted => None,
        }
    }
}

/// Whether a filter lets an event of `kind` through: no filter lets all
/// kinds through.
pub open spec fn lets_through(filter: Option<Set<WireEventKind>>, kind: EventKind) -> bool {
    match filter {
        Some(kinds) => kinds.contains(wire_kind(kind)),
        None => true,
    }
}

/// Decides what is made of an item of the bus for one subscriber. A lag
/// notice is handed on to the subscriber as such. An event whose kind the
/// filter holds back is skipped before it is converted; any other event is
/// converted and sent.
pub fn deliver(filter: &Option<KindFilter>, item: BusItem) -> (res: Delivery)
    ensures
        match item {
            BusItem::Lagged(skipped) => res == Delivery::Lag(skipped),
            BusItem::Event(event) => if !lets_through(opt_filter(*filter), event@.kind) {
                res is Skip
            } else if event@.payload is Custom {
                res is Unconverted || (res is Send && exists|json: Seq<char>|
                    res->Send_0@ == #[trigger] wire_event(event@, json))
            } else {
                res is Send && res->Send_0@ == wire_event(event@, Seq::empty())
            },
        },
{
    match item {
        BusItem::Lagged(skipped) => Delivery::Lag(skipped),
        BusItem::Event(event) => {
            let kind = map_event_kind(&event.kind);
            let passes = match filter {
                Some(allowed) => allowed.contains(kind),
                None => true,
            };
            if !passes {
                return Delivery::Skip;
            }
            match convert_event(event) {
                Ok(wire) => Delivery::Send(wire),
                Err(_) => Delivery::Unconverted,
            }
        },
    }
}

/// The answer to a control command.
#[derive(Debug, Clone, PartialEq, Eq)]
pub struct ControlResponse {
    pub accepted: bool,
    pub message: String,
}

/// Why a control command was refused.
#[derive(Debug, Clone, Copy, PartialEq, Eq, Structural)]
pub enum ControlError {
    /// The request names no command.
    MissingCommand,
    /// The summoner name is empty.
    InvalidArgument,
}

/// The synthetic kill of a summoner: a kill at time zero by a player of the
/// Order side in slot zero.
pub open spec fn synthetic_kill_of(summoner: Seq<char>) -> EventView {
    EventView {
        kind: EventKind::Kill,
        ts: 0,
        payload: PayloadView::Player {
            player: PlayerRefView { summoner_name: summoner, team: Team::Order, slot: 0 },
        },
    }
}

/// Constructs a synthetic kill event.
pub fn synthetic_kill(summoner: &str) -> (res: Event)
    ensures
        res@ == synthetic_kill_of(summoner@),
{
    Event {
        kind: EventKind::Kill,
        ts: 0,
        payload: EventPayload::Player(
            PlayerEvent {
                player: PlayerRef { summoner_name: summoner.to_owned(), team: Team::Order, slot: 0 },
            },
        ),
    }
}

/// The command to emit a synthetic kill. The empty name is refused; for any
/// other name the event to publish and the answer are returned.
pub fn emit_synthetic_kill(summoner_name: &str) -> (res: Result<
    (Event, ControlResponse),
    ControlError,
>)
    ensures
        match res {
            Ok((event, response)) => summoner_name@.len() > 0 && event@ == synthetic_kill_of(
                summoner_name@,
            ) && response.accepted && response.message@ == "synthetic kill issued for "@
                + summoner_name@,
            Err(error) => summoner_name@.len() == 0 && error == ControlError::InvalidArgument,
        },
{
    let chars = chars_of(summoner_name);
    if chars.len() == 0 {
        return Err(ControlError::InvalidArgument);
    }
    let event = synthetic_kill(summoner_name);
    let mut message = String::from_str("synthetic kill issued for ");
    message.append(summoner_name);
    Ok((event, ControlResponse { accepted: true, message }))
}

/// A command of the control interface.
#[derive(Debug, Clone, PartialEq, Eq)]
pub enum ControlCommand {
    /// Publish a synthetic kill by the named summoner.
    EmitSyntheticKill { summoner_name: String },
}

/// Answers a control request. A request without a command is refused as
/// such; a command to emit a synthetic kill is answered as
/// [`emit_synthetic_kill`] answers it.
pub fn control(command: Option<ControlCommand>) -> (res: Result<
    (Event, ControlResponse),
    ControlError,
>)
    ensures
        match command {
            None => res == Err::<(Event, ControlResponse), ControlError>(
                ControlError::MissingCommand,
            ),
            Some(ControlCommand::EmitSyntheticKill { summoner_name }) => match res {
                Ok((event, response)) => summoner_name@.len() > 0 && event@
                    == synthetic_kill_of(summoner_name@) && response.accepted && response.message@
                    == "synthetic kill issued for "@ + summoner_name@,
                Err(error) => summoner_name@.len() == 0 && error
                    == ControlError::InvalidArgument,
            },
        },
{
    match command {
        None => Err(ControlError::MissingCommand),
        Some(ControlCommand::EmitSyntheticKill { summoner_name }) => emit_synthetic_kill(
            summoner_name.as_str(),
        ),
    }
}

} // verus!
