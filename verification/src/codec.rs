//! Events as JSON documents: how an event is written as a document, and how
//! a document is read back as an event.
//!
//! An event is an object with the members `kind`, `ts`, `payloadKind` and
//! `data`. `kind` is the name of the event kind, `ts` the timestamp,
//! `payloadKind` the name of the payload's variant, and `data` the body of
//! the variant.

use crate::json::{
    decode_json, fields_of_json, json_empty_object, json_i64, json_is_null, json_member,
    json_null, json_of_fields, json_of_i64, json_of_text, json_of_u64, json_parse, json_put,
    json_str, json_tree, json_u64, member, member_string, member_text, JsonTree,
};
use crate::model::{
    opt_text, Event, EventKind, EventPayload, EventView, GoldEvent, HeartbeatEvent, ItemEvent,
    LevelEvent, PayloadView, PhaseEvent, PlayerEvent, PlayerRef, PlayerRefView, Team,
};
use crate::text::text_eq;
use vstd::prelude::*;

verus! {

/// The name under which an event kind is written.
pub open spec fn kind_name(kind: EventKind) -> Seq<char> {
    match kind {
        EventKind::Kill => "Kill"@,
        EventKind::Death => "Death"@,
        EventKind::Assist => "Assist"@,
        EventKind::LevelUp => "LevelUp"@,
        EventKind::SkillLevelUp => "SkillLevelUp"@,
        EventKind::ItemAdded => "ItemAdded"@,
        EventKind::ItemRemoved => "ItemRemoved"@,
        EventKind::GoldDelta => "GoldDelta"@,
        EventKind::Respawn => "Respawn"@,
        EventKind::PhaseChange => "PhaseChange"@,
        EventKind::Heartbeat => "Heartbeat"@,
    }
}

/// The event kind that a name stands for, if it stands for one.
pub open spec fn kind_named(name: Seq<char>) -> Option<EventKind> {
    if name == "Kill"@ {
        Some(EventKind::Kill)
    } else if name == "Death"@ {
        Some(EventKind::Death)
    } else if name == "Assist"@ {
        Some(EventKind::Assist)
    } else if name == "LevelUp"@ {
        Some(EventKind::LevelUp)
    } else if name == "SkillLevelUp"@ {
        Some(EventKind::SkillLevelUp)
    } else if name == "ItemAdded"@ {
        Some(EventKind::ItemAdded)
    } else if name == "ItemRemoved"@ {
        Some(EventKind::ItemRemoved)
    } else if name == "GoldDelta"@ {
        Some(EventKind::GoldDelta)
    } else if name == "Respawn"@ {
        Some(EventKind::Respawn)
    } else if name == "PhaseChange"@ {
        Some(EventKind::PhaseChange)
    } else if name == "Heartbeat"@ {
        Some(EventKind::Heartbeat)
    } else {
        None
    }
}

/// The name under which a team is written.
pub open spec fn team_name(team: Team) -> Seq<char> {
    match team {
        Team::Order => "order"@,
        Team::Chaos => "chaos"@,
        Team::Neutral => "neutral"@,
    }
}

/// The team that a name stands for, if it stands for one.
pub open spec fn team_named(name: Seq<char>) -> Option<Team> {
    if name == "order"@ {
        Some(Team::Order)
    } else if name == "chaos"@ {
        Some(Team::Chaos)
    } else if name == "neutral"@ {
        Some(Team::Neutral)
    } else {
        None
    }
}

/// The name under which the variant of a payload is written.
pub open spec fn payload_name(payload: PayloadView) -> Seq<char> {
    match payload {
        PayloadView::Player { .. } => "player"@,
        PayloadView::PlayerItem { .. } => "playerItem"@,
        PayloadView::PlayerLevel { .. } => "playerLevel"@,
        PayloadView::PlayerGold { .. } => "playerGold"@,
        PayloadView::Phase { .. } => "phase"@,
        PayloadView::Heartbeat { .. } => "heartbeat"@,
        PayloadView::Custom { .. } => "custom"@,
    }
}

/// The object without members.
pub open spec fn no_members() -> Map<Seq<char>, JsonTree> {
    Map::empty()
}

/// A player reference as a document: an object with the summoner name, the
/// team's name and the slot.
pub open spec fn ref_tree(player: PlayerRefView) -> JsonTree {
    JsonTree::Object(
        no_members().insert("summoner_name"@, JsonTree::Text(player.summoner_name)).insert(
            "team"@,
            JsonTree::Text(team_name(player.team)),
        ).insert("slot"@, JsonTree::Integer(player.slot as int)),
    )
}

/// An optional name as a document: the name, or `null`.
pub open spec fn name_tree(name: Option<Seq<char>>) -> JsonTree {
    match name {
        Some(text) => JsonTree::Text(text),
        None => JsonTree::Null,
    }
}

/// The body of a payload as a document: an object with one member for each
/// field of the variant; a custom payload is the object of its fields.
pub open spec fn data_tree(payload: PayloadView) -> JsonTree {
    match payload {
        PayloadView::Player { player } => JsonTree::Object(
            no_members().insert("player"@, ref_tree(player)),
        ),
        PayloadView::PlayerItem { player, item_id, item_name } => JsonTree::Object(
            no_members().insert("player"@, ref_tree(player)).insert(
                "item_id"@,
                JsonTree::Integer(item_id as int),
            ).insert("item_name"@, name_tree(item_name)),
        ),
        PayloadView::PlayerLevel { player, level } => JsonTree::Object(
            no_members().insert("player"@, ref_tree(player)).insert(
                "level"@,
                JsonTree::Integer(level as int),
            ),
        ),
        PayloadView::PlayerGold { player, delta, total } => JsonTree::Object(
            no_members().insert("player"@, ref_tree(player)).insert(
                "delta"@,
                JsonTree::Integer(delta as int),
            ).insert("total"@, JsonTree::Integer(total as int)),
        ),
        PayloadView::Phase { phase } => JsonTree::Object(
            no_members().insert("phase"@, JsonTree::Text(phase)),
        ),
        PayloadView::Heartbeat { seq } => JsonTree::Object(
            no_members().insert("seq"@, JsonTree::Integer(seq as int)),
        ),
        PayloadView::Custom { fields } => JsonTree::Object(fields),
    }
}

/// An event as a document.
pub open spec fn event_tree(event: EventView) -> JsonTree {
    JsonTree::Object(
        no_members().insert("kind"@, JsonTree::Text(kind_name(event.kind))).insert(
            "ts"@,
            JsonTree::Integer(event.ts as int),
        ).insert("payloadKind"@, JsonTree::Text(payload_name(event.payload))).insert(
            "data"@,
            data_tree(event.payload),
        ),
    )
}

/// The whole number under a key of an object, if there is one and it lies
/// from `low` to `high`.
pub open spec fn member_int(tree: JsonTree, key: Seq<char>, low: int, high: int) -> Option<int> {
    match member(tree, key) {
        Some(JsonTree::Integer(n)) => if low <= n <= high {
            Some(n)
        } else {
            None
        },
        _ => None,
    }
}

/// The optional name under a key of an object: no name where the member is
/// missing or `null`, the name where it is a string; any other member is
/// refused.
pub open spec fn member_name(tree: JsonTree, key: Seq<char>) -> Option<Option<Seq<char>>> {
    match member(tree, key) {
        None => Some(None),
        Some(JsonTree::Null) => Some(None),
        Some(JsonTree::Text(text)) => Some(Some(text)),
        Some(_) => None,
    }
}

/// The player reference that a document holds: the document has a string
/// under `summoner_name`, the name of a team under `team`, and a number of
/// eight bits under `slot`.
pub open spec fn tree_ref(tree: JsonTree) -> Option<PlayerRefView> {
    match (
        member_text(tree, "summoner_name"@),
        member_text(tree, "team"@),
        member_int(tree, "slot"@, 0, u8::MAX as int),
    ) {
        (Some(summoner_name), Some(team), Some(slot)) => match team_named(team) {
            Some(team) => Some(PlayerRefView { summoner_name, team, slot: slot as u8 }),
            None => None,
        },
        _ => None,
    }
}

/// The player reference under a key of an object.
pub open spec fn member_ref(tree: JsonTree, key: Seq<char>) -> Option<PlayerRefView> {
    match member(tree, key) {
        Some(found) => tree_ref(found),
        None => None,
    }
}

/// The payload of the variant called `name` that a document holds as its
/// body: each field of the variant is a member of the right shape, numbers
/// within the range of their field.
pub open spec fn tree_payload(name: Seq<char>, data: JsonTree) -> Option<PayloadView> {
    if name == "player"@ {
        match member_ref(data, "player"@) {
            Some(player) => Some(PayloadView::Player { player }),
            None => None,
        }
    } else if name == "playerItem"@ {
        match (
            member_ref(data, "player"@),
            member_int(data, "item_id"@, 0, u32::MAX as int),
            member_name(data, "item_name"@),
        ) {
            (Some(player), Some(item_id), Some(item_name)) => Some(
                PayloadView::PlayerItem { player, item_id: item_id as u32, item_name },
            ),
            _ => None,
        }
    } else if name == "playerLevel"@ {
        match (member_ref(data, "player"@), member_int(data, "level"@, 0, u8::MAX as int)) {
            (Some(player), Some(level)) => Some(
                PayloadView::PlayerLevel { player, level: level as u8 },
            ),
            _ => None,
        }
    } else if name == "playerGold"@ {
        match (
            member_ref(data, "player"@),
            member_int(data, "delta"@, i32::MIN as int, i32::MAX as int),
            member_int(data, "total"@, i32::MIN as int, i32::MAX as int),
        ) {
            (Some(player), Some(delta), Some(total)) => Some(
                PayloadView::PlayerGold { player, delta: delta as i32, total: total as i32 },
            ),
            _ => None,
        }
    } else if name == "phase"@ {
        match member_text(data, "phase"@) {
            Some(phase) => Some(PayloadView::Phase { phase }),
            None => None,
        }
    } else if name == "heartbeat"@ {
        match member_int(data, "seq"@, 0, u64::MAX as int) {
            Some(seq) => Some(PayloadView::Heartbeat { seq: seq as u64 }),
            None => None,
        }
    } else if name == "custom"@ {
        match data {
            JsonTree::Object(fields) => Some(PayloadView::Custom { fields }),
            _ => None,
        }
    } else {
        None
    }
}

/// The event that a document holds: the document has the name of an event
/// kind under `kind`, a number of 64 bits under `ts`, the name of a payload
/// variant under `payloadKind`, and under `data` a body of that variant.
/// Other members are passed over.
pub open spec fn tree_event(tree: JsonTree) -> Option<EventView> {
    match (
        member_text(tree, "kind"@),
        member_int(tree, "ts"@, 0, u64::MAX as int),
        member_text(tree, "payloadKind"@),
        member(tree, "data"@),
    ) {
        (Some(kind), Some(ts), Some(name), Some(data)) => match (
            kind_named(kind),
            tree_payload(name, data),
        ) {
            (Some(kind), Some(payload)) => Some(EventView { kind, ts: ts as u64, payload }),
            _ => None,
        },
        _ => None,
    }
}

/// The name under which an event kind is written.
pub fn kind_tag(kind: EventKind) -> (res: &'static str)
    ensures
        res@ == kind_name(kind),
{
    match kind {
        EventKind::Kill => "Kill",
        EventKind::Death => "Death",
        EventKind::Assist => "Assist",
        EventKind::LevelUp => "LevelUp",
        EventKind::SkillLevelUp => "SkillLevelUp",
        EventKind::ItemAdded => "ItemAdded",
        EventKind::ItemRemoved => "ItemRemoved",
        EventKind::GoldDelta => "GoldDelta",
        EventKind::Respawn => "Respawn",
        EventKind::PhaseChange => "PhaseChange",
        EventKind::Heartbeat => "Heartbeat",
    }
}

/// Reads an event kind from its name.
pub fn parse_kind(name: &str) -> (res: Option<EventKind>)
    ensures
        res == kind_named(name@),
{
    if text_eq(name, "Kill") {
        Some(EventKind::Kill)
    } else if text_eq(name, "Death") {
        Some(EventKind::Death)
    } else if text_eq(name, "Assist") {
        Some(EventKind::Assist)
    } else if text_eq(name, "LevelUp") {
        Some(EventKind::LevelUp)
    } else if text_eq(name, "SkillLevelUp") {
        Some(EventKind::SkillLevelUp)
    } else if text_eq(name, "ItemAdded") {
        Some(EventKind::ItemAdded)
    } else if text_eq(name, "ItemRemoved") {
        Some(EventKind::ItemRemoved)
    } else if text_eq(name, "GoldDelta") {
        Some(EventKind::GoldDelta)
    } else if text_eq(name, "Respawn") {
        Some(EventKind::Respawn)
    } else if text_eq(name, "PhaseChange") {
        Some(EventKind::PhaseChange)
    } else if text_eq(name, "Heartbeat") {
        Some(EventKind::Heartbeat)
    } else {
        None
    }
}

/// The name under which a team is written.
pub fn team_tag(team: Team) -> (res: &'static str)
    ensures
        res@ == team_name(team),
{
    match team {
        Team::Order => "order",
        Team::Chaos => "chaos",
        Team::Neutral => "neutral",
    }
}

/// Reads a team from the name under which it is written.
pub fn parse_team_tag(name: &str) -> (res: Option<Team>)
    ensures
        res == team_named(name@),
{
    if text_eq(name, "order") {
        Some(Team::Order)
    } else if text_eq(name, "chaos") {
        Some(Team::Chaos)
    } else if text_eq(name, "neutral") {
        Some(Team::Neutral)
    } else {
        None
    }
}

/// Writes a player reference as a document.
pub fn encode_player_ref(player: &PlayerRef) -> (res: serde_json::Value)
    ensures
        json_tree(res) == ref_tree(player@),
{
    let mut object = json_empty_object();
    json_put(&mut object, "summoner_name", json_of_text(player.summoner_name.clone()));
    json_put(&mut object, "team", json_of_text(team_tag(player.team).to_owned()));
    json_put(&mut object, "slot", json_of_u64(player.slot as u64));
    object
}

/// An object whose one member is a player reference under `player`.
fn about(player: &PlayerRef) -> (res: serde_json::Value)
    ensures
        json_tree(res) == JsonTree::Object(no_members().insert("player"@, ref_tree(player@))),
{
    let mut object = json_empty_object();
    json_put(&mut object, "player", encode_player_ref(player));
    object
}

/// Writes the body of a payload as a document.
pub fn encode_payload(payload: &EventPayload) -> (res: serde_json::Value)
    ensures
        json_tree(res) == data_tree(payload@),
{
    match payload {
        EventPayload::Player(inner) => about(&inner.player),
        EventPayload::PlayerItem(inner) => {
            let mut object = about(&inner.player);
            json_put(&mut object, "item_id", json_of_u64(inner.item_id as u64));
            let name = match &inner.item_name {
                Some(text) => json_of_text(text.clone()),
                None => json_null(),
            };
            json_put(&mut object, "item_name", name);
            object
        },
        EventPayload::PlayerLevel(inner) => {
            let mut object = about(&inner.player);
            json_put(&mut object, "level", json_of_u64(inner.level as u64));
            object
        },
        EventPayload::PlayerGold(inner) => {
            let mut object = about(&inner.player);
            json_put(&mut object, "delta", json_of_i64(inner.delta as i64));
            json_put(&mut object, "total", json_of_i64(inner.total as i64));
            object
        },
        EventPayload::Phase(inner) => {
            let mut object = json_empty_object();
            json_put(&mut object, "phase", json_of_text(inner.phase.clone()));
            object
        },
        EventPayload::Heartbeat(inner) => {
            let mut object = json_empty_object();
            json_put(&mut object, "seq", json_of_u64(inner.seq));
            object
        },
        EventPayload::Custom(fields) => json_of_fields(fields),
    }
}

/// The name under which the variant of a payload is written.
pub fn payload_tag(payload: &EventPayload) -> (res: &'static str)
    ensures
        res@ == payload_name(payload@),
{
    match payload {
        EventPayload::Player(_) => "player",
        EventPayload::PlayerItem(_) => "playerItem",
        EventPayload::PlayerLevel(_) => "playerLevel",
        EventPayload::PlayerGold(_) => "playerGold",
        EventPayload::Phase(_) => "phase",
        EventPayload::Heartbeat(_) => "heartbeat",
        EventPayload::Custom(_) => "custom",
    }
}

/// Writes an event as a document.
pub fn encode_event(event: &Event) -> (res: serde_json::Value)
    ensures
        json_tree(res) == event_tree(event@),
{
    let mut object = json_empty_object();
    json_put(&mut object, "kind", json_of_text(kind_tag(event.kind).to_owned()));
    json_put(&mut object, "ts", json_of_u64(event.ts));
    json_put(&mut object, "payloadKind", json_of_text(payload_tag(&event.payload).to_owned()));
    json_put(&mut object, "data", encode_payload(&event.payload));
    object
}

/// The number from zero to `high` under a key of an object.
fn member_u64(value: &serde_json::Value, key: &str, high: u64) -> (res: Option<u64>)
    ensures
        match res {
            Some(n) => member_int(json_tree(*value), key@, 0, high as int) == Some(n as int),
            None => member_int(json_tree(*value), key@, 0, high as int) is None,
        },
{
    match json_member(value, key) {
        Some(found) => match json_u64(found) {
            Some(n) => if n <= high {
                Some(n)
            } else {
                None
            },
            None => None,
        },
        None => None,
    }
}

/// The number of 32 bits under a key of an object.
fn member_i32(value: &serde_json::Value, key: &str) -> (res: Option<i32>)
    ensures
        match res {
            Some(n) => member_int(json_tree(*value), key@, i32::MIN as int, i32::MAX as int)
                == Some(n as int),
            None => member_int(json_tree(*value), key@, i32::MIN as int, i32::MAX as int) is None,
        },
{
    match json_member(value, key) {
        Some(found) => match json_i64(found) {
            Some(n) => if -0x8000_0000 <= n && n <= 0x7fff_ffff {
                Some(n as i32)
            } else {
                None
            },
            None => None,
        },
        None => None,
    }
}

/// The optional name under a key of an object.
fn member_opt_name(value: &serde_json::Value, key: &str) -> (res: Option<Option<String>>)
    ensures
        match res {
            Some(name) => member_name(json_tree(*value), key@) == Some(opt_text(name)),
            None => member_name(json_tree(*value), key@) is None,
        },
{
    match json_member(value, key) {
        None => Some(None),
        Some(found) => {
            if json_is_null(found) {
                Some(None)
            } else {
                match json_str(found) {
                    Some(text) => Some(Some(text.to_owned())),
                    None => None,
                }
            }
        },
    }
}

/// Reads a player reference from a document.
pub fn decode_player_ref(value: &serde_json::Value) -> (res: Option<PlayerRef>)
    ensures
        match res {
            Some(player) => tree_ref(json_tree(*value)) == Some(player@),
            None => tree_ref(json_tree(*value)) is None,
        },
{
    let summoner_name = match member_string(value, "summoner_name") {
        Some(name) => name,
        None => {
            return None;
        },
    };
    let team = match member_string(value, "team") {
        Some(team) => team,
        None => {
            return None;
        },
    };
    let slot = match member_u64(value, "slot", 255) {
        Some(slot) => slot,
        None => {
            return None;
        },
    };
    match parse_team_tag(team.as_str()) {
        Some(team) => Some(PlayerRef { summoner_name, team, slot: slot as u8 }),
        None => None,
    }
}

/// The player reference under `player` in a payload's body.
fn member_player(data: &serde_json::Value) -> (res: Option<PlayerRef>)
    ensures
        match res {
            Some(player) => member_ref(json_tree(*data), "player"@) == Some(player@),
            None => member_ref(json_tree(*data), "player"@) is None,
        },
{
    match json_member(data, "player") {
        Some(found) => decode_player_ref(found),
        None => None,
    }
}

/// Reads the payload of the variant called `name` from its body.
pub fn decode_payload(name: &str, data: &serde_json::Value) -> (res: Option<EventPayload>)
    ensures
        match res {
            Some(payload) => tree_payload(name@, json_tree(*data)) == Some(payload@),
            None => tree_payload(name@, json_tree(*data)) is None,
        },
{
    if text_eq(name, "player") {
        match member_player(data) {
            Some(player) => Some(EventPayload::Player(PlayerEvent { player })),
            None => None,
        }
    } else if text_eq(name, "playerItem") {
        match (member_player(data), member_u64(data, "item_id", 0xffff_ffff), member_opt_name(
            data,
            "item_name",
        )) {
            (Some(player), Some(item_id), Some(item_name)) => Some(
                EventPayload::PlayerItem(
                    ItemEvent { player, item_id: item_id as u32, item_name },
                ),
            ),
            _ => None,
        }
    } else if text_eq(name, "playerLevel") {
        match (member_player(data), member_u64(data, "level", 255)) {
            (Some(player), Some(level)) => Some(
                EventPayload::PlayerLevel(LevelEvent { player, level: level as u8 }),
            ),
            _ => None,
        }
    } else if text_eq(name, "playerGold") {
        match (member_player(data), member_i32(data, "delta"), member_i32(data, "total")) {
            (Some(player), Some(delta), Some(total)) => Some(
                EventPayload::PlayerGold(GoldEvent { player, delta, total }),
            ),
            _ => None,
        }
    } else if text_eq(name, "phase") {
        match member_string(data, "phase") {
            Some(phase) => Some(EventPayload::Phase(PhaseEvent { phase })),
            None => None,
        }
    } else if text_eq(name, "heartbeat") {
        match member_u64(data, "seq", 0xffff_ffff_ffff_ffff) {
            Some(seq) => Some(EventPayload::Heartbeat(HeartbeatEvent { seq })),
            None => None,
        }
    } else if text_eq(name, "custom") {
        match fields_of_json(data) {
            Some(fields) => Some(EventPayload::Custom(fields)),
            None => None,
        }
    } else {
        None
    }
}

/// Reads an event from a document.
pub fn decode_event(value: &serde_json::Value) -> (res: Option<Event>)
    ensures
        match res {
            Some(event) => tree_event(json_tree(*value)) == Some(event@),
            None => tree_event(json_tree(*value)) is None,
        },
{
    let kind = match member_string(value, "kind") {
        Some(kind) => kind,
        None => {
            return None;
        },
    };
    let ts = match member_u64(value, "ts", 0xffff_ffff_ffff_ffff) {
        Some(ts) => ts,
        None => {
            return None;
        },
    };
    let name = match member_string(value, "payloadKind") {
        Some(name) => name,
        None => {
            return None;
        },
    };
    let data = match json_member(value, "data") {
        Some(data) => data,
        None => {
            return None;
        },
    };
    match (parse_kind(kind.as_str()), decode_payload(name.as_str(), data)) {
        (Some(kind), Some(payload)) => Some(Event { kind, ts, payload }),
        _ => None,
    }
}

/// The event that a text holds: none if the text is no JSON document, else
/// the event that the document holds.
pub open spec fn text_event(text: Seq<char>) -> Option<EventView> {
    match json_parse(text) {
        Some(tree) => tree_event(tree),
        None => None,
    }
}

/// Reads an event from the text of a JSON document.
pub fn parse_event(text: &str) -> (res: Option<Event>)
    ensures
        match res {
            Some(event) => text_event(text@) == Some(event@),
            None => text_event(text@) is None,
        },
{
    match decode_json(text) {
        Some(value) => decode_event(&value),
        None => None,
    }
}

} // verus!
