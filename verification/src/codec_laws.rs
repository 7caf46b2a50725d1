//! What holds of events and their documents: an event that is written as a
//! document and read back is the same event.

use crate::codec::{
    data_tree, event_tree, kind_name, kind_named, member_int, member_name, member_ref, name_tree,
    no_members, payload_name, ref_tree, team_name, team_named, tree_event, tree_payload, tree_ref,
};
use crate::json::{member, member_text, JsonTree};
use crate::model::{EventKind, EventView, PayloadView, PlayerRefView, Team};
use vstd::prelude::*;

verus! {

/// The name of an event kind stands for that kind.
pub proof fn lemma_kind_round_trip(kind: EventKind)
    ensures
        kind_named(kind_name(kind)) == Some(kind),
{
    reveal_strlit("Kill");
    reveal_strlit("Death");
    reveal_strlit("Assist");
    reveal_strlit("LevelUp");
    reveal_strlit("SkillLevelUp");
    reveal_strlit("ItemAdded");
    reveal_strlit("ItemRemoved");
    reveal_strlit("GoldDelta");
    reveal_strlit("Respawn");
    reveal_strlit("PhaseChange");
    reveal_strlit("Heartbeat");
    assert("Kill"@.len() == 4);
    assert("Death"@.len() == 5);
    assert("Assist"@.len() == 6);
    assert("LevelUp"@.len() == 7);
    assert("SkillLevelUp"@.len() == 12);
    assert("ItemAdded"@.len() == 9);
    assert("ItemRemoved"@.len() == 11);
    assert("GoldDelta"@.len() == 9);
    assert("Respawn"@.len() == 7);
    assert("PhaseChange"@.len() == 11);
    assert("Heartbeat"@.len() == 9);
    assert("LevelUp"@[0] == 'L' && "Respawn"@[0] == 'R');
    assert("ItemAdded"@[0] == 'I' && "GoldDelta"@[0] == 'G' && "Heartbeat"@[0] == 'H');
    assert("ItemRemoved"@[0] == 'I' && "PhaseChange"@[0] == 'P');
}

/// The name of a team stands for that team.
pub proof fn lemma_team_round_trip(team: Team)
    ensures
        team_named(team_name(team)) == Some(team),
{
    reveal_strlit("order");
    reveal_strlit("chaos");
    reveal_strlit("neutral");
    assert("order"@.len() == 5);
    assert("chaos"@.len() == 5);
    assert("neutral"@.len() == 7);
    assert("order"@[0] == 'o' && "chaos"@[0] == 'c');
}

/// A player reference that is written as a document and read back is the
/// same reference.
pub proof fn lemma_ref_round_trip(player: PlayerRefView)
    ensures
        tree_ref(ref_tree(player)) == Some(player),
{
    reveal_strlit("summoner_name");
    reveal_strlit("team");
    reveal_strlit("slot");
    assert("summoner_name"@.len() == 13);
    assert("team"@.len() == 4);
    assert("slot"@.len() == 4);
    assert("team"@[0] == 't' && "slot"@[0] == 's');
    lemma_team_round_trip(player.team);
    let tree = ref_tree(player);
    assert(member_text(tree, "summoner_name"@) == Some(player.summoner_name));
    assert(member_text(tree, "team"@) == Some(team_name(player.team)));
    assert(member_int(tree, "slot"@, 0, u8::MAX as int) == Some(player.slot as int));
}

/// A payload whose body is written as a document and read back under the
/// name of its variant is the same payload.
pub proof fn lemma_payload_round_trip(payload: PayloadView)
    ensures
        tree_payload(payload_name(payload), data_tree(payload)) == Some(payload),
{
    reveal_strlit("player");
    reveal_strlit("playerItem");
    reveal_strlit("playerLevel");
    reveal_strlit("playerGold");
    reveal_strlit("phase");
    reveal_strlit("heartbeat");
    reveal_strlit("custom");
    reveal_strlit("item_id");
    reveal_strlit("item_name");
    reveal_strlit("level");
    reveal_strlit("delta");
    reveal_strlit("total");
    reveal_strlit("seq");
    assert("player"@.len() == 6);
    assert("playerItem"@.len() == 10);
    assert("playerLevel"@.len() == 11);
    assert("playerGold"@.len() == 10);
    assert("phase"@.len() == 5);
    assert("heartbeat"@.len() == 9);
    assert("custom"@.len() == 6);
    assert("item_id"@.len() == 7);
    assert("item_name"@.len() == 9);
    assert("level"@.len() == 5);
    assert("delta"@.len() == 5);
    assert("total"@.len() == 5);
    assert("seq"@.len() == 3);
    assert("player"@[0] == 'p' && "custom"@[0] == 'c');
    assert("playerItem"@[6] == 'I' && "playerGold"@[6] == 'G');
    assert("delta"@[0] == 'd' && "total"@[0] == 't');
    let data = data_tree(payload);
    match payload {
        PayloadView::Player { player } => {
            lemma_ref_round_trip(player);
            assert(member_ref(data, "player"@) == Some(player));
        },
        PayloadView::PlayerItem { player, item_id, item_name } => {
            lemma_ref_round_trip(player);
            assert(member_ref(data, "player"@) == Some(player));
            assert(member_int(data, "item_id"@, 0, u32::MAX as int) == Some(item_id as int));
            assert(member(data, "item_name"@) == Some(name_tree(item_name)));
            assert(member_name(data, "item_name"@) == Some(item_name));
        },
        PayloadView::PlayerLevel { player, level } => {
            lemma_ref_round_trip(player);
            assert(member_ref(data, "player"@) == Some(player));
            assert(member_int(data, "level"@, 0, u8::MAX as int) == Some(level as int));
        },
        PayloadView::PlayerGold { player, delta, total } => {
            lemma_ref_round_trip(player);
            assert(member_ref(data, "player"@) == Some(player));
            assert(member_int(data, "delta"@, i32::MIN as int, i32::MAX as int) == Some(
                delta as int,
            ));
            assert(member_int(data, "total"@, i32::MIN as int, i32::MAX as int) == Some(
                total as int,
            ));
        },
        PayloadView::Phase { phase } => {
            assert(member_text(data, "phase"@) == Some(phase));
        },
        PayloadView::Heartbeat { seq } => {
            assert(member_int(data, "seq"@, 0, u64::MAX as int) == Some(seq as int));
        },
        PayloadView::Custom { fields } => {},
    }
}

/// Every event that is written as a document and read back is the same
/// event.
pub proof fn lemma_event_round_trip(event: EventView)
    ensures
        tree_event(event_tree(event)) == Some(event),
{
    reveal_strlit("kind");
    reveal_strlit("ts");
    reveal_strlit("payloadKind");
    reveal_strlit("data");
    assert("kind"@.len() == 4);
    assert("ts"@.len() == 2);
    assert("payloadKind"@.len() == 11);
    assert("data"@.len() == 4);
    assert("kind"@[0] == 'k' && "data"@[0] == 'd');
    lemma_kind_round_trip(event.kind);
    lemma_payload_round_trip(event.payload);
    let tree = event_tree(event);
    assert(member_text(tree, "kind"@) == Some(kind_name(event.kind)));
    assert(member_int(tree, "ts"@, 0, u64::MAX as int) == Some(event.ts as int));
    assert(member_text(tree, "payloadKind"@) == Some(payload_name(event.payload)));
    assert(member(tree, "data"@) == Some(data_tree(event.payload)));
}

/// Events with different documents are different: two events that are
/// written as the same document are the same event.
pub proof fn lemma_documents_tell_events_apart(first: EventView, second: EventView)
    requires
        event_tree(first) == event_tree(second),
    ensures
        first == second,
{
    lemma_event_round_trip(first);
    lemma_event_round_trip(second);
}

} // verus!
