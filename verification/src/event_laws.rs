//! What holds of every event that the pipeline emits: its payload is of the
//! variant that its kind calls for.

use crate::daemon::heartbeat;
use crate::differ::{
    diff_events, gold_events, item_events, level_events, respawn_events, snapshot_of,
    stack_change, stack_changes, stack_loss, stack_losses, SnapshotView,
};
use crate::digest::{ingested, kept, DigestState};
use crate::feed::{assist_events, named_event, normalized, normalized_one, RawEvent, RawView};
use crate::model::{all_well_formed, EventKind, EventView, PlayerRefView};
use crate::order::{lemma_place, place, sorted_by_ts};
use crate::poller::{
    applies_list, list_of, log_of, poll_events, produced, reads_log, registry_after_poll, Fetched,
};
use crate::registry::{apply_events, apply_fold, knows, slot_for, snapshot_for};
use crate::roster::{team_of, EntryView, PlayerListEntry, StackView};
use crate::watcher::{decide, ReportView, WatcherView};
use crate::wire::synthetic_kill_of;
use vstd::prelude::*;

verus! {

/// Two sequences of well-formed events, one after the other, are well
/// formed.
pub proof fn lemma_concat_well_formed(first: Seq<EventView>, second: Seq<EventView>)
    requires
        all_well_formed(first),
        all_well_formed(second),
    ensures
        all_well_formed(first + second),
{
    assert forall|i: int| 0 <= i < (first + second).len() implies (#[trigger] (first
        + second)[i]).well_formed() by {
        if i < first.len() {
            assert((first + second)[i] == first[i]);
        } else {
            assert((first + second)[i] == second[i - first.len()]);
        }
    }
}

/// The item events of the first `n` items of either snapshot are well
/// formed.
pub proof fn lemma_item_events_well_formed(
    player: PlayerRefView,
    ts: u64,
    items: Seq<StackView>,
    prev: Seq<StackView>,
    n: nat,
    m: nat,
)
    ensures
        all_well_formed(stack_changes(player, ts, items, prev, n)),
        all_well_formed(stack_losses(player, ts, prev, items, m)),
    decreases n + m,
{
    if n > 0 {
        lemma_item_events_well_formed(player, ts, items, prev, (n - 1) as nat, m);
        lemma_concat_well_formed(
            stack_changes(player, ts, items, prev, (n - 1) as nat),
            stack_change(player, ts, items[n - 1], prev),
        );
    } else if m > 0 {
        lemma_item_events_well_formed(player, ts, items, prev, n, (m - 1) as nat);
        lemma_concat_well_formed(
            stack_losses(player, ts, prev, items, (m - 1) as nat),
            stack_loss(player, ts, prev[m - 1], items),
        );
    }
}

/// The events of the difference between two snapshots are well formed.
pub proof fn lemma_diff_well_formed(new: SnapshotView, prev: SnapshotView, ts: u64)
    ensures
        all_well_formed(diff_events(new, prev, ts)),
{
    lemma_item_events_well_formed(
        new.reference,
        ts,
        new.items,
        prev.items,
        new.items.len(),
        prev.items.len(),
    );
    lemma_concat_well_formed(
        stack_changes(new.reference, ts, new.items, prev.items, new.items.len()),
        stack_losses(new.reference, ts, prev.items, new.items, prev.items.len()),
    );
    lemma_concat_well_formed(level_events(new, prev, ts), gold_events(new, prev, ts));
    lemma_concat_well_formed(
        level_events(new, prev, ts) + gold_events(new, prev, ts),
        respawn_events(new, prev, ts),
    );
    lemma_concat_well_formed(
        level_events(new, prev, ts) + gold_events(new, prev, ts) + respawn_events(new, prev, ts),
        item_events(new, prev, ts),
    );
}

/// The events that the first `n` entries of a player list yield are well
/// formed.
pub proof fn lemma_fold_well_formed(
    prev: Seq<SnapshotView>,
    entries: Seq<EntryView>,
    ts: u64,
    n: nat,
)
    ensures
        all_well_formed(apply_fold(prev, entries, ts, n).events),
    decreases n,
{
    if n > 0 {
        lemma_fold_well_formed(prev, entries, ts, (n - 1) as nat);
        let state = apply_fold(prev, entries, ts, (n - 1) as nat);
        let entry = entries[n - 1];
        if knows(prev, entry.summoner_name) {
            let slot = slot_for(prev, state.used, entry);
            let snap = snapshot_of(entry, team_of(entry.team), slot);
            let found = snapshot_for(prev, entry.summoner_name);
            lemma_diff_well_formed(snap, found, ts);
            lemma_concat_well_formed(state.events, diff_events(snap, found, ts));
        }
    }
}

/// The events that applying a player list yields are well formed.
pub proof fn lemma_apply_well_formed(prev: Seq<SnapshotView>, entries: Seq<EntryView>, ts: u64)
    ensures
        all_well_formed(apply_events(prev, entries, ts)),
{
    lemma_fold_well_formed(prev, entries, ts, entries.len());
}

/// The assists of the first `n` assisters are well formed.
pub proof fn lemma_assists_well_formed(
    ts: u64,
    players: Seq<SnapshotView>,
    assisters: Seq<Seq<char>>,
    n: nat,
)
    ensures
        all_well_formed(assist_events(ts, players, assisters, n)),
    decreases n,
{
    if n > 0 {
        lemma_assists_well_formed(ts, players, assisters, (n - 1) as nat);
    }
}

/// The typed events of one raw event are well formed.
pub proof fn lemma_normalized_one_well_formed(raw: RawView, players: Seq<SnapshotView>)
    ensures
        all_well_formed(normalized_one(raw, players)),
{
    let ts = raw.event_time_ms;
    let kills = named_event(EventKind::Kill, ts, players, raw.killer_name);
    let deaths = named_event(EventKind::Death, ts, players, raw.victim_name);
    lemma_assists_well_formed(ts, players, raw.assisters, raw.assisters.len());
    lemma_concat_well_formed(kills, deaths);
    lemma_concat_well_formed(
        kills + deaths,
        assist_events(ts, players, raw.assisters, raw.assisters.len()),
    );
}

/// The typed events of a log are well formed.
pub proof fn lemma_normalized_well_formed(raws: Seq<RawView>, players: Seq<SnapshotView>)
    ensures
        all_well_formed(normalized(raws, players)),
    decreases raws.len(),
{
    if raws.len() > 0 {
        lemma_normalized_well_formed(raws.drop_last(), players);
        lemma_normalized_one_well_formed(raws.last(), players);
        lemma_concat_well_formed(
            normalized(raws.drop_last(), players),
            normalized_one(raws.last(), players),
        );
    }
}

/// Sorting keeps the events as they are: those of a well-formed sequence are
/// well formed when it is sorted.
pub proof fn lemma_sorted_well_formed(events: Seq<EventView>)
    requires
        all_well_formed(events),
    ensures
        all_well_formed(sorted_by_ts(events)),
    decreases events.len(),
{
    if events.len() > 0 {
        let rest = events.drop_last();
        assert forall|i: int| 0 <= i < rest.len() implies (#[trigger] rest[i]).well_formed() by {
            assert(rest[i] == events[i]);
        }
        lemma_sorted_well_formed(rest);
        lemma_place(sorted_by_ts(rest), events.last().ts);
        let before = sorted_by_ts(rest);
        let at = place(before, events.last().ts) as int;
        let after = before.insert(at, events.last());
        assert forall|i: int| 0 <= i < after.len() implies (#[trigger] after[i]).well_formed() by {
            if i < at {
                assert(after[i] == before[i]);
            } else if i > at {
                assert(after[i] == before[i - 1]);
            }
        }
    }
}

/// Every event of the batch of a poll carries the payload that its kind
/// calls for.
pub proof fn lemma_poll_well_formed(
    digest: DigestState,
    prev: Seq<SnapshotView>,
    players: Option<Fetched<Vec<PlayerListEntry>>>,
    events: Option<Fetched<Vec<RawEvent>>>,
    now_ms: u64,
)
    ensures
        all_well_formed(poll_events(digest, prev, players, events, now_ms)),
{
    let from_list = if applies_list(digest, players, events) {
        apply_events(prev, list_of(players), now_ms)
    } else {
        Seq::empty()
    };
    let from_log = if reads_log(digest, players, events) {
        ingested(
            digest.last_event_id,
            log_of(events),
            registry_after_poll(digest, prev, players, events, now_ms),
        )
    } else {
        Seq::empty()
    };
    if applies_list(digest, players, events) {
        lemma_apply_well_formed(prev, list_of(players), now_ms);
    }
    if reads_log(digest, players, events) {
        lemma_normalized_well_formed(
            kept(digest.last_event_id, log_of(events)),
            registry_after_poll(digest, prev, players, events, now_ms),
        );
    }
    lemma_concat_well_formed(from_list, from_log);
    assert(produced(digest, prev, players, events, now_ms) == from_list + from_log);
    lemma_sorted_well_formed(produced(digest, prev, players, events, now_ms));
}

/// The event that the phase watcher publishes, if it publishes one, is a
/// phase change with a phase payload.
pub proof fn lemma_decision_well_formed(state: WatcherView, report: ReportView, ts: u64)
    ensures
        match decide(state, report, ts).emit {
            Some(event) => event.well_formed() && event.kind == EventKind::PhaseChange,
            None => true,
        },
{
}

/// The heartbeat of the bootstrap routine and the synthetic kill are well
/// formed.
pub proof fn lemma_made_events_well_formed(seq: u64, ts: u64, summoner: Seq<char>)
    ensures
        heartbeat(seq, ts).well_formed(),
        synthetic_kill_of(summoner).well_formed(),
{
}

} // verus!
