//! What holds of the registry over successive player lists.

use crate::differ::{
    clip_gold,
    clip_level,
    diff_events,
    item_events,
    snapshot_of,
    stack_change,
    stack_changes,
    stack_loss,
    stack_losses,
    SnapshotView,
};
use crate::model::{EventView, PlayerRefView, Team};
use crate::registry::{
    apply_events,
    apply_fold,
    keeps,
    kept_slots,
    knows,
    lemma_name_index,
    lemma_name_index_is,
    name_index,
    put,
    registry_after,
    registry_ok,
    slot_for,
    snapshot_for,
};
use crate::roster::{
    first_free,
    folded,
    lemma_first_free_taken,
    lemma_folded_ok,
    lemma_stack_index_is,
    pick_slot,
    slot_end,
    slot_start,
    stacks_ok,
    team_of,
    EntryView,
    StackView,
};
use vstd::prelude::*;

verus! {

/// Whether no two entries of a player list bear the same name.
pub open spec fn distinct_names(entries: Seq<EntryView>) -> bool {
    forall|i: int, j: int|
        0 <= i < j < entries.len() ==> (#[trigger] entries[i]).summoner_name != (
        #[trigger] entries[j]).summoner_name
}

/// A newly allocated slot lies in the range of its team, and so is one of
/// the ten.
pub proof fn lemma_pick_slot_in_range(team: crate::model::Team, used: Set<u8>)
    ensures
        slot_start(team) <= pick_slot(team, used) < slot_end(team),
        pick_slot(team, used) < 10,
{
    lemma_first_free_bound(used, slot_start(team), slot_end(team));
}

/// The lowest free slot of a range lies in the range or at its end.
pub proof fn lemma_first_free_bound(used: Set<u8>, from: u8, end: u8)
    requires
        from <= end,
    ensures
        from <= first_free(used, from, end) <= end,
    decreases end - from,
{
    if from < end && used.contains(from) {
        lemma_first_free_bound(used, (from + 1) as u8, end);
    }
}

/// While a list is applied, the registry being built is in order, and each
/// of its snapshots whose name the previous registry knows holds the slot
/// that the previous registry has for that name.
pub proof fn lemma_fold_keeps_slots(
    prev: Seq<SnapshotView>,
    entries: Seq<EntryView>,
    ts: u64,
    n: nat,
)
    requires
        registry_ok(prev),
        n <= entries.len(),
    ensures
        registry_ok(apply_fold(prev, entries, ts, n).players),
        forall|i: int|
            #![trigger apply_fold(prev, entries, ts, n).players[i]]
            0 <= i < apply_fold(prev, entries, ts, n).players.len() && knows(
                prev,
                apply_fold(prev, entries, ts, n).players[i].reference.summoner_name,
            ) ==> apply_fold(prev, entries, ts, n).players[i].reference.slot == snapshot_for(
                prev,
                apply_fold(prev, entries, ts, n).players[i].reference.summoner_name,
            ).reference.slot,
    decreases n,
{
    if n > 0 {
        lemma_fold_keeps_slots(prev, entries, ts, (n - 1) as nat);
        let state = apply_fold(prev, entries, ts, (n - 1) as nat);
        let entry = entries[n - 1];
        let slot = slot_for(prev, state.used, entry);
        let snap = snapshot_of(entry, team_of(entry.team), slot);
        lemma_name_index(prev, entry.summoner_name);
        lemma_pick_slot_in_range(team_of(entry.team), state.used);
        lemma_folded_ok(entry.items);
        lemma_name_index(state.players, snap.reference.summoner_name);
        let after = put(state.players, snap);
        assert(after == apply_fold(prev, entries, ts, n).players);
        assert forall|i: int|
            0 <= i < after.len() && knows(
                prev,
                (#[trigger] after[i]).reference.summoner_name,
            ) implies after[i].reference.slot == snapshot_for(
            prev,
            after[i].reference.summoner_name,
        ).reference.slot by {
            let at = name_index(state.players, snap.reference.summoner_name) as int;
            if i == at {
                assert(after[i] == snap);
            } else {
                assert(after[i] == state.players[i]);
            }
        }
    }
}

/// The slot of a summoner name is constant while the registry knows the
/// name: a player that the registry knew before a list was applied, and
/// knows after it, holds the same slot as before.
pub proof fn lemma_slot_is_stable(
    prev: Seq<SnapshotView>,
    entries: Seq<EntryView>,
    ts: u64,
    name: Seq<char>,
)
    requires
        registry_ok(prev),
        knows(prev, name),
        knows(registry_after(prev, entries, ts), name),
    ensures
        snapshot_for(registry_after(prev, entries, ts), name).reference.slot == snapshot_for(
            prev,
            name,
        ).reference.slot,
{
    lemma_fold_keeps_slots(prev, entries, ts, entries.len());
    lemma_name_index(registry_after(prev, entries, ts), name);
}

/// A list applied to an empty registry sets the baseline: it yields no event.
pub proof fn lemma_baseline_is_silent(entries: Seq<EntryView>, ts: u64)
    ensures
        apply_events(Seq::empty(), entries, ts) == Seq::<EventView>::empty(),
{
    lemma_baseline_steps(entries, ts, entries.len());
}

/// The first application of a list, entry by entry.
pub proof fn lemma_baseline_steps(entries: Seq<EntryView>, ts: u64, n: nat)
    requires
        n <= entries.len(),
    ensures
        apply_fold(Seq::empty(), entries, ts, n).events == Seq::<EventView>::empty(),
    decreases n,
{
    if n > 0 {
        lemma_baseline_steps(entries, ts, (n - 1) as nat);
    }
}

/// A snapshot compared with itself gives no item event.
pub proof fn lemma_no_item_change(player: PlayerRefView, ts: u64, items: Seq<StackView>, n: nat)
    requires
        stacks_ok(items),
        n <= items.len(),
    ensures
        stack_changes(player, ts, items, items, n) == Seq::<EventView>::empty(),
        stack_losses(player, ts, items, items, n) == Seq::<EventView>::empty(),
    decreases n,
{
    if n > 0 {
        lemma_no_item_change(player, ts, items, (n - 1) as nat);
        lemma_stack_index_is(items, items[n - 1].item_id, (n - 1) as nat);
        assert(stack_change(player, ts, items[n - 1], items) == Seq::<EventView>::empty());
        assert(stack_loss(player, ts, items[n - 1], items) == Seq::<EventView>::empty());
    }
}

/// A snapshot compared with itself gives no event.
pub proof fn lemma_diff_with_itself(snap: SnapshotView, ts: u64)
    requires
        stacks_ok(snap.items),
    ensures
        diff_events(snap, snap, ts) == Seq::<EventView>::empty(),
{
    lemma_no_item_change(snap.reference, ts, snap.items, snap.items.len());
    assert(item_events(snap, snap, ts) =~= Seq::<EventView>::empty());
    assert(diff_events(snap, snap, ts) =~= Seq::<EventView>::empty());
}

/// Two snapshots that hold the same level, gold, life and items give no
/// event, whatever their references.
pub proof fn lemma_diff_of_same_state(new: SnapshotView, prev: SnapshotView, ts: u64)
    requires
        stacks_ok(new.items),
        new.level == prev.level,
        new.current_gold == prev.current_gold,
        new.is_dead == prev.is_dead,
        new.items == prev.items,
    ensures
        diff_events(new, prev, ts) == Seq::<EventView>::empty(),
{
    lemma_no_item_change(new.reference, ts, new.items, new.items.len());
    assert(item_events(new, prev, ts) =~= Seq::<EventView>::empty());
    assert(diff_events(new, prev, ts) =~= Seq::<EventView>::empty());
}

/// Whether a snapshot holds the state that an entry tells: its level, gold
/// and life, and its items.
pub open spec fn holds_state(snap: SnapshotView, entry: EntryView) -> bool {
    &&& snap.level == clip_level(entry.level)
    &&& snap.current_gold == clip_gold(entry.current_gold)
    &&& snap.is_dead == entry.is_dead
    &&& snap.items == folded(entry.items)
}

/// Whether two entries tell the same state of a player.
pub open spec fn same_state(first: EntryView, second: EntryView) -> bool {
    &&& clip_level(first.level) == clip_level(second.level)
    &&& clip_gold(first.current_gold) == clip_gold(second.current_gold)
    &&& first.is_dead == second.is_dead
    &&& folded(first.items) == folded(second.items)
}

/// Whether the entries of a list that bear the same name tell the same
/// state. A list in which no name occurs twice is of this kind.
pub open spec fn namesakes_agree(entries: Seq<EntryView>) -> bool {
    forall|i: int, j: int|
        0 <= i < j < entries.len() && (#[trigger] entries[i]).summoner_name == (
        #[trigger] entries[j]).summoner_name ==> same_state(entries[i], entries[j])
}

/// Whether a registry is settled on a list: it knows every player of the
/// list, in the state that the list tells.
pub open spec fn settled(players: Seq<SnapshotView>, entries: Seq<EntryView>) -> bool {
    forall|i: int|
        0 <= i < entries.len() ==> knows(players, (#[trigger] entries[i]).summoner_name)
            && holds_state(snapshot_for(players, entries[i].summoner_name), entries[i])
}

/// What a registry holds for a name after a snapshot was put into it: the
/// snapshot under its own name, and under any other name what it held
/// before.
pub proof fn lemma_put_lookup(players: Seq<SnapshotView>, snap: SnapshotView, name: Seq<char>)
    requires
        registry_ok(players),
    ensures
        name == snap.reference.summoner_name ==> knows(put(players, snap), name) && snapshot_for(
            put(players, snap),
            name,
        ) == snap,
        name != snap.reference.summoner_name ==> knows(put(players, snap), name) == knows(
            players,
            name,
        ) && (knows(players, name) ==> snapshot_for(put(players, snap), name) == snapshot_for(
            players,
            name,
        )),
{
    let own = snap.reference.summoner_name;
    let at = name_index(players, own);
    let after = put(players, snap);
    lemma_name_index(players, own);
    lemma_name_index(players, name);
    if name == own {
        assert forall|k: int| 0 <= k < at implies (#[trigger] after[k]).reference.summoner_name
            != own by {
            assert(after[k] == players[k]);
        }
        lemma_name_index_is(after, own, at);
    } else {
        let was = name_index(players, name);
        assert forall|k: int| 0 <= k < was implies (#[trigger] after[k]).reference.summoner_name
            != name by {
            if k != at {
                assert(after[k] == players[k]);
            }
        }
        if was < players.len() {
            assert(after[was as int] == players[was as int]);
            lemma_name_index_is(after, name, was);
        } else {
            assert forall|k: int| 0 <= k < after.len() implies (
            #[trigger] after[k]).reference.summoner_name != name by {
                if k < players.len() && k != at {
                    assert(after[k] == players[k]);
                }
            }
            lemma_name_index_is(after, name, after.len());
        }
    }
}

/// While a list whose namesakes agree is applied, the registry being built
/// is settled on the entries applied so far.
pub proof fn lemma_fold_settles(
    prev: Seq<SnapshotView>,
    entries: Seq<EntryView>,
    ts: u64,
    n: nat,
)
    requires
        registry_ok(prev),
        namesakes_agree(entries),
        n <= entries.len(),
    ensures
        settled(apply_fold(prev, entries, ts, n).players, entries.take(n as int)),
    decreases n,
{
    if n > 0 {
        lemma_fold_settles(prev, entries, ts, (n - 1) as nat);
        lemma_fold_keeps_slots(prev, entries, ts, (n - 1) as nat);
        let state = apply_fold(prev, entries, ts, (n - 1) as nat);
        let entry = entries[n - 1];
        let slot = slot_for(prev, state.used, entry);
        let snap = snapshot_of(entry, team_of(entry.team), slot);
        let after = put(state.players, snap);
        assert(after == apply_fold(prev, entries, ts, n).players);
        let done = entries.take(n as int);
        assert forall|i: int| 0 <= i < done.len() implies knows(
            after,
            (#[trigger] done[i]).summoner_name,
        ) && holds_state(snapshot_for(after, done[i].summoner_name), done[i]) by {
            lemma_put_lookup(state.players, snap, done[i].summoner_name);
            assert(done[i] == entries[i]);
            if i < n - 1 {
                assert(entries.take(n - 1)[i] == entries[i]);
                if entries[i].summoner_name == entry.summoner_name {
                    assert(same_state(entries[i], entries[n - 1]));
                }
            }
        }
    }
}

/// Applied to a registry that is settled on it, a list yields no event for
/// its first `n` entries.
pub proof fn lemma_settled_fold_is_silent(
    players: Seq<SnapshotView>,
    entries: Seq<EntryView>,
    ts: u64,
    n: nat,
)
    requires
        settled(players, entries),
        n <= entries.len(),
    ensures
        apply_fold(players, entries, ts, n).events == Seq::<EventView>::empty(),
    decreases n,
{
    if n > 0 {
        lemma_settled_fold_is_silent(players, entries, ts, (n - 1) as nat);
        let state = apply_fold(players, entries, ts, (n - 1) as nat);
        let entry = entries[n - 1];
        let slot = slot_for(players, state.used, entry);
        let snap = snapshot_of(entry, team_of(entry.team), slot);
        lemma_folded_ok(entry.items);
        lemma_diff_of_same_state(snap, snapshot_for(players, entry.summoner_name), ts);
        assert(state.events + Seq::<EventView>::empty() == state.events);
    }
}

/// Identical lists emit nothing: a list that is applied a second time right
/// after it was applied yields no event, and leaves the registry settled on
/// it. This holds of every list whose entries of the same name tell the same
/// state.
pub proof fn lemma_repeat_is_silent(
    prev: Seq<SnapshotView>,
    entries: Seq<EntryView>,
    ts_first: u64,
    ts_second: u64,
)
    requires
        registry_ok(prev),
        namesakes_agree(entries),
    ensures
        settled(registry_after(prev, entries, ts_first), entries),
        apply_events(registry_after(prev, entries, ts_first), entries, ts_second) == Seq::<
            EventView,
        >::empty(),
{
    lemma_fold_settles(prev, entries, ts_first, entries.len());
    assert(entries.take(entries.len() as int) == entries);
    lemma_settled_fold_is_silent(
        registry_after(prev, entries, ts_first),
        entries,
        ts_second,
        entries.len(),
    );
}

/// A registry that is settled on a list stays so: the list, applied once
/// more, yields no event and leaves the registry settled on it. So a list
/// that is applied any number of times in a row yields events the first time
/// at most.
pub proof fn lemma_settled_stays_silent(
    players: Seq<SnapshotView>,
    entries: Seq<EntryView>,
    ts: u64,
)
    requires
        registry_ok(players),
        settled(players, entries),
    ensures
        apply_events(players, entries, ts) == Seq::<EventView>::empty(),
        settled(registry_after(players, entries, ts), entries),
{
    lemma_settled_fold_is_silent(players, entries, ts, entries.len());
    lemma_fold_settles(players, entries, ts, entries.len());
    assert(entries.take(entries.len() as int) == entries);
}

/// Applied to any registry, a list of distinct names leaves one snapshot per
/// entry, in the order of the list, each made from its entry.
pub proof fn lemma_fold_of_distinct(
    prev: Seq<SnapshotView>,
    entries: Seq<EntryView>,
    ts: u64,
    n: nat,
)
    requires
        registry_ok(prev),
        distinct_names(entries),
        n <= entries.len(),
    ensures
        apply_fold(prev, entries, ts, n).players.len() == n,
        forall|k: int|
            #![trigger apply_fold(prev, entries, ts, n).players[k]]
            0 <= k < n ==> apply_fold(prev, entries, ts, n).players[k] == snapshot_of(
                entries[k],
                team_of(entries[k].team),
                apply_fold(prev, entries, ts, n).players[k].reference.slot,
            ),
    decreases n,
{
    if n > 0 {
        lemma_fold_of_distinct(prev, entries, ts, (n - 1) as nat);
        let state = apply_fold(prev, entries, ts, (n - 1) as nat);
        let entry = entries[n - 1];
        let slot = slot_for(prev, state.used, entry);
        let snap = snapshot_of(entry, team_of(entry.team), slot);
        assert forall|k: int| 0 <= k < n - 1 implies (
        #[trigger] state.players[k]).reference.summoner_name != entry.summoner_name by {
            assert(state.players[k].reference.summoner_name == entries[k].summoner_name);
        }
        lemma_name_index_is(state.players, entry.summoner_name, (n - 1) as nat);
        assert(put(state.players, snap) == state.players.push(snap));
    }
}

/// A list of distinct names that is applied twice in a row leaves the
/// registry as the first application left it: slots and teams included.
pub proof fn lemma_repeat_keeps_registry(
    prev: Seq<SnapshotView>,
    entries: Seq<EntryView>,
    ts_first: u64,
    ts_second: u64,
)
    requires
        registry_ok(prev),
        distinct_names(entries),
    ensures
        registry_after(registry_after(prev, entries, ts_first), entries, ts_second)
            == registry_after(prev, entries, ts_first),
{
    let first = registry_after(prev, entries, ts_first);
    lemma_fold_of_distinct(prev, entries, ts_first, entries.len());
    lemma_fold_keeps_slots(prev, entries, ts_first, entries.len());
    lemma_repeat_steps(first, entries, ts_second, entries.len());
    assert(first.take(entries.len() as int) == first);
}

/// The second application of a list of distinct names, entry by entry.
pub proof fn lemma_repeat_steps(
    first: Seq<SnapshotView>,
    entries: Seq<EntryView>,
    ts: u64,
    n: nat,
)
    requires
        registry_ok(first),
        distinct_names(entries),
        first.len() == entries.len(),
        forall|k: int|
            0 <= k < first.len() ==> (#[trigger] first[k]) == snapshot_of(
                entries[k],
                team_of(entries[k].team),
                first[k].reference.slot,
            ),
        n <= entries.len(),
    ensures
        apply_fold(first, entries, ts, n).events == Seq::<EventView>::empty(),
        apply_fold(first, entries, ts, n).players == first.take(n as int),
    decreases n,
{
    if n > 0 {
        lemma_repeat_steps(first, entries, ts, (n - 1) as nat);
        let state = apply_fold(first, entries, ts, (n - 1) as nat);
        let entry = entries[n - 1];
        assert forall|k: int| 0 <= k < n - 1 implies (
        #[trigger] first[k]).reference.summoner_name != entry.summoner_name by {
            assert(first[k].reference.summoner_name == entries[k].summoner_name);
        }
        assert(first[n - 1].reference.summoner_name == entry.summoner_name);
        lemma_name_index_is(first, entry.summoner_name, (n - 1) as nat);
        let slot = slot_for(first, state.used, entry);
        let snap = snapshot_of(entry, team_of(entry.team), slot);
        assert(snap == first[n - 1]);
        lemma_diff_with_itself(snap, ts);
        assert forall|k: int| 0 <= k < n - 1 implies (
        #[trigger] state.players[k]).reference.summoner_name != entry.summoner_name by {
            assert(state.players[k] == first[k]);
        }
        lemma_name_index_is(state.players, entry.summoner_name, (n - 1) as nat);
        assert(put(state.players, snap) == state.players.push(snap));
        assert(first.take(n as int) == first.take(n - 1).push(first[n - 1]));
        assert(state.events + Seq::<EventView>::empty() == state.events);
    }
}

/// Whether no two snapshots of a registry hold the same slot.
pub open spec fn distinct_slots(players: Seq<SnapshotView>) -> bool {
    forall|i: int, j: int|
        0 <= i < j < players.len() ==> (#[trigger] players[i]).reference.slot != (
        #[trigger] players[j]).reference.slot
}

/// Whether every snapshot of a registry holds a slot of its team's range.
pub open spec fn in_team_ranges(players: Seq<SnapshotView>) -> bool {
    forall|i: int|
        0 <= i < players.len() ==> slot_start((#[trigger] players[i]).reference.team)
            <= players[i].reference.slot < slot_end(players[i].reference.team)
}

/// The slot that the entry at position `i` of a list is given.
pub open spec fn slot_at(prev: Seq<SnapshotView>, entries: Seq<EntryView>, ts: u64, i: int) -> u8 {
    slot_for(prev, apply_fold(prev, entries, ts, i as nat).used, entries[i])
}

/// Whether a slot was free for the entry at position `n` of a list, if the
/// entry is of a player that the previous registry does not know.
pub open spec fn finds_free_slot(
    prev: Seq<SnapshotView>,
    entries: Seq<EntryView>,
    ts: u64,
    n: int,
) -> bool {
    let team = team_of(entries[n].team);
    knows(prev, entries[n].summoner_name) || first_free(
        apply_fold(prev, entries, ts, n as nat).used,
        slot_start(team),
        slot_end(team),
    ) < slot_end(team)
}

/// Whether a slot was free for every new player of a list.
pub open spec fn finds_free_slots(prev: Seq<SnapshotView>, entries: Seq<EntryView>, ts: u64) -> bool {
    forall|n: int| 0 <= n < entries.len() ==> finds_free_slot(prev, entries, ts, n)
}

/// The lowest free slot of a range, where there is one, is free.
pub proof fn lemma_first_free_is_free(used: Set<u8>, from: u8, end: u8)
    requires
        from <= end,
        first_free(used, from, end) < end,
    ensures
        !used.contains(first_free(used, from, end)),
    decreases end - from,
{
    if from < end && used.contains(from) {
        lemma_first_free_is_free(used, (from + 1) as u8, end);
    }
}

/// While a list is applied for whose new players slots were free, no two
/// snapshots of the registry being built hold the same slot; the slots taken
/// hold those that the list keeps and those of the registry being built;
/// and a new player holds none of the slots that the list keeps.
pub proof fn lemma_fold_keeps_slots_apart(
    prev: Seq<SnapshotView>,
    entries: Seq<EntryView>,
    ts: u64,
    n: nat,
)
    requires
        registry_ok(prev),
        distinct_slots(prev),
        finds_free_slots(prev, entries, ts),
        n <= entries.len(),
    ensures
        distinct_slots(apply_fold(prev, entries, ts, n).players),
        forall|slot: u8|
            kept_slots(prev, entries).contains(slot) ==> #[trigger] apply_fold(
                prev,
                entries,
                ts,
                n,
            ).used.contains(slot),
        forall|i: int|
            #![trigger apply_fold(prev, entries, ts, n).players[i]]
            0 <= i < apply_fold(prev, entries, ts, n).players.len() ==> apply_fold(
                prev,
                entries,
                ts,
                n,
            ).used.contains(apply_fold(prev, entries, ts, n).players[i].reference.slot),
        forall|i: int|
            #![trigger apply_fold(prev, entries, ts, n).players[i]]
            0 <= i < apply_fold(prev, entries, ts, n).players.len() && !knows(
                prev,
                apply_fold(prev, entries, ts, n).players[i].reference.summoner_name,
            ) ==> !kept_slots(prev, entries).contains(
                apply_fold(prev, entries, ts, n).players[i].reference.slot,
            ),
    decreases n,
{
    if n > 0 {
        lemma_fold_keeps_slots_apart(prev, entries, ts, (n - 1) as nat);
        lemma_fold_keeps_slots(prev, entries, ts, (n - 1) as nat);
        lemma_fold_keeps_slots(prev, entries, ts, n);
        let state = apply_fold(prev, entries, ts, (n - 1) as nat);
        let entry = entries[n - 1];
        let team = team_of(entry.team);
        let slot = slot_for(prev, state.used, entry);
        let snap = snapshot_of(entry, team, slot);
        let at = name_index(state.players, entry.summoner_name) as int;
        let after = put(state.players, snap);
        assert(after == apply_fold(prev, entries, ts, n).players);
        assert(finds_free_slot(prev, entries, ts, n - 1));
        lemma_name_index(prev, entry.summoner_name);
        lemma_name_index(state.players, entry.summoner_name);
        if knows(prev, entry.summoner_name) {
            assert(keeps(prev, entries[n - 1], slot));
            assert(kept_slots(prev, entries).contains(slot));
        } else {
            lemma_first_free_is_free(state.used, slot_start(team), slot_end(team));
        }
        assert forall|k: int| 0 <= k < state.players.len() && k != at implies (
        #[trigger] state.players[k]).reference.slot != slot by {
            let other = state.players[k];
            if knows(prev, entry.summoner_name) {
                if knows(prev, other.reference.summoner_name) {
                    let mine = name_index(prev, entry.summoner_name) as int;
                    let theirs = name_index(prev, other.reference.summoner_name) as int;
                    lemma_name_index(prev, other.reference.summoner_name);
                    assert(prev[theirs].reference.slot == other.reference.slot);
                    assert(prev[mine].reference.summoner_name != prev[theirs].reference.summoner_name);
                    if mine < theirs {
                        assert(prev[mine].reference.slot != prev[theirs].reference.slot);
                    } else {
                        assert(prev[theirs].reference.slot != prev[mine].reference.slot);
                    }
                }
            } else {
                assert(state.used.contains(other.reference.slot));
            }
        }
        assert forall|i: int, j: int| 0 <= i < j < after.len() implies (
        #[trigger] after[i]).reference.slot != (#[trigger] after[j]).reference.slot by {
            if i != at && j != at {
                assert(after[i] == state.players[i]);
                assert(after[j] == state.players[j]);
            } else if i == at {
                assert(after[j] == state.players[j]);
            } else {
                assert(after[i] == state.players[i]);
            }
        }
        assert forall|i: int| 0 <= i < after.len() implies state.used.insert(slot).contains(
            (#[trigger] after[i]).reference.slot,
        ) by {
            if i != at {
                assert(after[i] == state.players[i]);
            }
        }
        assert forall|i: int|
            0 <= i < after.len() && !knows(
                prev,
                (#[trigger] after[i]).reference.summoner_name,
            ) implies !kept_slots(prev, entries).contains(after[i].reference.slot) by {
            if i != at {
                assert(after[i] == state.players[i]);
            }
        }
    }
}

/// No two live snapshots hold the same slot, as long as a slot is free for
/// every new player: if the slots of a registry are distinct, they are
/// distinct after a list was applied for whose new players slots were free.
pub proof fn lemma_slots_stay_distinct(prev: Seq<SnapshotView>, entries: Seq<EntryView>, ts: u64)
    requires
        registry_ok(prev),
        distinct_slots(prev),
        finds_free_slots(prev, entries, ts),
    ensures
        distinct_slots(registry_after(prev, entries, ts)),
{
    lemma_fold_keeps_slots_apart(prev, entries, ts, entries.len());
}

/// How many entries of a list are of `team`.
pub open spec fn team_count(entries: Seq<EntryView>, team: Team) -> nat
    decreases entries.len(),
{
    if entries.len() == 0 {
        0
    } else if team_of(entries.last().team) == team {
        team_count(entries.drop_last(), team) + 1
    } else {
        team_count(entries.drop_last(), team)
    }
}

/// The positions of the entries of `team` in a list.
pub open spec fn team_places(entries: Seq<EntryView>, team: Team) -> Set<int> {
    Set::new(|i: int| 0 <= i < entries.len() && team_of(entries[i].team) == team)
}

/// Whether a list fits the two sides: every entry is of the Order or of the
/// Chaos side, and neither side has more than five entries.
pub open spec fn fits_sides(entries: Seq<EntryView>) -> bool {
    &&& forall|i: int| 0 <= i < entries.len() ==> team_of((#[trigger] entries[i]).team) != Team::Neutral
    &&& team_count(entries, Team::Order) <= 5
    &&& team_count(entries, Team::Chaos) <= 5
}

/// Whether a list keeps the teams: every player that the registry knows is
/// listed under the team that the registry has for it.
pub open spec fn teams_kept(prev: Seq<SnapshotView>, entries: Seq<EntryView>) -> bool {
    forall|i: int|
        0 <= i < entries.len() && knows(prev, (#[trigger] entries[i]).summoner_name)
            ==> snapshot_for(prev, entries[i].summoner_name).reference.team == team_of(
            entries[i].team,
        )
}

/// Whether the entry at position `i` holds `slot` when `n` entries of a
/// list were applied: it is given that slot, and it was applied already or
/// keeps the slot from the previous registry.
pub open spec fn owns(
    prev: Seq<SnapshotView>,
    entries: Seq<EntryView>,
    ts: u64,
    n: nat,
    i: int,
    slot: u8,
) -> bool {
    &&& 0 <= i < entries.len()
    &&& slot_at(prev, entries, ts, i) == slot
    &&& (i < n || knows(prev, entries[i].summoner_name))
}

/// Distinct positions of entries of one team are no more than the entries
/// of that team.
pub proof fn lemma_team_count_bounds(entries: Seq<EntryView>, team: Team, places: Set<int>)
    requires
        places.finite(),
        places.subset_of(team_places(entries, team)),
    ensures
        places.len() <= team_count(entries, team),
    decreases entries.len(),
{
    if entries.len() == 0 {
        assert(places =~= Set::<int>::empty());
    } else {
        let last = entries.len() - 1;
        let rest = places.remove(last);
        assert forall|i: int| rest.contains(i) implies team_places(
            entries.drop_last(),
            team,
        ).contains(i) by {
            assert(places.contains(i));
            assert(team_places(entries, team).contains(i));
            assert(entries.drop_last()[i] == entries[i]);
        }
        lemma_team_count_bounds(entries.drop_last(), team, rest);
        if places.contains(last) {
            assert(team_places(entries, team).contains(last));
        }
    }
}

/// Every slot that is taken while a list is applied is held by an entry of
/// the list.
pub proof fn lemma_taken_slots_have_owners(
    prev: Seq<SnapshotView>,
    entries: Seq<EntryView>,
    ts: u64,
    n: nat,
)
    requires
        n <= entries.len(),
    ensures
        forall|slot: u8| #[trigger]
            apply_fold(prev, entries, ts, n).used.contains(slot) ==> exists|i: int|
                owns(prev, entries, ts, n, i, slot),
    decreases n,
{
    let used = apply_fold(prev, entries, ts, n).used;
    if n == 0 {
        assert forall|slot: u8| #[trigger] used.contains(slot) implies exists|i: int|
            owns(prev, entries, ts, n, i, slot) by {
            let i = choose|i: int| 0 <= i < entries.len() && keeps(prev, #[trigger] entries[i], slot);
            assert(owns(prev, entries, ts, n, i, slot));
        }
    } else {
        let m = (n - 1) as nat;
        lemma_taken_slots_have_owners(prev, entries, ts, m);
        let before = apply_fold(prev, entries, ts, m).used;
        assert forall|slot: u8| #[trigger] used.contains(slot) implies exists|i: int|
            owns(prev, entries, ts, n, i, slot) by {
            if before.contains(slot) {
                let i = choose|i: int| owns(prev, entries, ts, m, i, slot);
                assert(owns(prev, entries, ts, n, i, slot));
            } else {
                assert(owns(prev, entries, ts, n, n - 1, slot));
            }
        }
    }
}

/// Where a list keeps the teams of a registry whose slots lie in their
/// teams' ranges, every entry is given a slot of its team's range.
pub proof fn lemma_slot_at_in_range(
    prev: Seq<SnapshotView>,
    entries: Seq<EntryView>,
    ts: u64,
    i: int,
)
    requires
        in_team_ranges(prev),
        teams_kept(prev, entries),
        0 <= i < entries.len(),
    ensures
        slot_start(team_of(entries[i].team)) <= slot_at(prev, entries, ts, i) < slot_end(
            team_of(entries[i].team),
        ),
{
    let entry = entries[i];
    if knows(prev, entry.summoner_name) {
        lemma_name_index(prev, entry.summoner_name);
        let home = name_index(prev, entry.summoner_name) as int;
        assert(prev[home] == snapshot_for(prev, entry.summoner_name));
    } else {
        lemma_pick_slot_in_range(
            team_of(entry.team),
            apply_fold(prev, entries, ts, i as nat).used,
        );
    }
}

/// A list that fits the two sides and keeps the teams finds a free slot for
/// every new player.
pub proof fn lemma_sides_find_free_slots(
    prev: Seq<SnapshotView>,
    entries: Seq<EntryView>,
    ts: u64,
)
    requires
        in_team_ranges(prev),
        fits_sides(entries),
        teams_kept(prev, entries),
    ensures
        finds_free_slots(prev, entries, ts),
{
    assert forall|n: int| 0 <= n < entries.len() implies finds_free_slot(prev, entries, ts, n) by {
        let team = team_of(entries[n].team);
        let m = n as nat;
        let used = apply_fold(prev, entries, ts, m).used;
        let from = slot_start(team);
        let end = slot_end(team);
        if !knows(prev, entries[n].summoner_name) && first_free(used, from, end) >= end {
            lemma_taken_slots_have_owners(prev, entries, ts, m);
            let s0 = from;
            let s1 = (from + 1) as u8;
            let s2 = (from + 2) as u8;
            let s3 = (from + 3) as u8;
            let s4 = (from + 4) as u8;
            lemma_first_free_taken(used, from, end, s0);
            lemma_first_free_taken(used, from, end, s1);
            lemma_first_free_taken(used, from, end, s2);
            lemma_first_free_taken(used, from, end, s3);
            lemma_first_free_taken(used, from, end, s4);
            let o0 = choose|i: int| owns(prev, entries, ts, m, i, s0);
            let o1 = choose|i: int| owns(prev, entries, ts, m, i, s1);
            let o2 = choose|i: int| owns(prev, entries, ts, m, i, s2);
            let o3 = choose|i: int| owns(prev, entries, ts, m, i, s3);
            let o4 = choose|i: int| owns(prev, entries, ts, m, i, s4);
            lemma_slot_at_in_range(prev, entries, ts, o0);
            lemma_slot_at_in_range(prev, entries, ts, o1);
            lemma_slot_at_in_range(prev, entries, ts, o2);
            lemma_slot_at_in_range(prev, entries, ts, o3);
            lemma_slot_at_in_range(prev, entries, ts, o4);
            let places = Set::<int>::empty().insert(o0).insert(o1).insert(o2).insert(o3).insert(
                o4,
            ).insert(n);
            assert(places.len() == 6);
            assert(places.subset_of(team_places(entries, team)));
            lemma_team_count_bounds(entries, team, places);
        }
    }
}

/// While a list is applied that keeps the teams of a registry whose slots
/// lie in their teams' ranges, the slots of the registry being built lie in
/// their teams' ranges.
pub proof fn lemma_fold_stays_in_ranges(
    prev: Seq<SnapshotView>,
    entries: Seq<EntryView>,
    ts: u64,
    n: nat,
)
    requires
        in_team_ranges(prev),
        teams_kept(prev, entries),
        n <= entries.len(),
    ensures
        in_team_ranges(apply_fold(prev, entries, ts, n).players),
    decreases n,
{
    if n > 0 {
        lemma_fold_stays_in_ranges(prev, entries, ts, (n - 1) as nat);
        lemma_slot_at_in_range(prev, entries, ts, n - 1);
        let state = apply_fold(prev, entries, ts, (n - 1) as nat);
        let entry = entries[n - 1];
        let snap = snapshot_of(entry, team_of(entry.team), slot_at(prev, entries, ts, n - 1));
        let at = name_index(state.players, entry.summoner_name) as int;
        let after = put(state.players, snap);
        lemma_name_index(state.players, entry.summoner_name);
        assert(after == apply_fold(prev, entries, ts, n).players);
        assert forall|i: int| 0 <= i < after.len() implies slot_start(
            (#[trigger] after[i]).reference.team,
        ) <= after[i].reference.slot < slot_end(after[i].reference.team) by {
            if i != at {
                assert(after[i] == state.players[i]);
            }
        }
    }
}

/// The slot is unique across the live snapshots, and of the team's range:
/// when the slots of a registry are distinct and lie in their teams' ranges,
/// and a list is applied that fits the two sides and keeps the teams of the
/// players that the registry knows, then the slots of the new registry are
/// distinct and lie in their teams' ranges. The slots of the players that
/// the list drops are free for its new players.
pub proof fn lemma_sides_keep_slots_apart(
    prev: Seq<SnapshotView>,
    entries: Seq<EntryView>,
    ts: u64,
)
    requires
        registry_ok(prev),
        distinct_slots(prev),
        in_team_ranges(prev),
        fits_sides(entries),
        teams_kept(prev, entries),
    ensures
        registry_ok(registry_after(prev, entries, ts)),
        distinct_slots(registry_after(prev, entries, ts)),
        in_team_ranges(registry_after(prev, entries, ts)),
{
    lemma_sides_find_free_slots(prev, entries, ts);
    lemma_fold_keeps_slots_apart(prev, entries, ts, entries.len());
    lemma_fold_stays_in_ranges(prev, entries, ts, entries.len());
    lemma_fold_keeps_slots(prev, entries, ts, entries.len());
}

} // verus!
