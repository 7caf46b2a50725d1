//! The registry of players last seen. Applying a new player list replaces
//! the registry and yields the events that the list gives rise to.

use crate::differ::{diff_events, lemma_views_concat, snapshot_of, PlayerSnapshot, SnapshotView};
use crate::event_laws::lemma_apply_well_formed;
use crate::model::{all_well_formed, event_views, Event, EventView, PlayerRef};
use crate::roster::{
    allocate_slot,
    entry_views,
    parse_team,
    pick_slot,
    stacks_ok,
    team_of,
    EntryView,
    PlayerListEntry,
};
use std::collections::HashSet;
use vstd::prelude::*;

verus! {

/// The views of a sequence of snapshots, in order.
pub open spec fn snapshot_views(players: Seq<PlayerSnapshot>) -> Seq<SnapshotView> {
    players.map_values(|player: PlayerSnapshot| player@)
}

/// The index of the first snapshot of the player called `name`, or the length
/// if there is none.
pub open spec fn name_index(players: Seq<SnapshotView>, name: Seq<char>) -> nat
    decreases players.len(),
{
    if players.len() == 0 || players[0].reference.summoner_name == name {
        0
    } else {
        1 + name_index(players.drop_first(), name)
    }
}

/// Whether the registry holds a snapshot of the player called `name`.
pub open spec fn knows(players: Seq<SnapshotView>, name: Seq<char>) -> bool {
    name_index(players, name) < players.len()
}

/// The snapshot of the player called `name`, where the registry knows one.
pub open spec fn snapshot_for(players: Seq<SnapshotView>, name: Seq<char>) -> SnapshotView {
    players[name_index(players, name) as int]
}

/// What holds of every registry: no name occurs twice, every slot is one of
/// the ten, and every snapshot's items are folded.
pub open spec fn registry_ok(players: Seq<SnapshotView>) -> bool {
    &&& forall|i: int, j: int|
        0 <= i < j < players.len() ==> (#[trigger] players[i]).reference.summoner_name != (
        #[trigger] players[j]).reference.summoner_name
    &&& forall|i: int|
        0 <= i < players.len() ==> (#[trigger] players[i]).reference.slot < 10 && stacks_ok(
            players[i].items,
        )
}

/// Whether an entry keeps `slot`: the registry knows the entry's name under
/// that slot.
pub open spec fn keeps(players: Seq<SnapshotView>, entry: EntryView, slot: u8) -> bool {
    knows(players, entry.summoner_name) && snapshot_for(
        players,
        entry.summoner_name,
    ).reference.slot == slot
}

/// The slots that stay taken when a list is applied to a registry: those of
/// the players of the registry whose name the list holds. The slot of a
/// player that the list drops is free again.
pub open spec fn kept_slots(players: Seq<SnapshotView>, entries: Seq<EntryView>) -> Set<u8> {
    Set::new(
        |slot: u8| exists|i: int| 0 <= i < entries.len() && keeps(players, #[trigger] entries[i], slot),
    )
}

/// The registry with `snap` in it: in the place of the snapshot of the same
/// name if there is one, else at the end.
pub open spec fn put(players: Seq<SnapshotView>, snap: SnapshotView) -> Seq<SnapshotView> {
    let at = name_index(players, snap.reference.summoner_name) as int;
    if at < players.len() {
        players.update(at, snap)
    } else {
        players.push(snap)
    }
}

/// The state of one application of a player list, between two entries.
pub struct Applying {
    /// The registry that is being built.
    pub players: Seq<SnapshotView>,
    /// The slots taken: those that the list keeps of the previous registry,
    /// and those given since.
    pub used: Set<u8>,
    /// The events emitted so far.
    pub events: Seq<EventView>,
}

/// The slot of an entry: the one that the previous registry holds for its
/// name, else a newly allocated one.
pub open spec fn slot_for(prev: Seq<SnapshotView>, used: Set<u8>, entry: EntryView) -> u8 {
    if knows(prev, entry.summoner_name) {
        snapshot_for(prev, entry.summoner_name).reference.slot
    } else {
        pick_slot(team_of(entry.team), used)
    }
}

/// The state after one more entry: the entry's snapshot enters the new
/// registry under the slot that its name had, or a new one; if the previous
/// registry knows the name, the events of the difference are emitted.
pub open spec fn apply_entry(
    prev: Seq<SnapshotView>,
    state: Applying,
    entry: EntryView,
    ts: u64,
) -> Applying {
    let slot = slot_for(prev, state.used, entry);
    let snap = snapshot_of(entry, team_of(entry.team), slot);
    Applying {
        players: put(state.players, snap),
        used: state.used.insert(slot),
        events: if knows(prev, entry.summoner_name) {
            state.events + diff_events(snap, snapshot_for(prev, entry.summoner_name), ts)
        } else {
            state.events
        },
    }
}

/// The state after the first `n` entries of a player list.
pub open spec fn apply_fold(prev: Seq<SnapshotView>, entries: Seq<EntryView>, ts: u64, n: nat) -> Applying
    decreases n,
{
    if n == 0 {
        Applying {
            players: Seq::empty(),
            used: kept_slots(prev, entries),
            events: Seq::empty(),
        }
    } else {
        apply_entry(prev, apply_fold(prev, entries, ts, (n - 1) as nat), entries[n - 1], ts)
    }
}

/// The registry after a player list was applied to `prev`.
pub open spec fn registry_after(prev: Seq<SnapshotView>, entries: Seq<EntryView>, ts: u64) -> Seq<
    SnapshotView,
> {
    apply_fold(prev, entries, ts, entries.len()).players
}

/// The events that applying a player list to `prev` yields.
pub open spec fn apply_events(prev: Seq<SnapshotView>, entries: Seq<EntryView>, ts: u64) -> Seq<
    EventView,
> {
    apply_fold(prev, entries, ts, entries.len()).events
}

/// The index of a name lies within the registry or at its end; no snapshot
/// before it bears the name, and the snapshot at it, if there is one, does.
pub proof fn lemma_name_index(players: Seq<SnapshotView>, name: Seq<char>)
    ensures
        name_index(players, name) <= players.len(),
        forall|k: int|
            0 <= k < name_index(players, name) ==> (#[trigger] players[k]).reference.summoner_name
                != name,
        knows(players, name) ==> snapshot_for(players, name).reference.summoner_name == name,
    decreases players.len(),
{
    if !(players.len() == 0 || players[0].reference.summoner_name == name) {
        let rest = players.drop_first();
        lemma_name_index(rest, name);
        assert forall|k: int| 0 <= k < name_index(players, name) implies (
        #[trigger] players[k]).reference.summoner_name != name by {
            if k > 0 {
                assert(players[k] == rest[k - 1]);
            }
        }
        if knows(players, name) {
            assert(players[name_index(players, name) as int] == rest[name_index(rest, name) as int]);
        }
    }
}

/// The index of a name is `n` if no snapshot before `n` bears the name and
/// the snapshot at `n`, if there is one, does.
pub proof fn lemma_name_index_is(players: Seq<SnapshotView>, name: Seq<char>, n: nat)
    requires
        n <= players.len(),
        forall|k: int| 0 <= k < n ==> (#[trigger] players[k]).reference.summoner_name != name,
        n < players.len() ==> players[n as int].reference.summoner_name == name,
    ensures
        name_index(players, name) == n,
    decreases players.len(),
{
    if n > 0 {
        let rest = players.drop_first();
        assert(players[0].reference.summoner_name != name);
        assert forall|k: int| 0 <= k < n - 1 implies (#[trigger] rest[k]).reference.summoner_name
            != name by {
            assert(rest[k] == players[k + 1]);
        }
        lemma_name_index_is(rest, name, (n - 1) as nat);
    }
}

/// Putting a snapshot with a slot among the ten and folded items into a
/// registry leaves a registry.
pub proof fn lemma_put_ok(players: Seq<SnapshotView>, snap: SnapshotView)
    requires
        registry_ok(players),
        snap.reference.slot < 10,
        stacks_ok(snap.items),
    ensures
        registry_ok(put(players, snap)),
{
    lemma_name_index(players, snap.reference.summoner_name);
}

/// The position of the snapshot of the player called `name`, or the length
/// if there is none.
pub fn find_player(players: &Vec<PlayerSnapshot>, name: &String) -> (res: usize)
    ensures
        res == name_index(snapshot_views(players@), name@),
        res <= players.len(),
{
    let mut i: usize = 0;
    while i < players.len()
        invariant
            0 <= i <= players.len(),
            forall|k: int|
                0 <= k < i ==> (#[trigger] snapshot_views(players@)[k]).reference.summoner_name
                    != name@,
        decreases players.len() - i,
    {
        if players[i].reference.summoner_name == *name {
            proof {
                assert(snapshot_views(players@)[i as int].reference.summoner_name == name@);
                lemma_name_index_is(snapshot_views(players@), name@, i as nat);
            }
            return i;
        }
        assert(snapshot_views(players@)[i as int].reference.summoner_name != name@);
        i = i + 1;
    }
    proof {
        lemma_name_index_is(snapshot_views(players@), name@, i as nat);
    }
    i
}

/// The players last seen, each under the slot it was first given.
pub struct PlayerRegistry {
    players: Vec<PlayerSnapshot>,
}

impl View for PlayerRegistry {
    type V = Seq<SnapshotView>;

    closed spec fn view(&self) -> Seq<SnapshotView> {
        snapshot_views(self.players@)
    }
}

impl Default for PlayerRegistry {
    fn default() -> (res: PlayerRegistry)
        ensures
            res@ == Seq::<SnapshotView>::empty(),
    {
        let res = PlayerRegistry { players: Vec::new() };
        assert(res@ =~= Seq::<SnapshotView>::empty());
        res
    }
}

impl PlayerRegistry {
    /// What the registry always holds: see [`registry_ok`].
    #[verifier::type_invariant]
    spec fn valid(&self) -> bool {
        registry_ok(snapshot_views(self.players@))
    }

    /// The slots that stay taken when `entries` is applied.
    fn slots_kept(&self, entries: &Vec<PlayerListEntry>) -> (used: HashSet<u8>)
        ensures
            used@ == kept_slots(self@, entry_views(entries@)),
    {
        broadcast use vstd::std_specs::hash::group_hash_axioms;

        proof {
            use_type_invariant(self);
        }
        let mut used: HashSet<u8> = HashSet::new();
        let mut i: usize = 0;
        let ghost prev = snapshot_views(self.players@);
        let ghost list = entry_views(entries@);
        assert(used@ =~= kept_slots(prev, list.take(0)));
        while i < entries.len()
            invariant
                0 <= i <= entries.len(),
                prev == snapshot_views(self.players@),
                list == entry_views(entries@),
                registry_ok(prev),
                used@ == kept_slots(prev, list.take(i as int)),
            decreases entries.len() - i,
        {
            let ghost before = list.take(i as int);
            let ghost after = list.take(i + 1);
            let ghost entry = list[i as int];
            assert(entry == entries@[i as int]@);
            assert(after[i as int] == entry);
            let at = find_player(&self.players, &entries[i].summoner_name);
            if at < self.players.len() {
                assert(prev[at as int].reference.slot == self.players@[at as int].reference.slot);
                let slot = self.players[at].reference.slot;
                used.insert(slot);
                proof {
                    assert(keeps(prev, after[i as int], slot));
                    assert forall|s: u8| kept_slots(prev, after).contains(s) == kept_slots(
                        prev,
                        before,
                    ).insert(slot).contains(s) by {
                        if kept_slots(prev, after).contains(s) {
                            let k = choose|k: int|
                                0 <= k < after.len() && keeps(prev, #[trigger] after[k], s);
                            if k < i {
                                assert(before[k] == after[k]);
                            }
                        }
                        if kept_slots(prev, before).contains(s) {
                            let k = choose|k: int|
                                0 <= k < before.len() && keeps(prev, #[trigger] before[k], s);
                            assert(after[k] == before[k]);
                        }
                    }
                    assert(kept_slots(prev, after) =~= kept_slots(prev, before).insert(slot));
                }
            } else {
                proof {
                    assert forall|s: u8| kept_slots(prev, after).contains(s) == kept_slots(
                        prev,
                        before,
                    ).contains(s) by {
                        if kept_slots(prev, after).contains(s) {
                            let k = choose|k: int|
                                0 <= k < after.len() && keeps(prev, #[trigger] after[k], s);
                            if k < i {
                                assert(before[k] == after[k]);
                            }
                        }
                        if kept_slots(prev, before).contains(s) {
                            let k = choose|k: int|
                                0 <= k < before.len() && keeps(prev, #[trigger] before[k], s);
                            assert(after[k] == before[k]);
                        }
                    }
                    assert(kept_slots(prev, after) =~= kept_slots(prev, before));
                }
            }
            i = i + 1;
        }
        assert(list.take(list.len() as int) == list);
        used
    }

    /// Applies a new player list: replaces the registry by the snapshots of
    /// the list and returns the events of the players that were known
    /// before. A player that was known keeps its slot; a new player gets a
    /// slot that neither a player kept by the list nor an earlier new player
    /// holds, as long as its team's range has one. Players that the list
    /// lacks are dropped without an event, and their slots are free again.
    pub fn apply(&mut self, entries: Vec<PlayerListEntry>, ts_ms: u64) -> (events: Vec<Event>)
        ensures
            final(self)@ == registry_after(old(self)@, entry_views(entries@), ts_ms),
            event_views(events@) == apply_events(old(self)@, entry_views(entries@), ts_ms),
            all_well_formed(event_views(events@)),
            registry_ok(old(self)@),
            registry_ok(final(self)@),
    {
        broadcast use vstd::std_specs::hash::group_hash_axioms;

        proof {
            use_type_invariant(&*self);
            lemma_apply_well_formed(self@, entry_views(entries@), ts_ms);
        }
        let mut new_players: Vec<PlayerSnapshot> = Vec::new();
        let mut events: Vec<Event> = Vec::new();
        let mut used = self.slots_kept(&entries);
        let ghost prev = snapshot_views(self.players@);
        let ghost list = entry_views(entries@);
        proof {
            assert(snapshot_views(new_players@) =~= Seq::<SnapshotView>::empty());
            assert(event_views(events@) =~= Seq::<EventView>::empty());
        }
        for entry in it: entries
            invariant
                prev == snapshot_views(self.players@),
                registry_ok(prev),
                list == entry_views(it.seq()),
                it.seq() == entries@,
                registry_ok(snapshot_views(new_players@)),
                (Applying {
                    players: snapshot_views(new_players@),
                    used: used@,
                    events: event_views(events@),
                }) == apply_fold(prev, list, ts_ms, it.index() as nat),
        {
            let ghost state = apply_fold(prev, list, ts_ms, it.index() as nat);
            let ghost seen = entry@;
            assert(list[it.index() as int] == seen);
            let team = parse_team(entry.team.as_str());
            let at = find_player(&self.players, &entry.summoner_name);
            let known = at < self.players.len();
            let slot = if known {
                assert(prev[at as int].reference.slot == self.players@[at as int].reference.slot);
                let slot = self.players[at].reference.slot;
                used.insert(slot);
                slot
            } else {
                allocate_slot(team, &mut used)
            };
            let snapshot = PlayerSnapshot::from_entry(entry, team, slot);
            if known {
                assert(prev[at as int] == self.players@[at as int]@);
                let mut diff = snapshot.diff(&self.players[at], ts_ms);
                proof {
                    lemma_views_concat(events@, diff@);
                }
                events.append(&mut diff);
            }
            let place = find_player(&new_players, &snapshot.reference.summoner_name);
            proof {
                lemma_put_ok(snapshot_views(new_players@), snapshot@);
            }
            let ghost before = snapshot_views(new_players@);
            if place < new_players.len() {
                new_players[place] = snapshot;
            } else {
                new_players.push(snapshot);
            }
            assert(snapshot_views(new_players@) =~= put(before, snapshot@));
        }
        assert(list.len() == entries@.len());
        self.players = new_players;
        events
    }

    /// The reference of the player called `name`, if the registry knows one.
    pub fn player_ref(&self, name: &str) -> (res: Option<PlayerRef>)
        ensures
            match res {
                Some(player) => knows(self@, name@) && player@ == snapshot_for(
                    self@,
                    name@,
                ).reference,
                None => !knows(self@, name@),
            },
    {
        let key = name.to_owned();
        let at = find_player(&self.players, &key);
        if at < self.players.len() {
            assert(snapshot_views(self.players@)[at as int] == self.players@[at as int]@);
            Some(self.players[at].reference.duplicate())
        } else {
            None
        }
    }
}

} // verus!
