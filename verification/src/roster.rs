//! The player list as the live client reports it, and what is made of
//! its entries: teams, slots, and item records folded into one entry per
//! item.

use crate::model::{copy_name, opt_text, Team};
use crate::text::text_eq;
use std::collections::HashSet;
use vstd::prelude::*;

verus! {

/// One item record of a player-list entry, as the live client reports it.
#[derive(Debug, Clone)]
pub struct PlayerItemEntry {
    pub item_id: u32,
    pub display_name: Option<String>,
}

/// One entry of the player list. Gold is carried in whole units, already
/// rounded to the nearest integer.
#[derive(Debug, Clone)]
pub struct PlayerListEntry {
    pub summoner_name: String,
    pub team: String,
    pub level: u32,
    pub current_gold: Option<i64>,
    pub is_dead: bool,
    pub items: Vec<PlayerItemEntry>,
}

/// What a [`PlayerItemEntry`] stands for.
pub struct ItemRecord {
    pub item_id: u32,
    pub display_name: Option<Seq<char>>,
}

/// What a [`PlayerListEntry`] stands for.
pub struct EntryView {
    pub summoner_name: Seq<char>,
    pub team: Seq<char>,
    pub level: u32,
    pub current_gold: Option<i64>,
    pub is_dead: bool,
    pub items: Seq<ItemRecord>,
}

impl View for PlayerItemEntry {
    type V = ItemRecord;

    open spec fn view(&self) -> ItemRecord {
        ItemRecord { item_id: self.item_id, display_name: opt_text(self.display_name) }
    }
}

/// The views of a sequence of item records, in order.
pub open spec fn item_records(items: Seq<PlayerItemEntry>) -> Seq<ItemRecord> {
    items.map_values(|item: PlayerItemEntry| item@)
}

impl View for PlayerListEntry {
    type V = EntryView;

    open spec fn view(&self) -> EntryView {
        EntryView {
            summoner_name: self.summoner_name@,
            team: self.team@,
            level: self.level,
            current_gold: self.current_gold,
            is_dead: self.is_dead,
            items: item_records(self.items@),
        }
    }
}

/// The views of a player list, in order.
pub open spec fn entry_views(entries: Seq<PlayerListEntry>) -> Seq<EntryView> {
    entries.map_values(|entry: PlayerListEntry| entry@)
}

/// The team that a wire string names; unknown values are neutral.
pub open spec fn team_of(team: Seq<char>) -> Team {
    if team == "ORDER"@ {
        Team::Order
    } else if team == "CHAOS"@ {
        Team::Chaos
    } else {
        Team::Neutral
    }
}

/// Parses the team from its wire string.
pub fn parse_team(team: &str) -> (res: Team)
    ensures
        res == team_of(team@),
{
    if text_eq(team, "ORDER") {
        Team::Order
    } else if text_eq(team, "CHAOS") {
        Team::Chaos
    } else {
        Team::Neutral
    }
}

/// The first slot of a team's range.
pub open spec fn slot_start(team: Team) -> u8 {
    match team {
        Team::Order => 0,
        Team::Chaos => 5,
        Team::Neutral => 0,
    }
}

/// One past the last slot of a team's range.
pub open spec fn slot_end(team: Team) -> u8 {
    match team {
        Team::Order => 5,
        Team::Chaos => 10,
        Team::Neutral => 10,
    }
}

/// The lowest slot in `from..end` that is not in `used`, or `end` if all are.
pub open spec fn first_free(used: Set<u8>, from: u8, end: u8) -> u8
    decreases end - from,
{
    if from >= end {
        end
    } else if !used.contains(from) {
        from
    } else {
        first_free(used, (from + 1) as u8, end)
    }
}

/// The slot that a new player of `team` gets: the lowest free slot of the
/// team's range, or the first slot of the range when none is free.
pub open spec fn pick_slot(team: Team, used: Set<u8>) -> u8 {
    let free = first_free(used, slot_start(team), slot_end(team));
    if free < slot_end(team) {
        free
    } else {
        slot_start(team)
    }
}

/// Allocates a slot for a new player of `team` and marks it as used: the
/// lowest slot of the team's range that is not in `used`, or the first slot
/// of the range when all are.
pub fn allocate_slot(team: Team, used: &mut HashSet<u8>) -> (res: u8)
    ensures
        res == pick_slot(team, old(used)@),
        res < 10,
        final(used)@ == old(used)@.insert(res),
{
    broadcast use vstd::std_specs::hash::group_hash_axioms;

    let (start, end): (u8, u8) = match team {
        Team::Order => (0u8, 5u8),
        Team::Chaos => (5u8, 10u8),
        Team::Neutral => (0u8, 10u8),
    };
    let mut slot: u8 = start;
    while slot < end
        invariant
            start <= slot <= end <= 10,
            start == slot_start(team),
            end == slot_end(team),
            used@ == old(used)@,
            first_free(used@, start, end) == first_free(used@, slot, end),
        decreases end - slot,
    {
        if used.insert(slot) {
            return slot;
        }
        assert(used@ =~= old(used)@);
        slot = slot + 1;
    }
    assert(used@.contains(start)) by {
        lemma_first_free_taken(used@, start, end, start);
    }
    assert(used@.insert(start) =~= used@);
    start
}

/// When no slot of a range is free, each slot of the range is taken.
pub proof fn lemma_first_free_taken(used: Set<u8>, from: u8, end: u8, slot: u8)
    requires
        first_free(used, from, end) >= end,
        from <= slot < end,
    ensures
        used.contains(slot),
    decreases end - from,
{
    if from < slot {
        lemma_first_free_taken(used, (from + 1) as u8, end, slot);
    }
}

/// One kind of item that a player holds, with how many of it.
#[derive(Debug, Clone)]
pub struct ItemEntry {
    pub item_id: u32,
    pub count: u32,
    pub name: Option<String>,
}

/// What an [`ItemEntry`] stands for.
pub struct StackView {
    pub item_id: u32,
    pub count: u32,
    pub name: Option<Seq<char>>,
}

impl View for ItemEntry {
    type V = StackView;

    open spec fn view(&self) -> StackView {
        StackView { item_id: self.item_id, count: self.count, name: opt_text(self.name) }
    }
}

/// The views of a sequence of item entries, in order.
pub open spec fn stack_views(items: Seq<ItemEntry>) -> Seq<StackView> {
    items.map_values(|item: ItemEntry| item@)
}

/// The index of the first entry for item `id`, or the length if there is none.
pub open spec fn stack_index(stacks: Seq<StackView>, id: u32) -> nat
    decreases stacks.len(),
{
    if stacks.len() == 0 || stacks[0].item_id == id {
        0
    } else {
        1 + stack_index(stacks.drop_first(), id)
    }
}

/// Whether the entries are what folding leaves: no item id is zero, none
/// occurs twice, and every count is at least one.
pub open spec fn stacks_ok(stacks: Seq<StackView>) -> bool {
    &&& forall|i: int| 0 <= i < stacks.len() ==> (#[trigger] stacks[i]).item_id != 0 && stacks[i].count >= 1
    &&& forall|i: int, j: int|
        0 <= i < j < stacks.len() ==> (#[trigger] stacks[i]).item_id != (#[trigger] stacks[j]).item_id
}

/// The first of two optional names that is present.
pub open spec fn name_or(first: Option<Seq<char>>, second: Option<Seq<char>>) -> Option<Seq<char>> {
    if first is Some {
        first
    } else {
        second
    }
}

/// A count raised by one, staying at the largest count that fits.
pub open spec fn bumped(count: u32) -> u32 {
    if count < u32::MAX {
        (count + 1) as u32
    } else {
        count
    }
}

/// The entries after one more item record: a record with id zero is
/// discarded; a known id counts upward and takes the record's name if it had
/// none; a new id is appended with count one.
pub open spec fn add_item(stacks: Seq<StackView>, record: ItemRecord) -> Seq<StackView> {
    let i = stack_index(stacks, record.item_id) as int;
    if record.item_id == 0 {
        stacks
    } else if i < stacks.len() {
        stacks.update(
            i,
            StackView {
                item_id: record.item_id,
                count: bumped(stacks[i].count),
                name: name_or(stacks[i].name, record.display_name),
            },
        )
    } else {
        stacks.push(StackView { item_id: record.item_id, count: 1, name: record.display_name })
    }
}

/// The item entries that a list of item records folds to.
pub open spec fn folded(records: Seq<ItemRecord>) -> Seq<StackView>
    decreases records.len(),
{
    if records.len() == 0 {
        Seq::empty()
    } else {
        add_item(folded(records.drop_last()), records.last())
    }
}

/// The index of an item id lies within the entries or at their end; no
/// entry before it is for the id, and the entry at it, if there is one, is.
pub proof fn lemma_stack_index(stacks: Seq<StackView>, id: u32)
    ensures
        stack_index(stacks, id) <= stacks.len(),
        forall|k: int| 0 <= k < stack_index(stacks, id) ==> (#[trigger] stacks[k]).item_id != id,
        stack_index(stacks, id) < stacks.len() ==> stacks[stack_index(stacks, id) as int].item_id
            == id,
    decreases stacks.len(),
{
    if !(stacks.len() == 0 || stacks[0].item_id == id) {
        let rest = stacks.drop_first();
        lemma_stack_index(rest, id);
        assert forall|k: int| 0 <= k < stack_index(stacks, id) implies (
        #[trigger] stacks[k]).item_id != id by {
            if k > 0 {
                assert(stacks[k] == rest[k - 1]);
            }
        }
        if stack_index(stacks, id) < stacks.len() {
            assert(stacks[stack_index(stacks, id) as int] == rest[stack_index(rest, id) as int]);
        }
    }
}

/// The index of an item id is `n` if no entry before `n` is for the id and
/// the entry at `n`, if there is one, is.
pub proof fn lemma_stack_index_is(stacks: Seq<StackView>, id: u32, n: nat)
    requires
        n <= stacks.len(),
        forall|k: int| 0 <= k < n ==> (#[trigger] stacks[k]).item_id != id,
        n < stacks.len() ==> stacks[n as int].item_id == id,
    ensures
        stack_index(stacks, id) == n,
    decreases stacks.len(),
{
    if n > 0 {
        let rest = stacks.drop_first();
        assert(stacks[0].item_id != id);
        assert forall|k: int| 0 <= k < n - 1 implies (#[trigger] rest[k]).item_id != id by {
            assert(rest[k] == stacks[k + 1]);
        }
        lemma_stack_index_is(rest, id, (n - 1) as nat);
    }
}

/// Adding a record keeps the entries in order.
pub proof fn lemma_add_item_ok(stacks: Seq<StackView>, record: ItemRecord)
    requires
        stacks_ok(stacks),
    ensures
        stacks_ok(add_item(stacks, record)),
{
    lemma_stack_index(stacks, record.item_id);
}

/// Folding leaves no zero id, no id twice and no count below one.
pub proof fn lemma_folded_ok(records: Seq<ItemRecord>)
    ensures
        stacks_ok(folded(records)),
    decreases records.len(),
{
    if records.len() > 0 {
        lemma_folded_ok(records.drop_last());
        lemma_add_item_ok(folded(records.drop_last()), records.last());
    }
}

/// How many records of a list name item `id`.
pub open spec fn occurrences(records: Seq<ItemRecord>, id: u32) -> nat
    decreases records.len(),
{
    if records.len() == 0 {
        0
    } else if records.last().item_id == id {
        occurrences(records.drop_last(), id) + 1
    } else {
        occurrences(records.drop_last(), id)
    }
}

/// A number of units as an entry counts them: the number itself, or the
/// largest count where it does not fit.
pub open spec fn clipped(units: nat) -> u32 {
    if units > u32::MAX {
        u32::MAX
    } else {
        units as u32
    }
}

/// The units that the entries hold of item `id`: the count of its entry, or
/// zero where it has none.
pub open spec fn units_of(stacks: Seq<StackView>, id: u32) -> u32 {
    let at = stack_index(stacks, id) as int;
    if at < stacks.len() {
        stacks[at].count
    } else {
        0
    }
}

/// Folding counts the records: of every item the entries hold as many units
/// as the list has records of it, and of item zero none.
pub proof fn lemma_folded_counts(records: Seq<ItemRecord>, id: u32)
    ensures
        units_of(folded(records), id) == (if id == 0 {
            0
        } else {
            clipped(occurrences(records, id))
        }),
    decreases records.len(),
{
    if records.len() > 0 {
        let before = folded(records.drop_last());
        let record = records.last();
        let at = stack_index(before, record.item_id);
        lemma_folded_counts(records.drop_last(), id);
        lemma_folded_ok(records.drop_last());
        lemma_stack_index(before, id);
        lemma_stack_index(before, record.item_id);
        let after = folded(records);
        if record.item_id != 0 {
            let was = stack_index(before, id);
            assert forall|k: int| 0 <= k < was implies (#[trigger] after[k]).item_id != id by {
                assert(after[k].item_id == before[k].item_id);
            }
            if was < before.len() {
                assert(after[was as int].item_id == before[was as int].item_id);
                lemma_stack_index_is(after, id, was);
            } else if record.item_id == id {
                lemma_stack_index_is(after, id, was);
            } else {
                if at >= before.len() {
                    assert(after[was as int].item_id == record.item_id);
                }
                lemma_stack_index_is(after, id, after.len());
            }
        }
    }
}

/// The position of the entry for item `id`, or the length if there is none.
pub fn find_stack(stacks: &Vec<ItemEntry>, id: u32) -> (res: usize)
    ensures
        res == stack_index(stack_views(stacks@), id),
        res <= stacks.len(),
        res < stacks.len() ==> stacks@[res as int].item_id == id,
{
    let mut i: usize = 0;
    while i < stacks.len()
        invariant
            0 <= i <= stacks.len(),
            forall|k: int| 0 <= k < i ==> (#[trigger] stack_views(stacks@)[k]).item_id != id,
        decreases stacks.len() - i,
    {
        if stacks[i].item_id == id {
            proof {
                assert(stack_views(stacks@)[i as int].item_id == id);
                lemma_stack_index_is(stack_views(stacks@), id, i as nat);
            }
            return i;
        }
        assert(stack_views(stacks@)[i as int].item_id != id);
        i = i + 1;
    }
    proof {
        lemma_stack_index_is(stack_views(stacks@), id, i as nat);
    }
    i
}

/// Folds a list of item records, which may name an item several times, into
/// one entry per item.
pub fn fold_items(items: Vec<PlayerItemEntry>) -> (res: Vec<ItemEntry>)
    ensures
        stack_views(res@) == folded(item_records(items@)),
        stacks_ok(stack_views(res@)),
{
    let mut stacks: Vec<ItemEntry> = Vec::new();
    let mut i: usize = 0;
    assert(item_records(items@).take(0) == Seq::<ItemRecord>::empty());
    assert(stack_views(stacks@) == Seq::<StackView>::empty());
    while i < items.len()
        invariant
            0 <= i <= items.len(),
            stack_views(stacks@) == folded(item_records(items@).take(i as int)),
        decreases items.len() - i,
    {
        let item = &items[i];
        let ghost before = stack_views(stacks@);
        let ghost record = item_records(items@)[i as int];
        proof {
            assert(item_records(items@).take(i + 1).drop_last() == item_records(items@).take(
                i as int,
            ));
            assert(item_records(items@).take(i + 1).last() == record);
            assert(record == item@);
        }
        if item.item_id != 0 {
            let at = find_stack(&stacks, item.item_id);
            if at < stacks.len() {
                let known = &stacks[at];
                let count = if known.count < u32::MAX {
                    known.count + 1
                } else {
                    known.count
                };
                let name = if known.name.is_some() {
                    copy_name(&known.name)
                } else {
                    copy_name(&item.display_name)
                };
                let entry = ItemEntry { item_id: item.item_id, count, name };
                assert(before[at as int] == stacks@[at as int]@);
                stacks[at] = entry;
                assert(stack_views(stacks@) == add_item(before, record));
            } else {
                let entry = ItemEntry {
                    item_id: item.item_id,
                    count: 1,
                    name: copy_name(&item.display_name),
                };
                stacks.push(entry);
                assert(stack_views(stacks@) == add_item(before, record));
            }
        }
        i = i + 1;
    }
    proof {
        assert(item_records(items@).take(items@.len() as int) == item_records(items@));
        lemma_folded_ok(item_records(items@));
    }
    stacks
}

} // verus!
