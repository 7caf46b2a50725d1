//! Snapshots of single players and the events that two successive snapshots
//! of the same player give rise to.

use crate::event_laws::lemma_diff_well_formed;
use crate::model::{
    all_well_formed,
    copy_name,
    event_views,
    opt_text,
    Event,
    EventKind,
    EventPayload,
    EventView,
    GoldEvent,
    ItemEvent,
    LevelEvent,
    PayloadView,
    PlayerRef,
    PlayerRefView,
    Team,
};
use crate::roster::{
    find_stack,
    fold_items,
    folded,
    name_or,
    stack_index,
    stack_views,
    stacks_ok,
    EntryView,
    ItemEntry,
    PlayerListEntry,
    StackView,
};
use vstd::prelude::*;

verus! {

/// The last state seen of one player.
#[derive(Debug, Clone)]
pub struct PlayerSnapshot {
    pub reference: PlayerRef,
    pub level: u8,
    pub current_gold: i32,
    pub is_dead: bool,
    pub items: Vec<ItemEntry>,
}

/// What a [`PlayerSnapshot`] stands for.
pub struct SnapshotView {
    pub reference: PlayerRefView,
    pub level: u8,
    pub current_gold: i32,
    pub is_dead: bool,
    pub items: Seq<StackView>,
}

impl View for PlayerSnapshot {
    type V = SnapshotView;

    open spec fn view(&self) -> SnapshotView {
        SnapshotView {
            reference: self.reference@,
            level: self.level,
            current_gold: self.current_gold,
            is_dead: self.is_dead,
            items: stack_views(self.items@),
        }
    }
}

/// A level as the registry keeps it: clamped to eight bits.
pub open spec fn clip_level(level: u32) -> u8 {
    if level > u8::MAX {
        u8::MAX
    } else {
        level as u8
    }
}

/// An amount of gold clamped to 32 bits.
pub open spec fn clip_i32(amount: int) -> i32 {
    if amount > i32::MAX {
        i32::MAX
    } else if amount < i32::MIN {
        i32::MIN
    } else {
        amount as i32
    }
}

/// The gold that the registry keeps for an entry: zero if the entry reports
/// none, else the reported amount clamped to 32 bits.
pub open spec fn clip_gold(gold: Option<i64>) -> i32 {
    match gold {
        Some(amount) => clip_i32(amount as int),
        None => 0,
    }
}

/// The snapshot that an entry gives, once its team and slot are known.
pub open spec fn snapshot_of(entry: EntryView, team: Team, slot: u8) -> SnapshotView {
    SnapshotView {
        reference: PlayerRefView { summoner_name: entry.summoner_name, team, slot },
        level: clip_level(entry.level),
        current_gold: clip_gold(entry.current_gold),
        is_dead: entry.is_dead,
        items: folded(entry.items),
    }
}

/// `n` copies of one event.
pub open spec fn repeated(event: EventView, n: nat) -> Seq<EventView> {
    Seq::new(n, |i: int| event)
}

/// The event that tells of one unit of an item gained or lost.
pub open spec fn item_event(
    kind: EventKind,
    ts: u64,
    player: PlayerRefView,
    item_id: u32,
    item_name: Option<Seq<char>>,
) -> EventView {
    EventView { kind, ts, payload: PayloadView::PlayerItem { player, item_id, item_name } }
}

/// The events for one item of the new snapshot: one `ItemAdded` per unit
/// gained over the previous count, one `ItemRemoved` per unit lost, and one
/// `ItemAdded` per unit for an item that the previous snapshot lacks. The name
/// comes from the side that the event originates from, else from the other.
pub open spec fn stack_change(
    player: PlayerRefView,
    ts: u64,
    item: StackView,
    prev: Seq<StackView>,
) -> Seq<EventView> {
    let at = stack_index(prev, item.item_id) as int;
    if at < prev.len() {
        let old = prev[at];
        if item.count > old.count {
            repeated(
                item_event(
                    EventKind::ItemAdded,
                    ts,
                    player,
                    item.item_id,
                    name_or(item.name, old.name),
                ),
                (item.count - old.count) as nat,
            )
        } else if item.count < old.count {
            repeated(
                item_event(
                    EventKind::ItemRemoved,
                    ts,
                    player,
                    item.item_id,
                    name_or(old.name, item.name),
                ),
                (old.count - item.count) as nat,
            )
        } else {
            Seq::empty()
        }
    } else {
        repeated(
            item_event(EventKind::ItemAdded, ts, player, item.item_id, item.name),
            item.count as nat,
        )
    }
}

/// The events for the first `n` items of the new snapshot, in their order.
pub open spec fn stack_changes(
    player: PlayerRefView,
    ts: u64,
    items: Seq<StackView>,
    prev: Seq<StackView>,
    n: nat,
) -> Seq<EventView>
    decreases n,
{
    if n == 0 {
        Seq::empty()
    } else {
        stack_changes(player, ts, items, prev, (n - 1) as nat) + stack_change(
            player,
            ts,
            items[n - 1],
            prev,
        )
    }
}

/// The events for one item of the previous snapshot: one `ItemRemoved` per
/// unit if the new snapshot lacks the item, none otherwise.
pub open spec fn stack_loss(
    player: PlayerRefView,
    ts: u64,
    old: StackView,
    items: Seq<StackView>,
) -> Seq<EventView> {
    if stack_index(items, old.item_id) < items.len() {
        Seq::empty()
    } else {
        repeated(
            item_event(EventKind::ItemRemoved, ts, player, old.item_id, old.name),
            old.count as nat,
        )
    }
}

/// The events for the first `n` items of the previous snapshot, in their
/// order.
pub open spec fn stack_losses(
    player: PlayerRefView,
    ts: u64,
    prev: Seq<StackView>,
    items: Seq<StackView>,
    n: nat,
) -> Seq<EventView>
    decreases n,
{
    if n == 0 {
        Seq::empty()
    } else {
        stack_losses(player, ts, prev, items, (n - 1) as nat) + stack_loss(
            player,
            ts,
            prev[n - 1],
            items,
        )
    }
}

/// The item events between two snapshots of one player: first those for the
/// items of the new snapshot, then those for the items that only the
/// previous one has.
pub open spec fn item_events(new: SnapshotView, prev: SnapshotView, ts: u64) -> Seq<EventView> {
    stack_changes(new.reference, ts, new.items, prev.items, new.items.len()) + stack_losses(
        new.reference,
        ts,
        prev.items,
        new.items,
        prev.items.len(),
    )
}

/// One `LevelUp` if the level rose, whatever the difference.
pub open spec fn level_events(new: SnapshotView, prev: SnapshotView, ts: u64) -> Seq<EventView> {
    if new.level > prev.level {
        seq![
            EventView {
                kind: EventKind::LevelUp,
                ts,
                payload: PayloadView::PlayerLevel { player: new.reference, level: new.level },
            },
        ]
    } else {
        Seq::empty()
    }
}

/// One `GoldDelta` if the gold changed, with the signed difference (clamped to
/// 32 bits) and the new total.
pub open spec fn gold_events(new: SnapshotView, prev: SnapshotView, ts: u64) -> Seq<EventView> {
    if new.current_gold != prev.current_gold {
        seq![
            EventView {
                kind: EventKind::GoldDelta,
                ts,
                payload: PayloadView::PlayerGold {
                    player: new.reference,
                    delta: clip_i32(new.current_gold - prev.current_gold),
                    total: new.current_gold,
                },
            },
        ]
    } else {
        Seq::empty()
    }
}

/// One `Respawn` if the player was dead and no longer is.
pub open spec fn respawn_events(new: SnapshotView, prev: SnapshotView, ts: u64) -> Seq<
    EventView,
> {
    if prev.is_dead && !new.is_dead {
        seq![
            EventView {
                kind: EventKind::Respawn,
                ts,
                payload: PayloadView::Player { player: new.reference },
            },
        ]
    } else {
        Seq::empty()
    }
}

/// The events that the new snapshot of a player gives rise to, compared with
/// the previous one: level, gold, respawn, then items.
pub open spec fn diff_events(new: SnapshotView, prev: SnapshotView, ts: u64) -> Seq<EventView> {
    level_events(new, prev, ts) + gold_events(new, prev, ts) + respawn_events(new, prev, ts)
        + item_events(new, prev, ts)
}

/// The views of a sequence with one more event are the views of the
/// sequence with the view of the event.
pub proof fn lemma_views_push(events: Seq<Event>, event: Event)
    ensures
        event_views(events.push(event)) == event_views(events).push(event@),
{
    assert(event_views(events.push(event)) =~= event_views(events).push(event@));
}

/// The views of two sequences in a row are the views of the first followed
/// by the views of the second.
pub proof fn lemma_views_concat(first: Seq<Event>, second: Seq<Event>)
    ensures
        event_views(first + second) == event_views(first) + event_views(second),
{
    assert(event_views(first + second) =~= event_views(first) + event_views(second));
}

/// Appends `count` events for one item to `events`.
pub fn push_item_events(
    events: &mut Vec<Event>,
    ts_ms: u64,
    player: &PlayerRef,
    kind: EventKind,
    item_id: u32,
    item_name: Option<String>,
    count: u32,
)
    ensures
        event_views(final(events)@) == event_views(old(events)@) + repeated(
            item_event(kind, ts_ms, player@, item_id, opt_text(item_name)),
            count as nat,
        ),
{
    let ghost unit = item_event(kind, ts_ms, player@, item_id, opt_text(item_name));
    let mut done: u32 = 0;
    assert(event_views(events@) + repeated(unit, 0) == event_views(events@));
    while done < count
        invariant
            0 <= done <= count,
            unit == item_event(kind, ts_ms, player@, item_id, opt_text(item_name)),
            event_views(events@) == event_views(old(events)@) + repeated(unit, done as nat),
        decreases count - done,
    {
        let event = Event {
            kind,
            ts: ts_ms,
            payload: EventPayload::PlayerItem(
                ItemEvent { player: player.duplicate(), item_id, item_name: copy_name(&item_name) },
            ),
        };
        proof {
            lemma_views_push(events@, event);
            assert(repeated(unit, (done + 1) as nat) == repeated(unit, done as nat).push(unit));
        }
        events.push(event);
        done = done + 1;
    }
}

/// The first of two optional names that is present.
fn pick_name(first: &Option<String>, second: &Option<String>) -> (res: Option<String>)
    ensures
        opt_text(res) == name_or(opt_text(*first), opt_text(*second)),
{
    if first.is_some() {
        copy_name(first)
    } else {
        copy_name(second)
    }
}

impl PlayerSnapshot {
    /// Builds the snapshot of a player-list entry: the level clamped to eight
    /// bits, the gold to 32, the item records folded.
    pub fn from_entry(entry: PlayerListEntry, team: Team, slot: u8) -> (res: PlayerSnapshot)
        ensures
            res@ == snapshot_of(entry@, team, slot),
            stacks_ok(res@.items),
    {
        let level: u8 = if entry.level > 255 {
            255
        } else {
            entry.level as u8
        };
        let current_gold: i32 = match entry.current_gold {
            Some(amount) => {
                if amount > 0x7fff_ffff {
                    0x7fff_ffff
                } else if amount < -0x8000_0000 {
                    -0x8000_0000
                } else {
                    amount as i32
                }
            },
            None => 0,
        };
        let reference = PlayerRef { summoner_name: entry.summoner_name, team, slot };
        PlayerSnapshot {
            reference,
            level,
            current_gold,
            is_dead: entry.is_dead,
            items: fold_items(entry.items),
        }
    }

    /// The item events between this snapshot and the previous one of the same
    /// player. The items of both are folded: no item id occurs twice.
    pub fn diff_items(&self, previous: &PlayerSnapshot, ts_ms: u64) -> (res: Vec<Event>)
        requires
            stacks_ok(self@.items),
            stacks_ok(previous@.items),
        ensures
            event_views(res@) == item_events(self@, previous@, ts_ms),
    {
        let mut events: Vec<Event> = Vec::new();
        let ghost new_items = stack_views(self.items@);
        let ghost old_items = stack_views(previous.items@);
        let mut i: usize = 0;
        assert(event_views(events@) == Seq::<EventView>::empty());
        while i < self.items.len()
            invariant
                0 <= i <= self.items.len(),
                new_items == stack_views(self.items@),
                old_items == stack_views(previous.items@),
                event_views(events@) == stack_changes(
                    self.reference@,
                    ts_ms,
                    new_items,
                    old_items,
                    i as nat,
                ),
            decreases self.items.len() - i,
        {
            let item = &self.items[i];
            assert(new_items[i as int] == item@);
            let at = find_stack(&previous.items, item.item_id);
            if at < previous.items.len() {
                let old = &previous.items[at];
                assert(old_items[at as int] == old@);
                if item.count > old.count {
                    push_item_events(
                        &mut events,
                        ts_ms,
                        &self.reference,
                        EventKind::ItemAdded,
                        item.item_id,
                        pick_name(&item.name, &old.name),
                        item.count - old.count,
                    );
                } else if item.count < old.count {
                    push_item_events(
                        &mut events,
                        ts_ms,
                        &self.reference,
                        EventKind::ItemRemoved,
                        item.item_id,
                        pick_name(&old.name, &item.name),
                        old.count - item.count,
                    );
                } else {
                    assert(event_views(events@) + Seq::<EventView>::empty() == event_views(
                        events@,
                    ));
                }
            } else {
                push_item_events(
                    &mut events,
                    ts_ms,
                    &self.reference,
                    EventKind::ItemAdded,
                    item.item_id,
                    copy_name(&item.name),
                    item.count,
                );
            }
            i = i + 1;
        }
        let ghost gained = event_views(events@);
        let mut j: usize = 0;
        assert(gained + Seq::<EventView>::empty() == gained);
        while j < previous.items.len()
            invariant
                0 <= j <= previous.items.len(),
                new_items == stack_views(self.items@),
                old_items == stack_views(previous.items@),
                event_views(events@) == gained + stack_losses(
                    self.reference@,
                    ts_ms,
                    old_items,
                    new_items,
                    j as nat,
                ),
            decreases previous.items.len() - j,
        {
            let old = &previous.items[j];
            assert(old_items[j as int] == old@);
            let at = find_stack(&self.items, old.item_id);
            let ghost before = stack_losses(self.reference@, ts_ms, old_items, new_items, j as nat);
            let ghost step = stack_loss(self.reference@, ts_ms, old@, new_items);
            if at >= self.items.len() {
                push_item_events(
                    &mut events,
                    ts_ms,
                    &self.reference,
                    EventKind::ItemRemoved,
                    old.item_id,
                    copy_name(&old.name),
                    old.count,
                );
            } else {
                assert(step == Seq::<EventView>::empty());
                assert(before + step == before);
            }
            assert(gained + before + step == gained + (before + step));
            j = j + 1;
        }
        events
    }

    /// The events that this snapshot gives rise to, compared with the
    /// previous one of the same player. The items of both are folded: no
    /// item id occurs twice.
    pub fn diff(&self, previous: &PlayerSnapshot, ts_ms: u64) -> (res: Vec<Event>)
        requires
            stacks_ok(self@.items),
            stacks_ok(previous@.items),
        ensures
            event_views(res@) == diff_events(self@, previous@, ts_ms),
            all_well_formed(event_views(res@)),
    {
        proof {
            lemma_diff_well_formed(self@, previous@, ts_ms);
        }
        let mut events: Vec<Event> = Vec::new();
        assert(event_views(events@) == Seq::<EventView>::empty());
        if self.level > previous.level {
            let event = Event {
                kind: EventKind::LevelUp,
                ts: ts_ms,
                payload: EventPayload::PlayerLevel(
                    LevelEvent { player: self.reference.duplicate(), level: self.level },
                ),
            };
            proof {
                lemma_views_push(events@, event);
            }
            events.push(event);
        }
        assert(event_views(events@) =~= level_events(self@, previous@, ts_ms));
        if self.current_gold != previous.current_gold {
            let wide: i64 = self.current_gold as i64 - previous.current_gold as i64;
            let delta: i32 = if wide > 0x7fff_ffff {
                0x7fff_ffff
            } else if wide < -0x8000_0000 {
                -0x8000_0000
            } else {
                wide as i32
            };
            let event = Event {
                kind: EventKind::GoldDelta,
                ts: ts_ms,
                payload: EventPayload::PlayerGold(
                    GoldEvent { player: self.reference.duplicate(), delta, total: self.current_gold },
                ),
            };
            proof {
                lemma_views_push(events@, event);
            }
            events.push(event);
        }
        assert(event_views(events@) =~= level_events(self@, previous@, ts_ms) + gold_events(
            self@,
            previous@,
            ts_ms,
        ));
        if previous.is_dead && !self.is_dead {
            let event = Event::about_player(EventKind::Respawn, ts_ms, self.reference.duplicate());
            proof {
                lemma_views_push(events@, event);
            }
            events.push(event);
        }
        assert(event_views(events@) =~= level_events(self@, previous@, ts_ms) + gold_events(
            self@,
            previous@,
            ts_ms,
        ) + respawn_events(self@, previous@, ts_ms));
        let mut items = self.diff_items(previous, ts_ms);
        proof {
            lemma_views_concat(events@, items@);
        }
        events.append(&mut items);
        events
    }
}

} // verus!
