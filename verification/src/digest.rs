//! The digest of what was last seen: the content hashes of the three
//! responses and the highwater mark of the event log.

use crate::feed::{normalize_events, normalized, raw_views, RawEvent, RawView};
use crate::differ::SnapshotView;
use crate::model::{all_well_formed, event_views, Event, EventView};
use crate::registry::PlayerRegistry;
use vstd::prelude::*;

verus! {

/// Content hashes of the responses last seen, and the highest event id
/// that was taken from the event log.
#[derive(Debug, Clone, Copy)]
pub struct DigestState {
    pub active_hash: Option<u64>,
    pub players_hash: Option<u64>,
    pub events_hash: Option<u64>,
    pub last_event_id: Option<u64>,
}

impl Default for DigestState {
    fn default() -> (res: DigestState)
        ensures
            res.active_hash is None,
            res.players_hash is None,
            res.events_hash is None,
            res.last_event_id is None,
    {
        DigestState { active_hash: None, players_hash: None, events_hash: None, last_event_id: None }
    }
}

/// Whether a log tells of a new game: one of its events has id zero and
/// lies in the opening five seconds.
pub open spec fn has_restart_marker(raws: Seq<RawView>) -> bool {
    exists|i: int| 0 <= i < raws.len() && (#[trigger] raws[i]).event_id == 0 && raws[i].in_opening
}

/// Whether the highwater mark is reset before a log is read: it is set, and
/// the log tells of a new game.
pub open spec fn restarts(highwater: Option<u64>, raws: Seq<RawView>) -> bool {
    highwater is Some && has_restart_marker(raws)
}

/// The highwater mark against which a log is read.
pub open spec fn floor_for(highwater: Option<u64>, raws: Seq<RawView>) -> Option<u64> {
    if restarts(highwater, raws) {
        None
    } else {
        highwater
    }
}

/// Whether an event id is newer than the highwater mark.
pub open spec fn is_fresh(floor: Option<u64>, id: u64) -> bool {
    match floor {
        Some(mark) => id > mark,
        None => true,
    }
}

/// The events of a log that are newer than the highwater mark, in order.
pub open spec fn fresh(raws: Seq<RawView>, floor: Option<u64>) -> Seq<RawView>
    decreases raws.len(),
{
    if raws.len() == 0 {
        Seq::empty()
    } else if is_fresh(floor, raws.last().event_id) {
        fresh(raws.drop_last(), floor).push(raws.last())
    } else {
        fresh(raws.drop_last(), floor)
    }
}

/// The highest event id of a log, if it has an event.
pub open spec fn max_id(raws: Seq<RawView>) -> Option<u64>
    decreases raws.len(),
{
    if raws.len() == 0 {
        None
    } else {
        match max_id(raws.drop_last()) {
            Some(most) => if raws.last().event_id > most {
                Some(raws.last().event_id)
            } else {
                Some(most)
            },
            None => Some(raws.last().event_id),
        }
    }
}

/// The highwater mark after a log was read: the highest id that was kept,
/// or, if none was kept, the mark against which the log was read.
pub open spec fn highwater_after(highwater: Option<u64>, raws: Seq<RawView>) -> Option<u64> {
    let floor = floor_for(highwater, raws);
    match max_id(fresh(raws, floor)) {
        Some(most) => Some(most),
        None => floor,
    }
}

/// The raw events that are kept of a log.
pub open spec fn kept(highwater: Option<u64>, raws: Seq<RawView>) -> Seq<RawView> {
    fresh(raws, floor_for(highwater, raws))
}

/// The typed events that a log yields.
pub open spec fn ingested(
    highwater: Option<u64>,
    raws: Seq<RawView>,
    players: Seq<SnapshotView>,
) -> Seq<EventView> {
    normalized(kept(highwater, raws), players)
}

impl DigestState {
    /// The lowest event id that is newer than the highwater mark.
    pub fn next_event_id(&self) -> (res: u64)
        requires
            self.last_event_id != Some(u64::MAX),
        ensures
            res == match self.last_event_id {
                Some(mark) => mark + 1,
                None => 0,
            },
            forall|id: u64| is_fresh(self.last_event_id, id) <==> id >= res,
    {
        match self.last_event_id {
            Some(mark) => mark + 1,
            None => 0,
        }
    }

    /// Whether the highwater mark has to be reset before `events` is read.
    pub fn should_reset(&self, events: &Vec<RawEvent>) -> (res: bool)
        ensures
            res == restarts(self.last_event_id, raw_views(events@)),
    {
        if self.last_event_id.is_none() {
            return false;
        }
        let ghost raws = raw_views(events@);
        let mut i: usize = 0;
        while i < events.len()
            invariant
                0 <= i <= events.len(),
                raws == raw_views(events@),
                self.last_event_id is Some,
                forall|k: int| 0 <= k < i ==> !((#[trigger] raws[k]).event_id == 0 && raws[k].in_opening),
            decreases events.len() - i,
        {
            if events[i].event_id == 0 && events[i].in_opening {
                assert(raws[i as int].event_id == 0 && raws[i as int].in_opening);
                return true;
            }
            assert(raws[i as int] == events@[i as int]@);
            i = i + 1;
        }
        false
    }

    /// Takes from a log the events that are new, and moves the highwater
    /// mark to the highest id among them. A log that tells of a new game is
    /// read in full.
    pub fn select_new(&mut self, raw_events: Vec<RawEvent>) -> (res: Vec<RawEvent>)
        ensures
            raw_views(res@) == kept(old(self).last_event_id, raw_views(raw_events@)),
            final(self).last_event_id == highwater_after(
                old(self).last_event_id,
                raw_views(raw_events@),
            ),
            final(self).active_hash == old(self).active_hash,
            final(self).players_hash == old(self).players_hash,
            final(self).events_hash == old(self).events_hash,
    {
        let ghost raws = raw_views(raw_events@);
        if self.should_reset(&raw_events) {
            self.last_event_id = None;
        }
        let floor = self.last_event_id;
        let exhausted = match floor {
            Some(mark) => mark == u64::MAX,
            None => false,
        };
        let expected: u64 = if exhausted {
            u64::MAX
        } else {
            self.next_event_id()
        };
        let mut most: Option<u64> = None;
        let mut new_events: Vec<RawEvent> = Vec::new();
        proof {
            assert(raws.take(0) == Seq::<RawView>::empty());
            assert(raw_views(new_events@) == Seq::<RawView>::empty());
        }
        for raw in it: raw_events
            invariant
                it.seq() == raw_events@,
                raws == raw_views(raw_events@),
                floor == floor_for(old(self).last_event_id, raws),
                forall|id: u64| is_fresh(floor, id) <==> !exhausted && id >= expected,
                raw_views(new_events@) == fresh(raws.take(it.index() as int), floor),
                most == max_id(raw_views(new_events@)),
        {
            let ghost before = raw_views(new_events@);
            proof {
                assert(raws.take(it.index() + 1).drop_last() == raws.take(it.index() as int));
                assert(raws.take(it.index() + 1).last() == raw@);
            }
            if !exhausted && raw.event_id >= expected {
                most = match most {
                    Some(seen) => if raw.event_id > seen {
                        Some(raw.event_id)
                    } else {
                        Some(seen)
                    },
                    None => Some(raw.event_id),
                };
                proof {
                    assert(raw_views(new_events@.push(raw)) == before.push(raw@));
                    assert(before.push(raw@).drop_last() == before);
                }
                new_events.push(raw);
            }
        }
        proof {
            assert(raws.take(raws.len() as int) == raws);
        }
        if most.is_some() {
            self.last_event_id = most;
        }
        new_events
    }

    /// Reads one event log: keeps what is new and normalizes it.
    pub fn ingest(&mut self, raw_events: Vec<RawEvent>, registry: &PlayerRegistry) -> (events: Vec<
        Event,
    >)
        ensures
            event_views(events@) == ingested(
                old(self).last_event_id,
                raw_views(raw_events@),
                registry@,
            ),
            all_well_formed(event_views(events@)),
            final(self).last_event_id == highwater_after(
                old(self).last_event_id,
                raw_views(raw_events@),
            ),
            final(self).active_hash == old(self).active_hash,
            final(self).players_hash == old(self).players_hash,
            final(self).events_hash == old(self).events_hash,
    {
        let new_events = self.select_new(raw_events);
        normalize_events(&new_events, registry)
    }
}

} // verus!
