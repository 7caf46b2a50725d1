//! The order of a batch: events sorted by timestamp, those of equal
//! timestamp in the order in which they were produced.

use crate::model::{event_views, Event, EventView};

use vstd::prelude::*;

verus! {

/// Whether the timestamps of a sequence of events never fall.
pub open spec fn ordered(events: Seq<EventView>) -> bool {
    forall|i: int, j: int|
        0 <= i < j < events.len() ==> (#[trigger] events[i]).ts <= (#[trigger] events[j]).ts
}

/// The place of an event of timestamp `ts` in a sequence: behind the last
/// event whose timestamp is not greater, at the front if there is none.
pub open spec fn place(events: Seq<EventView>, ts: u64) -> nat
    decreases events.len(),
{
    if events.len() == 0 || events.last().ts <= ts {
        events.len()
    } else {
        place(events.drop_last(), ts)
    }
}

/// The events sorted by timestamp. Events of equal timestamp keep their
/// order: each event in turn is put behind the last event whose timestamp is
/// not greater than its own.
pub open spec fn sorted_by_ts(events: Seq<EventView>) -> Seq<EventView>
    decreases events.len(),
{
    if events.len() == 0 {
        Seq::empty()
    } else {
        let before = sorted_by_ts(events.drop_last());
        before.insert(place(before, events.last().ts) as int, events.last())
    }
}

/// The place of a timestamp lies behind every event whose timestamp is not
/// greater, and before every event whose timestamp is greater.
pub proof fn lemma_place(events: Seq<EventView>, ts: u64)
    ensures
        place(events, ts) <= events.len(),
        forall|i: int| place(events, ts) <= i < events.len() ==> (#[trigger] events[i]).ts > ts,
        place(events, ts) > 0 ==> events[place(events, ts) - 1].ts <= ts,
    decreases events.len(),
{
    if !(events.len() == 0 || events.last().ts <= ts) {
        let rest = events.drop_last();
        lemma_place(rest, ts);
        assert forall|i: int| place(events, ts) <= i < events.len() implies (
        #[trigger] events[i]).ts > ts by {
            if i < events.len() - 1 {
                assert(events[i] == rest[i]);
            }
        }
        if place(events, ts) > 0 {
            assert(events[place(events, ts) - 1] == rest[place(rest, ts) - 1]);
        }
    }
}

/// The place of a timestamp is `at` if every event from `at` on has a
/// greater timestamp and the event before `at`, if there is one, has not.
pub proof fn lemma_place_is(events: Seq<EventView>, ts: u64, at: nat)
    requires
        at <= events.len(),
        forall|i: int| at <= i < events.len() ==> (#[trigger] events[i]).ts > ts,
        at > 0 ==> events[at - 1].ts <= ts,
    ensures
        place(events, ts) == at,
    decreases events.len(),
{
    if at < events.len() {
        let rest = events.drop_last();
        assert(events[events.len() - 1].ts > ts);
        assert forall|i: int| at <= i < rest.len() implies (#[trigger] rest[i]).ts > ts by {
            assert(rest[i] == events[i]);
        }
        if at > 0 {
            assert(rest[at - 1] == events[at - 1]);
        }
        lemma_place_is(rest, ts, at);
    }
}

/// Putting an event in its place keeps a sequence in order.
pub proof fn lemma_insert_keeps_order(events: Seq<EventView>, event: EventView)
    requires
        ordered(events),
    ensures
        ordered(events.insert(place(events, event.ts) as int, event)),
{
    lemma_place(events, event.ts);
    let at = place(events, event.ts) as int;
    let after = events.insert(at, event);
    assert forall|i: int, j: int| 0 <= i < j < after.len() implies (#[trigger] after[i]).ts <= (
    #[trigger] after[j]).ts by {
        if i < at && j > at {
            assert(after[i] == events[i] && after[j] == events[j - 1]);
        } else if i < at && j == at {
            assert(after[i] == events[i]);
            assert(events[i].ts <= events[at - 1].ts || i == at - 1);
        } else if i == at {
            assert(after[j] == events[j - 1]);
        } else if j < at {
            assert(after[i] == events[i] && after[j] == events[j]);
        } else {
            assert(after[i] == events[i - 1] && after[j] == events[j - 1]);
        }
    }
}

/// In every batch the events are sorted by timestamp, ascending; and the
/// batch holds the events that were produced, each as often as it was.
pub proof fn lemma_sorted_by_ts(events: Seq<EventView>)
    ensures
        ordered(sorted_by_ts(events)),
        sorted_by_ts(events).len() == events.len(),
        sorted_by_ts(events).to_multiset() == events.to_multiset(),
    decreases events.len(),
{
    broadcast use vstd::seq_lib::group_to_multiset_ensures;

    if events.len() > 0 {
        let rest = events.drop_last();
        let before = sorted_by_ts(rest);
        lemma_sorted_by_ts(rest);
        lemma_insert_keeps_order(before, events.last());
        lemma_place(before, events.last().ts);
        let at = place(before, events.last().ts) as int;
        assert(rest.push(events.last()) == events);
        vstd::seq_lib::to_multiset_insert(before, at, events.last());
        assert(before.insert(at, events.last()).to_multiset() == before.to_multiset().insert(
            events.last(),
        ));
        assert(events.to_multiset() == rest.to_multiset().insert(events.last()));
    } else {
        assert(sorted_by_ts(events).to_multiset() =~= events.to_multiset());
    }
}

/// A sequence that is in order is its own sorting.
pub proof fn lemma_sorting_ordered(events: Seq<EventView>)
    requires
        ordered(events),
    ensures
        sorted_by_ts(events) == events,
    decreases events.len(),
{
    if events.len() > 0 {
        let rest = events.drop_last();
        assert forall|i: int, j: int| 0 <= i < j < rest.len() implies (#[trigger] rest[i]).ts <= (
        #[trigger] rest[j]).ts by {
            assert(rest[i] == events[i] && rest[j] == events[j]);
        }
        lemma_sorting_ordered(rest);
        if rest.len() > 0 {
            assert(rest[rest.len() - 1] == events[rest.len() - 1]);
            assert(events[rest.len() - 1].ts <= events[events.len() - 1].ts);
        }
        lemma_place_is(rest, events.last().ts, rest.len());
        assert(rest.insert(rest.len() as int, events.last()) == events);
    }
}

/// Sorts events by timestamp, ascending; events of equal timestamp keep
/// their order.
pub fn sort_by_ts(events: Vec<Event>) -> (sorted: Vec<Event>)
    ensures
        event_views(sorted@) == sorted_by_ts(event_views(events@)),
        ordered(event_views(sorted@)),
        sorted@.len() == events@.len(),
{
    let mut sorted: Vec<Event> = Vec::new();
    let ghost all = event_views(events@);
    proof {
        assert(all.take(0) == Seq::<EventView>::empty());
        assert(event_views(sorted@) == Seq::<EventView>::empty());
    }
    for event in it: events
        invariant
            it.seq() == events@,
            all == event_views(events@),
            event_views(sorted@) == sorted_by_ts(all.take(it.index() as int)),
    {
        let ghost before = event_views(sorted@);
        proof {
            assert(all.take(it.index() + 1).drop_last() == all.take(it.index() as int));
            assert(all.take(it.index() + 1).last() == event@);
        }
        let mut at: usize = sorted.len();
        while at > 0 && sorted[at - 1].ts > event.ts
            invariant
                0 <= at <= sorted.len(),
                before == event_views(sorted@),
                forall|i: int| at <= i < sorted.len() ==> (#[trigger] before[i]).ts > event.ts,
            decreases at,
        {
            at = at - 1;
        }
        proof {
            if at > 0 {
                assert(before[at - 1].ts <= event.ts);
            }
            lemma_place_is(before, event.ts, at as nat);
            assert(event_views(sorted@.insert(at as int, event)) == before.insert(
                at as int,
                event@,
            ));
        }
        sorted.insert(at, event);
    }
    proof {
        assert(all.take(all.len() as int) == all);
        lemma_sorted_by_ts(all);
    }
    sorted
}

} // verus!
