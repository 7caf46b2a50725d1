//! What holds of the deduplicator over successive event logs.

use crate::differ::SnapshotView;
use crate::digest::{
    floor_for, fresh, has_restart_marker, highwater_after, ingested, is_fresh, kept, max_id,
    restarts,
};
use crate::feed::{normalized, RawView};
use crate::model::EventView;
use vstd::prelude::*;

verus! {

/// Whether the ids of a log rise strictly.
pub open spec fn strictly_increasing(raws: Seq<RawView>) -> bool {
    forall|i: int, j: int|
        0 <= i < j < raws.len() ==> (#[trigger] raws[i]).event_id < (#[trigger] raws[j]).event_id
}

/// Without a highwater mark every event is new.
pub proof fn lemma_fresh_without_mark(raws: Seq<RawView>)
    ensures
        fresh(raws, None) == raws,
    decreases raws.len(),
{
    if raws.len() > 0 {
        lemma_fresh_without_mark(raws.drop_last());
        assert(raws.drop_last().push(raws.last()) == raws);
    }
}

/// The events that are kept are those that are new, and each new event of
/// the log is among them.
pub proof fn lemma_fresh_members(raws: Seq<RawView>, floor: Option<u64>)
    ensures
        forall|j: int|
            0 <= j < fresh(raws, floor).len() ==> is_fresh(
                floor,
                (#[trigger] fresh(raws, floor)[j]).event_id,
            ),
        forall|i: int|
            0 <= i < raws.len() && is_fresh(floor, (#[trigger] raws[i]).event_id) ==> exists|
                j: int,
            |
                0 <= j < fresh(raws, floor).len() && fresh(raws, floor)[j] == raws[i],
    decreases raws.len(),
{
    if raws.len() > 0 {
        let rest = raws.drop_last();
        lemma_fresh_members(rest, floor);
        let all = fresh(raws, floor);
        let before = fresh(rest, floor);
        assert forall|i: int|
            0 <= i < raws.len() && is_fresh(floor, (#[trigger] raws[i]).event_id) implies exists|
            j: int,
        |
            0 <= j < all.len() && all[j] == raws[i] by {
            if i < raws.len() - 1 {
                assert(rest[i] == raws[i]);
                let j = choose|j: int| 0 <= j < before.len() && before[j] == rest[i];
                assert(all[j] == raws[i]);
            } else {
                assert(all[all.len() - 1] == raws[i]);
            }
        }
        assert forall|j: int| 0 <= j < all.len() implies is_fresh(
            floor,
            (#[trigger] all[j]).event_id,
        ) by {
            if j < before.len() {
                assert(all[j] == before[j]);
            }
        }
    }
}

/// Where no event is new, none is kept.
pub proof fn lemma_fresh_of_old(raws: Seq<RawView>, floor: Option<u64>)
    requires
        forall|i: int| 0 <= i < raws.len() ==> !is_fresh(floor, (#[trigger] raws[i]).event_id),
    ensures
        fresh(raws, floor) == Seq::<RawView>::empty(),
    decreases raws.len(),
{
    if raws.len() > 0 {
        let rest = raws.drop_last();
        assert forall|i: int| 0 <= i < rest.len() implies !is_fresh(
            floor,
            (#[trigger] rest[i]).event_id,
        ) by {
            assert(rest[i] == raws[i]);
        }
        lemma_fresh_of_old(rest, floor);
        assert(raws.last() == raws[raws.len() - 1]);
    }
}

/// The highest id of a log is the id of one of its events, and no event has
/// a higher one.
pub proof fn lemma_max_id(raws: Seq<RawView>)
    ensures
        max_id(raws) is Some <==> raws.len() > 0,
        forall|i: int|
            0 <= i < raws.len() ==> (#[trigger] raws[i]).event_id <= max_id(raws).unwrap(),
        raws.len() > 0 ==> exists|i: int|
            0 <= i < raws.len() && (#[trigger] raws[i]).event_id == max_id(raws).unwrap(),
    decreases raws.len(),
{
    if raws.len() > 0 {
        let rest = raws.drop_last();
        lemma_max_id(rest);
        assert forall|i: int| 0 <= i < raws.len() implies (#[trigger] raws[i]).event_id <= max_id(
            raws,
        ).unwrap() by {
            if i < raws.len() - 1 {
                assert(rest[i] == raws[i]);
            }
        }
        if rest.len() > 0 && max_id(raws) == max_id(rest) {
            let i = choose|i: int|
                0 <= i < rest.len() && (#[trigger] rest[i]).event_id == max_id(rest).unwrap();
            assert(raws[i].event_id == max_id(raws).unwrap());
        } else {
            assert(raws[raws.len() - 1].event_id == max_id(raws).unwrap());
        }
    }
}

/// The typed events of two logs in a row are those of the first followed by
/// those of the second.
pub proof fn lemma_normalized_concat(
    first: Seq<RawView>,
    second: Seq<RawView>,
    players: Seq<SnapshotView>,
)
    ensures
        normalized(first + second, players) == normalized(first, players) + normalized(
            second,
            players,
        ),
    decreases second.len(),
{
    if second.len() == 0 {
        assert(first + second == first);
        assert(normalized(first, players) + Seq::<EventView>::empty() == normalized(
            first,
            players,
        ));
    } else {
        lemma_normalized_concat(first, second.drop_last(), players);
        assert((first + second).drop_last() == first + second.drop_last());
        assert((first + second).last() == second.last());
        let a = normalized(first, players);
        let b = normalized(second.drop_last(), players);
        let c = crate::feed::normalized_one(second.last(), players);
        assert((a + b) + c == a + (b + c));
    }
}

/// A log that tells of a new game, read while a highwater mark is set, is
/// read in full: it yields the normalization of all its events.
pub proof fn lemma_restart_reads_all(
    highwater: Option<u64>,
    raws: Seq<RawView>,
    players: Seq<SnapshotView>,
)
    requires
        highwater is Some,
        has_restart_marker(raws),
    ensures
        kept(highwater, raws) == raws,
        ingested(highwater, raws, players) == normalized(raws, players),
{
    lemma_fresh_without_mark(raws);
}

/// The highwater mark never falls but at a restart.
pub proof fn lemma_highwater_rises(highwater: Option<u64>, raws: Seq<RawView>)
    requires
        !restarts(highwater, raws),
    ensures
        match highwater {
            Some(mark) => highwater_after(highwater, raws) is Some && highwater_after(
                highwater,
                raws,
            ).unwrap() >= mark,
            None => true,
        },
{
    let taken = fresh(raws, highwater);
    lemma_max_id(taken);
    lemma_fresh_members(raws, highwater);
    if taken.len() > 0 {
        let i = choose|i: int|
            0 <= i < taken.len() && (#[trigger] taken[i]).event_id == max_id(taken).unwrap();
        assert(is_fresh(highwater, taken[i].event_id));
    }
}

/// After a log was read, no event of it is newer than the highwater mark.
pub proof fn lemma_read_events_are_old(highwater: Option<u64>, raws: Seq<RawView>, i: int)
    requires
        0 <= i < raws.len(),
    ensures
        !is_fresh(highwater_after(highwater, raws), raws[i].event_id),
{
    let floor = floor_for(highwater, raws);
    let taken = fresh(raws, floor);
    lemma_max_id(taken);
    lemma_fresh_members(raws, floor);
    if is_fresh(floor, raws[i].event_id) {
        let j = choose|j: int| 0 <= j < taken.len() && taken[j] == raws[i];
        assert(taken[j].event_id <= max_id(taken).unwrap());
    } else if taken.len() > 0 {
        let j = choose|j: int|
            0 <= j < taken.len() && (#[trigger] taken[j]).event_id == max_id(taken).unwrap();
        assert(is_fresh(floor, taken[j].event_id));
    }
}

/// Replay: a log that is read a second time right after it was read yields
/// nothing and leaves the highwater mark where it was. A log that bears the
/// mark of a new game is read in full each time, so it is silent only where
/// none of its events gives a typed event.
pub proof fn lemma_replay_is_silent(
    highwater: Option<u64>,
    raws: Seq<RawView>,
    players: Seq<SnapshotView>,
)
    requires
        has_restart_marker(raws) ==> normalized(raws, players) == Seq::<EventView>::empty(),
    ensures
        ingested(highwater_after(highwater, raws), raws, players) == Seq::<EventView>::empty(),
        highwater_after(highwater_after(highwater, raws), raws) == highwater_after(
            highwater,
            raws,
        ),
{
    let after = highwater_after(highwater, raws);
    if has_restart_marker(raws) {
        lemma_fresh_without_mark(raws);
    } else {
        assert forall|i: int| 0 <= i < raws.len() implies !is_fresh(
            after,
            (#[trigger] raws[i]).event_id,
        ) by {
            lemma_read_events_are_old(highwater, raws, i);
        }
        lemma_fresh_of_old(raws, after);
    }
}

/// In a log whose ids rise strictly, the events that are newer than the id
/// of the event before position `k` are those from position `k` on.
pub proof fn lemma_fresh_of_increasing(raws: Seq<RawView>, k: int)
    requires
        strictly_increasing(raws),
        0 < k <= raws.len(),
    ensures
        fresh(raws, Some(raws[k - 1].event_id)) == raws.skip(k),
    decreases raws.len(),
{
    let floor = Some(raws[k - 1].event_id);
    if k == raws.len() {
        assert forall|i: int| 0 <= i < raws.len() implies !is_fresh(
            floor,
            (#[trigger] raws[i]).event_id,
        ) by {
            if i < k - 1 {
                assert(raws[i].event_id < raws[k - 1].event_id);
            }
        }
        lemma_fresh_of_old(raws, floor);
        assert(raws.skip(k) == Seq::<RawView>::empty());
    } else {
        let rest = raws.drop_last();
        assert forall|i: int, j: int| 0 <= i < j < rest.len() implies (
        #[trigger] rest[i]).event_id < (#[trigger] rest[j]).event_id by {
            assert(rest[i] == raws[i] && rest[j] == raws[j]);
        }
        assert(rest[k - 1] == raws[k - 1]);
        lemma_fresh_of_increasing(rest, k);
        assert(raws[k - 1].event_id < raws[raws.len() - 1].event_id);
        assert(rest.skip(k).push(raws.last()) == raws.skip(k));
    }
}

/// In a log whose ids rise strictly, the highest id is the last.
pub proof fn lemma_max_of_increasing(raws: Seq<RawView>)
    requires
        strictly_increasing(raws),
        raws.len() > 0,
    ensures
        max_id(raws) == Some(raws.last().event_id),
{
    lemma_max_id(raws);
    let i = choose|i: int|
        0 <= i < raws.len() && (#[trigger] raws[i]).event_id == max_id(raws).unwrap();
    assert(raws[raws.len() - 1].event_id <= max_id(raws).unwrap());
    if i < raws.len() - 1 {
        assert(raws[i].event_id < raws[raws.len() - 1].event_id);
    }
}

/// A growing log is normalized once: when a log whose ids rise strictly is
/// read first up to position `k` and then in full, the two readings together
/// yield the normalization of the log, each event once. A log that bears the
/// mark of a new game is read in full the second time, so this holds of it
/// only where the first reading gave no typed event.
pub proof fn lemma_log_is_read_once(raws: Seq<RawView>, players: Seq<SnapshotView>, k: int)
    requires
        strictly_increasing(raws),
        0 <= k <= raws.len(),
        has_restart_marker(raws) ==> normalized(raws.take(k), players) == Seq::<
            EventView,
        >::empty(),
    ensures
        ingested(None, raws.take(k), players) + ingested(
            highwater_after(None, raws.take(k)),
            raws,
            players,
        ) == normalized(raws, players),
{
    let head = raws.take(k);
    lemma_fresh_without_mark(head);
    assert(kept(None, head) == head);
    if has_restart_marker(raws) {
        lemma_fresh_without_mark(raws);
        assert(kept(highwater_after(None, head), raws) == raws);
        assert(Seq::<EventView>::empty() + normalized(raws, players) == normalized(raws, players));
    } else if k == 0 {
        lemma_fresh_without_mark(raws);
        assert(max_id(head) is None);
        assert(Seq::<EventView>::empty() + normalized(raws, players) == normalized(raws, players));
    } else {
        assert forall|i: int, j: int| 0 <= i < j < head.len() implies (
        #[trigger] head[i]).event_id < (#[trigger] head[j]).event_id by {
            assert(head[i] == raws[i] && head[j] == raws[j]);
        }
        lemma_max_of_increasing(head);
        assert(head.last() == raws[k - 1]);
        lemma_fresh_of_increasing(raws, k);
        lemma_normalized_concat(head, raws.skip(k), players);
        assert(head + raws.skip(k) == raws);
    }
}

/// The highwater mark after the first `n` events of a log were read: the id
/// of the last of them, or none where none was read.
pub open spec fn mark_at(raws: Seq<RawView>, n: int) -> Option<u64> {
    if n <= 0 {
        None
    } else {
        Some(raws[n - 1].event_id)
    }
}

/// A growing log, step by step: when the first `j` events of a log whose ids
/// rise strictly were read, and the log has grown to `k` events, reading it
/// keeps the events from position `j` to `k`, normalizes each of them once,
/// and moves the highwater mark to the last of them. From the second
/// reading on, this holds of a log that bears no mark of a new game.
pub proof fn lemma_growing_log_step(
    raws: Seq<RawView>,
    players: Seq<SnapshotView>,
    j: int,
    k: int,
)
    requires
        strictly_increasing(raws),
        0 <= j <= k <= raws.len(),
        j > 0 ==> !has_restart_marker(raws.take(k)),
    ensures
        kept(mark_at(raws, j), raws.take(k)) == raws.subrange(j, k),
        ingested(mark_at(raws, j), raws.take(k), players) == normalized(
            raws.subrange(j, k),
            players,
        ),
        highwater_after(mark_at(raws, j), raws.take(k)) == mark_at(raws, k),
{
    let log = raws.take(k);
    let news = raws.subrange(j, k);
    assert forall|a: int, b: int| 0 <= a < b < log.len() implies (#[trigger] log[a]).event_id < (
    #[trigger] log[b]).event_id by {
        assert(log[a] == raws[a] && log[b] == raws[b]);
    }
    assert forall|a: int, b: int| 0 <= a < b < news.len() implies (#[trigger] news[a]).event_id
        < (#[trigger] news[b]).event_id by {
        assert(news[a] == raws[a + j] && news[b] == raws[b + j]);
    }
    if j == 0 {
        lemma_fresh_without_mark(log);
        assert(log == news);
    } else {
        assert(log[j - 1] == raws[j - 1]);
        lemma_fresh_of_increasing(log, j);
        assert(log.skip(j) == news);
    }
    if j < k {
        lemma_max_of_increasing(news);
        assert(news.last() == raws[k - 1]);
    }
}

/// Whether `cuts` tells of a growing log: each cut is a length up to `len`,
/// and no cut is shorter than one before it.
pub open spec fn growing(cuts: Seq<int>, len: nat) -> bool {
    &&& forall|t: int| 0 <= t < cuts.len() ==> 0 <= #[trigger] cuts[t] <= len
    &&& forall|s: int, t: int| 0 <= s < t < cuts.len() ==> #[trigger] cuts[s] <= #[trigger] cuts[t]
}

/// The length of the log at the last of the first `n` readings of a run,
/// zero before the first.
pub open spec fn last_cut(cuts: Seq<int>, n: nat) -> int {
    if n == 0 {
        0
    } else {
        cuts[n - 1]
    }
}

/// The highwater mark after the first `n` readings of a run, in which the
/// log is read at the lengths that `cuts` gives, one after the other,
/// starting without a mark.
pub open spec fn run_mark(raws: Seq<RawView>, cuts: Seq<int>, n: nat) -> Option<u64>
    decreases n,
{
    if n == 0 {
        None
    } else {
        highwater_after(run_mark(raws, cuts, (n - 1) as nat), raws.take(cuts[n - 1]))
    }
}

/// The typed events that the first `n` readings of a run yield, one reading
/// after the other.
pub open spec fn run_events(
    raws: Seq<RawView>,
    cuts: Seq<int>,
    players: Seq<SnapshotView>,
    n: nat,
) -> Seq<EventView>
    decreases n,
{
    if n == 0 {
        Seq::empty()
    } else {
        run_events(raws, cuts, players, (n - 1) as nat) + ingested(
            run_mark(raws, cuts, (n - 1) as nat),
            raws.take(cuts[n - 1]),
            players,
        )
    }
}

/// Whether no reading of a run that is made while the highwater mark is set
/// bears the mark of a new game.
pub open spec fn no_restart_in_run(raws: Seq<RawView>, cuts: Seq<int>) -> bool {
    forall|t: int|
        0 <= t < cuts.len() && run_mark(raws, cuts, t as nat) is Some ==> !has_restart_marker(
            raws.take(#[trigger] cuts[t]),
        )
}

/// A whole run over a growing log: after any number of readings of a log
/// whose ids rise strictly, the readings together have yielded the
/// normalization of the log as far as it was read, each raw event once and
/// in the order of the log, and the highwater mark is the id of the last
/// event read.
pub proof fn lemma_run_reads_each_event_once(
    raws: Seq<RawView>,
    cuts: Seq<int>,
    players: Seq<SnapshotView>,
    n: nat,
)
    requires
        strictly_increasing(raws),
        growing(cuts, raws.len()),
        no_restart_in_run(raws, cuts),
        n <= cuts.len(),
    ensures
        run_events(raws, cuts, players, n) == normalized(
            raws.take(last_cut(cuts, n)),
            players,
        ),
        run_mark(raws, cuts, n) == mark_at(raws, last_cut(cuts, n)),
    decreases n,
{
    if n == 0 {
        assert(raws.take(0) == Seq::<RawView>::empty());
    } else {
        let m = (n - 1) as nat;
        lemma_run_reads_each_event_once(raws, cuts, players, m);
        let j = last_cut(cuts, m);
        let k = cuts[n - 1];
        if m > 0 {
            assert(cuts[m - 1] <= cuts[n - 1]);
        }
        assert(0 <= j <= k <= raws.len());
        if j > 0 {
            assert(run_mark(raws, cuts, m) is Some);
            assert(!has_restart_marker(raws.take(cuts[n - 1])));
        }
        lemma_growing_log_step(raws, players, j, k);
        lemma_normalized_concat(raws.take(j), raws.subrange(j, k), players);
        assert(raws.take(j) + raws.subrange(j, k) == raws.take(k));
    }
}

/// A run that ends with the whole log has yielded the normalization of the
/// log, each raw event once, and leaves the id of the last event as the
/// highwater mark.
pub proof fn lemma_run_reads_the_log(
    raws: Seq<RawView>,
    cuts: Seq<int>,
    players: Seq<SnapshotView>,
)
    requires
        strictly_increasing(raws),
        growing(cuts, raws.len()),
        no_restart_in_run(raws, cuts),
        cuts.len() > 0,
        cuts.last() == raws.len(),
    ensures
        run_events(raws, cuts, players, cuts.len()) == normalized(raws, players),
        run_mark(raws, cuts, cuts.len()) == mark_at(raws, raws.len() as int),
{
    lemma_run_reads_each_event_once(raws, cuts, players, cuts.len());
    assert(raws.take(raws.len() as int) == raws);
}

} // verus!
