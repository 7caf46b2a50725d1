//! What holds of the live poller over a run of polls.

use crate::differ::SnapshotView;
use crate::digest::DigestState;
use crate::digest_laws::{
    growing, last_cut, lemma_run_reads_each_event_once, mark_at, no_restart_in_run, run_events,
    run_mark, strictly_increasing,
};
use crate::feed::{normalized, RawEvent, RawView};
use crate::model::EventView;
use crate::order::lemma_sorted_by_ts;
use crate::poller::{
    applies_list, digest_after_poll, list_of, log_of, poll_events, poll_fails, produced, reading,
    reads_log, registry_after_poll, Fetched,
};
use crate::registry::apply_events;
use crate::registry_laws::lemma_baseline_is_silent;
use crate::roster::PlayerListEntry;
use vstd::multiset::Multiset;
use vstd::prelude::*;

verus! {

/// One round of answers, as a poll takes them.
pub struct Round {
    pub active: Option<u64>,
    pub players: Option<Fetched<Vec<PlayerListEntry>>>,
    pub events: Option<Fetched<Vec<RawEvent>>>,
    pub now_ms: u64,
}

/// What the poller carries from poll to poll, as far as a batch depends on
/// it: the digest and the registry.
pub struct PollState {
    pub digest: DigestState,
    pub players: Seq<SnapshotView>,
}

/// The state after the first `n` polls of a run.
pub open spec fn state_after(start: PollState, rounds: Seq<Round>, n: nat) -> PollState
    decreases n,
{
    if n == 0 {
        start
    } else {
        let before = state_after(start, rounds, (n - 1) as nat);
        let round = rounds[n - 1];
        PollState {
            digest: digest_after_poll(before.digest, round.active, round.players, round.events),
            players: registry_after_poll(
                before.digest,
                before.players,
                round.players,
                round.events,
                round.now_ms,
            ),
        }
    }
}

/// The events of the batches of the first `n` polls of a run, taken
/// together.
pub open spec fn yielded(start: PollState, rounds: Seq<Round>, n: nat) -> Multiset<EventView>
    decreases n,
{
    if n == 0 {
        Multiset::empty()
    } else {
        let before = state_after(start, rounds, (n - 1) as nat);
        let round = rounds[n - 1];
        yielded(start, rounds, (n - 1) as nat).add(
            poll_events(
                before.digest,
                before.players,
                round.players,
                round.events,
                round.now_ms,
            ).to_multiset(),
        )
    }
}

/// Whether a run follows a growing log beside a player list that stays as
/// it is: every poll reads the log, at the length that `cuts` gives; the
/// first poll may set the baseline of an empty registry; no other poll reads
/// the player list.
pub open spec fn follows_log(
    start: PollState,
    rounds: Seq<Round>,
    raws: Seq<RawView>,
    cuts: Seq<int>,
) -> bool {
    &&& rounds.len() == cuts.len()
    &&& start.digest.last_event_id is None
    &&& forall|t: int|
        #![trigger rounds[t]]
        0 <= t < rounds.len() ==> {
            let before = state_after(start, rounds, t as nat);
            &&& reading(before.digest.events_hash, rounds[t].events) is Changed
            &&& log_of(rounds[t].events) == raws.take(cuts[t])
            &&& (reading(before.digest.players_hash, rounds[t].players) is Unchanged || (t == 0
                && start.players.len() == 0 && reading(
                before.digest.players_hash,
                rounds[t].players,
            ) is Changed))
        }
}

/// A run of polls over a growing log: when a log whose ids rise strictly is
/// read poll after poll while the player list stays as it is, and no log
/// that is read while the highwater mark is set bears the mark of a new
/// game, then the batches of the polls together hold the normalization of
/// the log as far as it was read, each raw event normalized once, against
/// the registry that the first poll left; and the highwater mark is the id
/// of the last event read.
pub proof fn lemma_polls_read_each_event_once(
    start: PollState,
    rounds: Seq<Round>,
    raws: Seq<RawView>,
    cuts: Seq<int>,
    n: nat,
)
    requires
        strictly_increasing(raws),
        growing(cuts, raws.len()),
        no_restart_in_run(raws, cuts),
        follows_log(start, rounds, raws, cuts),
        1 <= n <= rounds.len(),
    ensures
        state_after(start, rounds, n).players == state_after(start, rounds, 1).players,
        state_after(start, rounds, n).digest.last_event_id == mark_at(raws, last_cut(cuts, n)),
        yielded(start, rounds, n) == normalized(
            raws.take(last_cut(cuts, n)),
            state_after(start, rounds, 1).players,
        ).to_multiset(),
{
    let players = state_after(start, rounds, 1).players;
    lemma_polls_follow_run(start, rounds, raws, cuts, n);
    lemma_run_reads_each_event_once(raws, cuts, players, n);
}

/// The polls of a run that follows a growing log do what the readings of
/// the log do: they leave the same highwater mark and yield the same events.
pub proof fn lemma_polls_follow_run(
    start: PollState,
    rounds: Seq<Round>,
    raws: Seq<RawView>,
    cuts: Seq<int>,
    n: nat,
)
    requires
        follows_log(start, rounds, raws, cuts),
        n <= rounds.len(),
    ensures
        n >= 1 ==> state_after(start, rounds, n).players == state_after(start, rounds, 1).players,
        state_after(start, rounds, n).digest.last_event_id == run_mark(raws, cuts, n),
        n >= 1 ==> yielded(start, rounds, n) == run_events(
            raws,
            cuts,
            state_after(start, rounds, 1).players,
            n,
        ).to_multiset(),
    decreases n,
{
    broadcast use vstd::seq_lib::group_to_multiset_ensures;

    if n > 0 {
        let m = (n - 1) as nat;
        lemma_polls_follow_run(start, rounds, raws, cuts, m);
        let players = state_after(start, rounds, 1).players;
        let before = state_after(start, rounds, m);
        let round = rounds[n - 1];
        let log = raws.take(cuts[n - 1]);
        let news = crate::digest::ingested(before.digest.last_event_id, log, players);
        let after = registry_after_poll(
            before.digest,
            before.players,
            round.players,
            round.events,
            round.now_ms,
        );
        let from_list = if applies_list(before.digest, round.players, round.events) {
            apply_events(before.players, list_of(round.players), round.now_ms)
        } else {
            Seq::empty()
        };
        assert(reading(before.digest.events_hash, round.events) is Changed);
        assert(log_of(round.events) == log);
        assert(!poll_fails(before.digest, round.players, round.events));
        assert(reads_log(before.digest, round.players, round.events));
        if reading(before.digest.players_hash, round.players) is Changed {
            assert(before.players =~= Seq::<SnapshotView>::empty());
            lemma_baseline_is_silent(list_of(round.players), round.now_ms);
        }
        assert(from_list == Seq::<EventView>::empty());
        assert(after == players);
        assert(produced(before.digest, before.players, round.players, round.events, round.now_ms)
            == from_list + news);
        assert(Seq::<EventView>::empty() + news == news);
        lemma_sorted_by_ts(news);
        assert(poll_events(
            before.digest,
            before.players,
            round.players,
            round.events,
            round.now_ms,
        ).to_multiset() == news.to_multiset());
        let earlier = run_events(raws, cuts, players, m);
        vstd::seq_lib::lemma_multiset_commutative(earlier, news);
        assert(run_events(raws, cuts, players, n) == earlier + news);
        if m == 0 {
            assert(earlier == Seq::<EventView>::empty());
            assert(earlier.to_multiset() =~= Multiset::<EventView>::empty());
        }
        assert(yielded(start, rounds, m) == earlier.to_multiset());
        assert(yielded(start, rounds, n) =~= run_events(raws, cuts, players, n).to_multiset());
    }
}

} // verus!
