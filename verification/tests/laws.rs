use levents::digest::DigestState;
use levents::feed::{normalize_events, RawEvent};
use levents::governor::{ActivityState, PollActivity};
use levents::order::sort_by_ts;
use levents::poller::{Fetched, PollContext};
use levents::registry::PlayerRegistry;
use levents::roster::{PlayerItemEntry, PlayerListEntry};
use levents::{DaemonConfig, Event, EventKind, EventPayload, PlayerRef, Team};

fn entry(name: &str, team: &str, level: u32, gold: i64, items: &[u32]) -> PlayerListEntry {
    PlayerListEntry {
        summoner_name: name.to_string(),
        team: team.to_string(),
        level,
        current_gold: Some(gold),
        is_dead: false,
        items: items
            .iter()
            .map(|id| PlayerItemEntry { item_id: *id, display_name: None })
            .collect(),
    }
}

fn raw(id: u64, name: &str, time_ms: u64) -> RawEvent {
    RawEvent {
        event_id: id,
        event_name: name.to_string(),
        event_time_ms: time_ms,
        in_opening: time_ms < 5_000,
        killer_name: None,
        victim_name: None,
        assisters: Vec::new(),
        summoner_name: None,
        level: None,
        item_id: None,
        item_name: None,
    }
}

fn kill(id: u64, time_ms: u64, killer: &str, victim: &str) -> RawEvent {
    RawEvent {
        killer_name: Some(killer.to_string()),
        victim_name: Some(victim.to_string()),
        ..raw(id, "ChampionKill", time_ms)
    }
}

fn slot_of(registry: &PlayerRegistry, name: &str) -> u8 {
    registry.player_ref(name).expect("known player").slot
}

fn roster() -> Vec<PlayerListEntry> {
    vec![
        entry("Alpha", "ORDER", 3, 900, &[1055, 2003, 2003]),
        entry("Bravo", "CHAOS", 2, 450, &[3340]),
        entry("Charlie", "ORDER", 1, 0, &[]),
    ]
}

#[test]
fn first_list_sets_the_baseline_without_events() {
    let mut registry = PlayerRegistry::default();
    assert!(registry.apply(roster(), 1_000).is_empty());
    assert!(registry.player_ref("Alpha").is_some());
    assert!(registry.player_ref("Delta").is_none());
}

#[test]
fn identical_lists_emit_nothing() {
    let mut registry = PlayerRegistry::default();
    registry.apply(roster(), 1_000);
    for round in 0..4u64 {
        assert!(registry.apply(roster(), 2_000 + round).is_empty());
    }
    let mut changed = roster();
    changed[1].level = 3;
    assert_eq!(registry.apply(changed.clone(), 7_000).len(), 1);
    assert!(registry.apply(changed, 8_000).is_empty());
}

#[test]
fn slots_stay_with_their_names() {
    let mut registry = PlayerRegistry::default();
    registry.apply(roster(), 1_000);
    assert_eq!(slot_of(&registry, "Alpha"), 0);
    assert_eq!(slot_of(&registry, "Bravo"), 5);
    assert_eq!(slot_of(&registry, "Charlie"), 1);

    let reordered = vec![
        entry("Delta", "ORDER", 1, 0, &[]),
        entry("Charlie", "ORDER", 4, 10, &[]),
        entry("Echo", "CHAOS", 1, 0, &[]),
        entry("Bravo", "ORDER", 2, 450, &[]),
        entry("Alpha", "CHAOS", 3, 900, &[]),
    ];
    registry.apply(reordered, 2_000);
    assert_eq!(slot_of(&registry, "Alpha"), 0);
    assert_eq!(slot_of(&registry, "Bravo"), 5);
    assert_eq!(slot_of(&registry, "Charlie"), 1);
    assert_eq!(slot_of(&registry, "Delta"), 2);
    assert_eq!(slot_of(&registry, "Echo"), 6);
}

#[test]
fn growing_log_is_read_once() {
    let mut registry = PlayerRegistry::default();
    registry.apply(roster(), 1_000);
    let log = vec![
        kill(0, 30_000, "Alpha", "Bravo"),
        raw(1, "DragonKill", 45_000),
        kill(2, 60_000, "Bravo", "Charlie"),
        raw(3, "GameEnd", 90_000),
    ];
    let mut digest = DigestState::default();
    let mut total: Vec<Event> = Vec::new();
    for upto in 1..=log.len() {
        total.extend(digest.ingest(log[..upto].to_vec(), &registry));
    }
    assert_eq!(total, normalize_events(&log, &registry));
    assert_eq!(total.len(), 6);
    assert_eq!(digest.last_event_id, Some(3));

    assert!(digest.ingest(log.clone(), &registry).is_empty());
    assert_eq!(digest.last_event_id, Some(3));
}

#[test]
fn restarted_game_is_read_in_full() {
    let mut registry = PlayerRegistry::default();
    registry.apply(roster(), 1_000);
    let mut digest = DigestState::default();
    digest.last_event_id = Some(57);
    let log = vec![raw(0, "GameStart", 1_200), kill(1, 9_000, "Alpha", "Bravo")];
    assert!(digest.should_reset(&log));
    let events = digest.ingest(log.clone(), &registry);
    assert_eq!(events, normalize_events(&log, &registry));
    assert_eq!(events.len(), 3);
    assert_eq!(digest.last_event_id, Some(1));
}

#[test]
fn late_first_event_does_not_reset() {
    let registry = PlayerRegistry::default();
    let mut digest = DigestState::default();
    digest.last_event_id = Some(57);
    let log = vec![raw(0, "GameStart", 5_000), raw(1, "GameEnd", 9_000)];
    assert!(!digest.should_reset(&log));
    assert!(digest.ingest(log, &registry).is_empty());
    assert_eq!(digest.last_event_id, Some(57));
}

#[test]
fn unset_highwater_does_not_reset() {
    let digest = DigestState::default();
    assert!(!digest.should_reset(&vec![raw(0, "GameStart", 0)]));
}

#[test]
fn select_new_keeps_ids_above_the_highwater() {
    let mut digest = DigestState::default();
    digest.last_event_id = Some(4);
    let log = vec![raw(3, "Ace", 10_000), raw(5, "Ace", 11_000), raw(4, "Ace", 12_000), raw(9, "Ace", 13_000)];
    let kept = digest.select_new(log);
    let ids: Vec<u64> = kept.iter().map(|event| event.event_id).collect();
    assert_eq!(ids, vec![5, 9]);
    assert_eq!(digest.last_event_id, Some(9));
}

#[test]
fn highwater_at_the_limit_keeps_nothing() {
    let mut digest = DigestState::default();
    digest.last_event_id = Some(u64::MAX);
    let kept = digest.select_new(vec![raw(u64::MAX, "Ace", 10_000), raw(7, "Ace", 11_000)]);
    assert!(kept.is_empty());
    assert_eq!(digest.last_event_id, Some(u64::MAX));
}

#[test]
fn eventful_poll_is_followed_at_combat_pace() {
    let config = DaemonConfig::default();
    for level in [PollActivity::Idle, PollActivity::Normal, PollActivity::Combat] {
        let mut state = ActivityState::default();
        state.level = level;
        let now = state.last_activity;
        assert_eq!(state.on_poll_after(true, 3_600_000, now, &config), config.poll_interval_combat);
        assert_eq!(state.level, PollActivity::Combat);
    }
}

#[test]
fn quiet_polls_cool_down_step_by_step() {
    let config = DaemonConfig::default();
    let mut state = ActivityState::default();
    state.level = PollActivity::Combat;
    let now = state.last_activity;
    assert_eq!(state.on_poll_after(false, 0, now, &config), 150);
    assert_eq!(state.on_poll_after(false, 4_999, now, &config), 150);
    assert_eq!(state.level, PollActivity::Combat);
    assert_eq!(state.on_poll_after(false, 5_000, now, &config), 750);
    assert_eq!(state.level, PollActivity::Normal);
    assert_eq!(state.on_poll_after(false, 20_000, now, &config), 1_500);
    assert_eq!(state.level, PollActivity::Idle);
    assert_eq!(state.on_poll_after(false, 0, now, &config), 1_500);
}

#[test]
fn combat_far_past_its_cooldown_falls_to_normal_first() {
    let config = DaemonConfig::default();
    let mut state = ActivityState::default();
    state.level = PollActivity::Combat;
    let now = state.last_activity;
    assert_eq!(state.on_poll_after(false, 60_000, now, &config), 750);
    assert_eq!(state.level, PollActivity::Normal);
    assert_eq!(state.on_poll_after(false, 60_000, now, &config), 1_500);
    assert_eq!(state.level, PollActivity::Idle);
}

fn at(ts: u64, name: &str) -> Event {
    Event::about_player(
        EventKind::Kill,
        ts,
        PlayerRef { summoner_name: name.to_string(), team: Team::Neutral, slot: 0 },
    )
}

fn names(events: &[Event]) -> Vec<String> {
    events
        .iter()
        .map(|event| match &event.payload {
            EventPayload::Player(player) => player.player.summoner_name.clone(),
            other => panic!("unexpected payload {other:?}"),
        })
        .collect()
}

#[test]
fn sorting_is_ascending_and_stable() {
    let sorted = sort_by_ts(vec![
        at(30, "a"),
        at(10, "b"),
        at(30, "c"),
        at(0, "d"),
        at(10, "e"),
        at(u64::MAX, "f"),
        at(0, "g"),
    ]);
    let stamps: Vec<u64> = sorted.iter().map(|event| event.ts).collect();
    assert_eq!(stamps, vec![0, 0, 10, 10, 30, 30, u64::MAX]);
    assert_eq!(names(&sorted), vec!["d", "g", "b", "e", "a", "c", "f"]);
    assert!(sort_by_ts(Vec::new()).is_empty());
}

#[test]
fn poll_batch_is_sorted_by_timestamp() {
    let mut context = PollContext::new(DaemonConfig::default());
    let first = context.poll_once(
        Some(1),
        Some(Fetched { hash: 10, parsed: Some(roster()) }),
        Some(Fetched { hash: 20, parsed: Some(Vec::new()) }),
        40_000,
    );
    assert!(first.events.is_empty());
    assert_eq!(first.next_delay, 1_500);

    let mut changed = roster();
    changed[0].level = 4;
    changed[0].current_gold = Some(1_000);
    let log = vec![
        kill(0, 61_000, "Alpha", "Bravo"),
        raw(1, "DragonKill", 12_000),
        raw(2, "Ace", 50_000),
    ];
    let second = context.poll_once(
        Some(1),
        Some(Fetched { hash: 11, parsed: Some(changed) }),
        Some(Fetched { hash: 21, parsed: Some(log) }),
        50_000,
    );
    let stamps: Vec<u64> = second.events.iter().map(|event| event.ts).collect();
    assert_eq!(stamps, vec![12_000, 50_000, 50_000, 50_000, 61_000, 61_000]);
    let kinds: Vec<EventKind> = second.events.iter().map(|event| event.kind).collect();
    assert_eq!(
        kinds,
        vec![
            EventKind::PhaseChange,
            EventKind::LevelUp,
            EventKind::GoldDelta,
            EventKind::PhaseChange,
            EventKind::Kill,
            EventKind::Death,
        ]
    );
    assert_eq!(second.next_delay, 150);
    assert_eq!(context.activity.level, PollActivity::Combat);
    assert_eq!(context.digest.last_event_id, Some(2));
    assert_eq!(context.digest.players_hash, Some(11));
    assert_eq!(context.digest.events_hash, Some(21));
}

fn matches_kind(event: &Event) -> bool {
    match (event.kind, &event.payload) {
        (
            EventKind::Kill | EventKind::Death | EventKind::Assist | EventKind::Respawn,
            EventPayload::Player(_),
        ) => true,
        (EventKind::LevelUp, EventPayload::PlayerLevel(_)) => true,
        (EventKind::ItemAdded | EventKind::ItemRemoved, EventPayload::PlayerItem(_)) => true,
        (EventKind::GoldDelta, EventPayload::PlayerGold(_)) => true,
        (EventKind::PhaseChange, EventPayload::Phase(_)) => true,
        (EventKind::Heartbeat, EventPayload::Heartbeat(_)) => true,
        _ => false,
    }
}

#[test]
fn emitted_events_carry_the_payload_of_their_kind() {
    let mut context = PollContext::new(DaemonConfig::default());
    context.poll_once(
        None,
        Some(Fetched { hash: 1, parsed: Some(roster()) }),
        Some(Fetched { hash: 2, parsed: Some(Vec::new()) }),
        10,
    );
    let mut changed = roster();
    changed[0].level = 18;
    changed[0].current_gold = None;
    changed[0].items.pop();
    changed[1].is_dead = true;
    changed[2].items.push(PlayerItemEntry { item_id: 3006, display_name: None });
    let log = vec![
        RawEvent { assisters: vec!["Charlie".to_string()], ..kill(0, 9_000, "Alpha", "Bravo") },
        RawEvent { summoner_name: Some("Bravo".to_string()), ..raw(1, "Respawn", 30_000) },
        raw(2, "FirstBlood", 9_000),
        raw(3, "LevelUp", 9_500),
    ];
    let outcome = context.poll_once(
        None,
        Some(Fetched { hash: 3, parsed: Some(changed) }),
        Some(Fetched { hash: 4, parsed: Some(log) }),
        20_000,
    );
    assert_eq!(outcome.events.len(), 9);
    assert!(outcome.events.iter().all(matches_kind));
    assert!(outcome.events.windows(2).all(|pair| pair[0].ts <= pair[1].ts));
}

#[test]
fn slots_are_distinct_while_both_sides_have_room() {
    let mut registry = PlayerRegistry::default();
    let names = ["a", "b", "c", "d", "e", "f", "g", "h", "i", "j"];
    let first: Vec<PlayerListEntry> = names
        .iter()
        .enumerate()
        .map(|(at, name)| entry(name, if at % 2 == 0 { "ORDER" } else { "CHAOS" }, 1, 0, &[]))
        .collect();
    registry.apply(first.clone(), 0);
    let mut slots: Vec<u8> = names.iter().map(|name| slot_of(&registry, name)).collect();
    assert_eq!(slots, vec![0, 5, 1, 6, 2, 7, 3, 8, 4, 9]);
    slots.sort();
    slots.dedup();
    assert_eq!(slots.len(), 10);

    let second: Vec<PlayerListEntry> = first.into_iter().rev().collect();
    registry.apply(second, 1);
    let again: Vec<u8> = names.iter().map(|name| slot_of(&registry, name)).collect();
    assert_eq!(again, vec![0, 5, 1, 6, 2, 7, 3, 8, 4, 9]);
}

#[test]
fn slot_of_a_dropped_player_is_free_for_a_newcomer() {
    let mut registry = PlayerRegistry::default();
    let five: Vec<PlayerListEntry> =
        ["a", "b", "c", "d", "e"].iter().map(|name| entry(name, "ORDER", 1, 0, &[])).collect();
    registry.apply(five, 0);
    assert_eq!(slot_of(&registry, "a"), 0);

    registry.apply(vec![entry("newcomer", "ORDER", 1, 0, &[]), entry("a", "ORDER", 1, 0, &[])], 1);
    assert_eq!(slot_of(&registry, "a"), 0);
    assert_eq!(slot_of(&registry, "newcomer"), 1);
    assert!(registry.player_ref("b").is_none());
}

#[test]
fn second_game_gives_every_player_a_slot_of_its_own() {
    let game = |prefix: &str| -> Vec<PlayerListEntry> {
        (0..10)
            .map(|at| {
                let team = if at < 5 { "ORDER" } else { "CHAOS" };
                entry(&format!("{prefix}{at}"), team, 1, 0, &[])
            })
            .collect()
    };
    let mut registry = PlayerRegistry::default();
    registry.apply(game("first"), 0);
    registry.apply(game("second"), 1);
    let slots: Vec<u8> = (0..10).map(|at| slot_of(&registry, &format!("second{at}"))).collect();
    assert_eq!(slots, vec![0, 1, 2, 3, 4, 5, 6, 7, 8, 9]);

    let mut mixed = game("third");
    mixed[0] = entry("second3", "ORDER", 2, 0, &[]);
    mixed[7] = entry("second8", "CHAOS", 2, 0, &[]);
    registry.apply(mixed, 2);
    let mut taken: Vec<u8> = ["second3", "third1", "third2", "third3", "third4"]
        .iter()
        .map(|name| slot_of(&registry, name))
        .collect();
    assert_eq!(slot_of(&registry, "second3"), 3);
    assert_eq!(slot_of(&registry, "second8"), 8);
    taken.sort();
    assert_eq!(taken, vec![0, 1, 2, 3, 4]);
    let mut chaos: Vec<u8> = ["third5", "third6", "second8", "third8", "third9"]
        .iter()
        .map(|name| slot_of(&registry, name))
        .collect();
    chaos.sort();
    assert_eq!(chaos, vec![5, 6, 7, 8, 9]);
}

#[test]
fn namesakes_that_agree_are_silent_when_repeated() {
    let list = vec![
        entry("Alpha", "ORDER", 3, 900, &[1055, 2003]),
        entry("Bravo", "CHAOS", 2, 450, &[]),
        entry("Alpha", "CHAOS", 3, 900, &[1055, 2003]),
        entry("Alpha", "ORDER", 3, 900, &[1055, 2003]),
    ];
    let mut registry = PlayerRegistry::default();
    assert!(registry.apply(list.clone(), 1).is_empty());
    for round in 2..5u64 {
        assert!(registry.apply(list.clone(), round).is_empty());
    }
}

#[test]
fn namesakes_that_differ_are_reported_each_time() {
    let list = vec![entry("Alpha", "ORDER", 3, 900, &[]), entry("Alpha", "ORDER", 3, 950, &[])];
    let mut registry = PlayerRegistry::default();
    assert!(registry.apply(list.clone(), 1).is_empty());
    for round in 2..5u64 {
        let events = registry.apply(list.clone(), round);
        assert_eq!(events.len(), 1);
        assert_eq!(events[0].kind, EventKind::GoldDelta);
        assert_eq!(events[0].ts, round);
    }
}
