use levents::digest::DigestState;
use levents::feed::{normalize_events, RawEvent};
use levents::governor::{ActivityState, PollActivity};
use levents::lockfile::parse_lockfile;
use levents::phase::parse_phase_message;
use levents::registry::PlayerRegistry;
use levents::roster::{PlayerItemEntry, PlayerListEntry};
use levents::{DaemonConfig, EventKind, EventPayload, LiveDaemon};
use std::time::Duration;

fn make_player_entry(
    name: &str,
    team: &str,
    level: u32,
    gold: i64,
    is_dead: bool,
    items: Vec<PlayerItemEntry>,
) -> PlayerListEntry {
    PlayerListEntry {
        summoner_name: name.to_string(),
        team: team.to_string(),
        level,
        current_gold: Some(gold),
        is_dead,
        items,
    }
}

fn make_item(id: u32, name: &str) -> PlayerItemEntry {
    PlayerItemEntry { item_id: id, display_name: Some(name.to_string()) }
}

#[test]
fn parse_lockfile_line() {
    let line = "LeagueClient:1234:5678:secret:https";
    let parsed = parse_lockfile("/tmp/lockfile", line).expect("lockfile");
    assert_eq!(parsed.port, 5678);
    assert_eq!(parsed.password, "secret");
    assert_eq!(parsed.protocol, "https");
}

#[test]
fn parse_phase_variants() {
    let variant_a = "[\"OnJsonApiEvent\",\"/lol-gameflow/v1/gameflow-phase\",\"Lobby\"]";
    assert_eq!(parse_phase_message(variant_a), Some("Lobby".to_string()));

    let variant_b = "[8,\"OnJsonApiEvent\",{\"uri\":\"/lol-gameflow/v1/gameflow-phase\",\"eventType\":\"Update\",\"data\":\"ChampSelect\"}]";
    assert_eq!(parse_phase_message(variant_b), Some("ChampSelect".to_string()));

    let variant_c = "[8,\"OnJsonApiEvent\",{\"uri\":\"/lol-gameflow/v1/gameflow-phase\",\"eventType\":\"Update\",\"data\":{\"phase\":\"ReadyCheck\"}}]";
    assert_eq!(parse_phase_message(variant_c), Some("ReadyCheck".to_string()));
}

#[test]
fn bootstrap_produces_heartbeat() {
    let mut daemon = LiveDaemon::new(DaemonConfig::default());
    let batch = daemon.try_bootstrap(10).expect("bootstrap");
    assert_eq!(batch.events.len(), 1);
    assert!(matches!(batch.events[0].payload, EventPayload::Heartbeat(_)));
}

#[test]
fn synthetic_kill_contains_summoner() {
    let daemon = LiveDaemon::new(DaemonConfig::default());
    let event = daemon.synthetic_kill("Example");
    if let EventPayload::Player(player) = event.payload {
        assert_eq!(player.player.summoner_name, "Example");
    } else {
        panic!("expected player payload");
    }
}

#[test]
fn registry_emits_level_gold_and_item_events() {
    let mut registry = PlayerRegistry::default();
    let baseline = vec![
        make_player_entry("Alpha", "ORDER", 1, 500, false, vec![]),
        make_player_entry("Bravo", "CHAOS", 1, 300, false, vec![]),
    ];

    assert!(registry.apply(baseline.clone(), 1_000).is_empty());

    let updated = vec![
        make_player_entry("Alpha", "ORDER", 2, 650, false, vec![make_item(1055, "Doran's Blade")]),
        make_player_entry("Bravo", "CHAOS", 1, 300, false, vec![]),
    ];

    let events = registry.apply(updated, 2_000);
    assert_eq!(events.len(), 3);
    assert!(events.iter().any(|event| matches!(event.kind, EventKind::LevelUp)));
    assert!(events.iter().any(|event| matches!(event.kind, EventKind::GoldDelta)));
    assert!(events.iter().any(|event| matches!(event.kind, EventKind::ItemAdded)));
}

#[test]
fn normalize_events_emits_combat_events() {
    let mut registry = PlayerRegistry::default();
    let baseline = vec![
        make_player_entry("Alpha", "ORDER", 1, 500, false, vec![]),
        make_player_entry("Bravo", "CHAOS", 1, 300, false, vec![]),
        make_player_entry("Charlie", "ORDER", 1, 200, false, vec![]),
    ];
    registry.apply(baseline, 1_000);

    let raw = RawEvent {
        event_id: 1,
        event_name: "ChampionKill".to_string(),
        event_time_ms: 12_500,
        in_opening: false,
        killer_name: Some("Alpha".to_string()),
        victim_name: Some("Bravo".to_string()),
        assisters: vec!["Charlie".to_string()],
        summoner_name: None,
        level: None,
        item_id: None,
        item_name: None,
    };

    let events = normalize_events(&vec![raw], &registry);
    assert_eq!(events.len(), 3);
    assert!(events.iter().any(|event| event.kind == EventKind::Kill));
    assert!(events.iter().any(|event| event.kind == EventKind::Death));
    assert!(events.iter().any(|event| event.kind == EventKind::Assist));
}

#[test]
fn activity_state_scales_intervals() {
    let config = DaemonConfig::default();
    let mut state = ActivityState::default();

    let combat = state.on_poll(true, &config);
    assert_eq!(combat, config.poll_interval_combat);

    state.last_activity =
        state.last_activity.checked_sub(Duration::from_millis(config.combat_cooldown)).unwrap();
    let normal = state.on_poll(false, &config);
    assert_eq!(normal, config.poll_interval_normal);

    state.last_activity =
        state.last_activity.checked_sub(Duration::from_millis(config.idle_cooldown)).unwrap();
    let idle = state.on_poll(false, &config);
    assert_eq!(idle, config.poll_interval_idle);

    let backoff = state.on_error(&config);
    assert_eq!(backoff, config.error_backoff);
}

#[test]
fn governor_cadence_with_defaults() {
    let config = DaemonConfig::default();
    let mut state = ActivityState::default();
    assert_eq!(state.level, PollActivity::Idle);
    assert_eq!(state.on_poll(true, &config), 150);
    assert_eq!(state.level, PollActivity::Combat);
    let now = state.last_activity;
    assert_eq!(state.on_poll_after(false, 4_999, now, &config), 150);
    assert_eq!(state.on_poll_after(false, 5_000, now, &config), 750);
    assert_eq!(state.on_poll_after(false, 19_999, now, &config), 750);
    assert_eq!(state.on_poll_after(false, 20_000, now, &config), 1_500);
    assert_eq!(state.on_poll_after(false, 1_000_000, now, &config), 1_500);
    assert_eq!(state.on_error(&config), 1_000);
    assert_eq!(state.level, PollActivity::Idle);
}

#[test]
fn next_event_id_follows_the_highwater_mark() {
    let mut digest = DigestState::default();
    assert_eq!(digest.next_event_id(), 0);
    digest.last_event_id = Some(41);
    assert_eq!(digest.next_event_id(), 42);
}
