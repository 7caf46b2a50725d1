use levents::clock::{millis_to_u64, timestamp_ms, timestamp_of};
use levents::feed::RawEvent;
use levents::governor::{ActivityState, PollActivity};
use levents::poller::{
    check_status, live_endpoints, FetchResponse, Fetched, HttpStatusError, PollContext,
    PollOutcome,
};
use levents::roster::PlayerListEntry;
use levents::wire::{
    allowed_kinds, control, convert_event, convert_player_ref, convert_with, deliver,
    emit_synthetic_kill, map_ability, map_event_kind, map_team, synthetic_kill, BusItem,
    ControlCommand, ControlError, ConvertError, Delivery, StreamItem, WireAbilitySlot, WireEvent,
    WireEventKind, WirePayload, WirePlayerRef, WireTeam,
};
use levents::{
    AbilitySlot, DaemonConfig, Event, EventKind, EventPayload, GoldEvent, HeartbeatEvent,
    ItemEvent, LevelEvent, LiveDaemon, PhaseEvent, PlayerRef, Team,
};
use std::collections::HashMap;

const KINDS: [(EventKind, WireEventKind, i32); 11] = [
    (EventKind::Kill, WireEventKind::Kill, 1),
    (EventKind::Death, WireEventKind::Death, 2),
    (EventKind::Assist, WireEventKind::Assist, 3),
    (EventKind::LevelUp, WireEventKind::LevelUp, 4),
    (EventKind::SkillLevelUp, WireEventKind::SkillLevelUp, 5),
    (EventKind::ItemAdded, WireEventKind::ItemAdded, 6),
    (EventKind::ItemRemoved, WireEventKind::ItemRemoved, 7),
    (EventKind::GoldDelta, WireEventKind::GoldDelta, 8),
    (EventKind::Respawn, WireEventKind::Respawn, 9),
    (EventKind::PhaseChange, WireEventKind::PhaseChange, 10),
    (EventKind::Heartbeat, WireEventKind::Heartbeat, 11),
];

#[test]
fn kinds_and_teams_map_one_to_one() {
    for (kind, wire, tag) in KINDS {
        assert_eq!(map_event_kind(&kind), wire);
        assert_eq!(wire.tag(), tag);
        assert_eq!(WireEventKind::from_i32(tag), Some(wire));
    }
    assert_eq!(WireEventKind::Unspecified.tag(), 0);
    assert_eq!(WireEventKind::from_i32(0), Some(WireEventKind::Unspecified));
    for tag in [-1, 12, 100, i32::MIN, i32::MAX] {
        assert_eq!(WireEventKind::from_i32(tag), None);
    }
    assert_eq!(map_team(Team::Order), WireTeam::Order);
    assert_eq!(map_team(Team::Chaos), WireTeam::Chaos);
    assert_eq!(map_team(Team::Neutral), WireTeam::Neutral);
    assert_eq!(WireTeam::Unspecified.tag(), 0);
    assert_eq!(WireTeam::Order.tag(), 1);
    assert_eq!(WireTeam::Chaos.tag(), 2);
    assert_eq!(WireTeam::Neutral.tag(), 3);
    let keys = [
        (AbilitySlot::Q, WireAbilitySlot::Q, 1),
        (AbilitySlot::W, WireAbilitySlot::W, 2),
        (AbilitySlot::E, WireAbilitySlot::E, 3),
        (AbilitySlot::R, WireAbilitySlot::R, 4),
    ];
    for (key, wire, tag) in keys {
        assert_eq!(map_ability(key), wire);
        assert_eq!(wire.tag(), tag);
    }
    assert_eq!(WireAbilitySlot::Unspecified.tag(), 0);
}

fn who() -> PlayerRef {
    PlayerRef { summoner_name: "Alpha".to_string(), team: Team::Chaos, slot: 7 }
}

fn wire_who() -> WirePlayerRef {
    WirePlayerRef { summoner_name: "Alpha".to_string(), team: 2, slot: 7 }
}

#[test]
fn events_convert_to_their_wire_form() {
    assert_eq!(convert_player_ref(who()), wire_who());
    let cases = vec![
        (
            Event::about_player(EventKind::Assist, 5, who()),
            WireEvent { kind: 3, ts: 5, payload: Some(WirePayload::Player { player: wire_who() }) },
        ),
        (
            Event {
                kind: EventKind::ItemRemoved,
                ts: u64::MAX,
                payload: EventPayload::PlayerItem(ItemEvent {
                    player: who(),
                    item_id: 3006,
                    item_name: Some("Greaves".to_string()),
                }),
            },
            WireEvent {
                kind: 7,
                ts: u64::MAX,
                payload: Some(WirePayload::PlayerItem {
                    player: wire_who(),
                    item_id: 3006,
                    item_name: Some("Greaves".to_string()),
                }),
            },
        ),
        (
            Event {
                kind: EventKind::LevelUp,
                ts: 1,
                payload: EventPayload::PlayerLevel(LevelEvent { player: who(), level: 255 }),
            },
            WireEvent {
                kind: 4,
                ts: 1,
                payload: Some(WirePayload::PlayerLevel { player: wire_who(), level: 255 }),
            },
        ),
        (
            Event {
                kind: EventKind::GoldDelta,
                ts: 2,
                payload: EventPayload::PlayerGold(GoldEvent {
                    player: who(),
                    delta: i32::MIN,
                    total: -1,
                }),
            },
            WireEvent {
                kind: 8,
                ts: 2,
                payload: Some(WirePayload::PlayerGold {
                    player: wire_who(),
                    delta: i32::MIN,
                    total: -1,
                }),
            },
        ),
        (
            Event::phase_change(3, "Lobby".to_string()),
            WireEvent {
                kind: 10,
                ts: 3,
                payload: Some(WirePayload::Phase { phase: "Lobby".to_string() }),
            },
        ),
        (
            Event {
                kind: EventKind::Heartbeat,
                ts: 4,
                payload: EventPayload::Heartbeat(HeartbeatEvent { seq: 9 }),
            },
            WireEvent { kind: 11, ts: 4, payload: Some(WirePayload::Heartbeat { seq: 9 }) },
        ),
        (
            Event {
                kind: EventKind::SkillLevelUp,
                ts: 6,
                payload: EventPayload::Phase(PhaseEvent { phase: String::new() }),
            },
            WireEvent { kind: 5, ts: 6, payload: Some(WirePayload::Phase { phase: String::new() }) },
        ),
    ];
    for (event, wire) in cases {
        assert_eq!(convert_event(event.clone()), Ok(wire.clone()));
        assert_eq!(convert_with(event.clone(), None), Ok(wire.clone()));
        assert_eq!(convert_with(event, Some("ignored".to_string())), Ok(wire));
    }
}

fn custom() -> Event {
    let mut fields = HashMap::new();
    fields.insert("answer".to_string(), serde_json::Value::from(42));
    Event { kind: EventKind::Kill, ts: 8, payload: EventPayload::Custom(fields) }
}

#[test]
fn custom_payload_goes_over_the_wire_as_json_text() {
    assert_eq!(
        convert_event(custom()),
        Ok(WireEvent {
            kind: 1,
            ts: 8,
            payload: Some(WirePayload::Custom { json: "{\"answer\":42}".to_string() }),
        })
    );
    assert_eq!(
        convert_with(custom(), Some("{}".to_string())),
        Ok(WireEvent { kind: 1, ts: 8, payload: Some(WirePayload::Custom { json: "{}".to_string() }) })
    );
    assert_eq!(convert_with(custom(), None), Err(ConvertError::Unserializable));
}

#[test]
fn filter_names_the_kinds_that_pass() {
    assert!(allowed_kinds(&Vec::new()).is_none());
    assert!(allowed_kinds(&vec![0]).is_none());
    assert!(allowed_kinds(&vec![0, -3, 12, 0, 9_999]).is_none());

    let filter = allowed_kinds(&vec![4, 0, 1, 4, 77, 1, 11]).expect("a filter");
    for (_, wire, tag) in KINDS {
        assert_eq!(filter.contains(wire), [1, 4, 11].contains(&tag), "{wire:?}");
    }
    assert!(!filter.contains(WireEventKind::Unspecified));
}

#[test]
fn delivery_follows_the_filter() {
    let kills = allowed_kinds(&vec![1]);
    let kill = synthetic_kill("Alpha");
    let wire = convert_event(kill.clone()).expect("converts");

    assert!(matches!(deliver(&kills, BusItem::Event(kill.clone())), Delivery::Send(sent) if sent == wire));
    assert!(matches!(deliver(&None, BusItem::Event(kill.clone())), Delivery::Send(sent) if sent == wire));
    let others = allowed_kinds(&vec![2, 3]);
    assert!(matches!(deliver(&others, BusItem::Event(kill)), Delivery::Skip));
    assert!(matches!(deliver(&others, BusItem::Event(custom())), Delivery::Skip));
    assert!(matches!(deliver(&kills, BusItem::Event(custom())), Delivery::Send(_)));
    assert!(matches!(deliver(&kills, BusItem::Lagged(17)), Delivery::Lag(17)));
    assert!(matches!(deliver(&None, BusItem::Lagged(0)), Delivery::Lag(0)));
}

#[test]
fn events_and_lag_notices_reach_the_subscriber() {
    let kill = synthetic_kill("Alpha");
    let wire = convert_event(kill.clone()).expect("converts");
    let only_deaths = allowed_kinds(&vec![2]);
    assert_eq!(
        deliver(&None, BusItem::Event(kill.clone())).into_stream_item(),
        Some(StreamItem::Event(wire))
    );
    assert_eq!(deliver(&only_deaths, BusItem::Event(kill)).into_stream_item(), None);
    assert_eq!(
        deliver(&only_deaths, BusItem::Lagged(17)).into_stream_item(),
        Some(StreamItem::Lagged(17))
    );
    assert_eq!(Delivery::Unconverted.into_stream_item(), None);
    assert_eq!(Delivery::Skip.into_stream_item(), None);
}

#[test]
fn failed_poll_restarts_the_measure_of_idle_time() {
    let config = DaemonConfig::default();
    let mut state = ActivityState::default();
    state.level = PollActivity::Combat;
    let earlier = state.last_activity;
    let now = earlier + std::time::Duration::from_secs(3);
    assert_eq!(state.on_error_at(now, &config), 1_000);
    assert_eq!(state.level, PollActivity::Idle);
    assert_eq!(state.last_activity, now);
    assert_eq!(state.on_error(&config), config.error_backoff);
    assert_eq!(state.level, PollActivity::Idle);
}

#[test]
fn synthetic_kill_is_by_an_order_player_in_slot_zero() {
    let expected = Event::about_player(
        EventKind::Kill,
        0,
        PlayerRef { summoner_name: "Example".to_string(), team: Team::Order, slot: 0 },
    );
    assert_eq!(synthetic_kill("Example"), expected);
    assert_eq!(LiveDaemon::new(DaemonConfig::default()).synthetic_kill("Example"), expected);
}

#[test]
fn control_refuses_the_empty_name_and_missing_commands() {
    let (event, response) = emit_synthetic_kill(" Example ").expect("accepted");
    assert_eq!(event, synthetic_kill(" Example "));
    assert!(response.accepted);
    assert_eq!(response.message, "synthetic kill issued for  Example ");

    assert_eq!(emit_synthetic_kill("").err(), Some(ControlError::InvalidArgument));
    let command = ControlCommand::EmitSyntheticKill { summoner_name: String::new() };
    assert_eq!(control(Some(command)).err(), Some(ControlError::InvalidArgument));
    for blank in [" ", "\t\n", "\u{a0}\u{2003}"] {
        let (event, response) = emit_synthetic_kill(blank).expect("accepted");
        assert_eq!(event, synthetic_kill(blank));
        assert_eq!(response.message, format!("synthetic kill issued for {blank}"));
        let command = ControlCommand::EmitSyntheticKill { summoner_name: blank.to_string() };
        assert_eq!(control(Some(command)).map(|(event, _)| event), Ok(synthetic_kill(blank)));
    }
    assert_eq!(control(None).err(), Some(ControlError::MissingCommand));

    let command = ControlCommand::EmitSyntheticKill { summoner_name: "Zed".to_string() };
    let (event, response) = control(Some(command)).expect("accepted");
    assert_eq!(event, synthetic_kill("Zed"));
    assert_eq!(response.message, "synthetic kill issued for Zed");
}

#[test]
fn bootstrap_counts_heartbeats() {
    let mut daemon = LiveDaemon::new(DaemonConfig::default());
    assert_eq!(daemon.seq, 0);
    assert_eq!(daemon.metadata_url(), "https://127.0.0.1:2999/liveclientdata/activeplayer");
    for seq in 1..=3u64 {
        let batch = daemon.bootstrap(seq * 10);
        assert_eq!(
            batch.events,
            vec![Event {
                kind: EventKind::Heartbeat,
                ts: seq * 10,
                payload: EventPayload::Heartbeat(HeartbeatEvent { seq }),
            }]
        );
    }
    daemon.seq = u64::MAX;
    assert!(daemon.try_bootstrap(1).is_none());
    assert_eq!(daemon.seq, u64::MAX);
}

#[test]
fn defaults_are_as_documented() {
    let config = DaemonConfig::default();
    assert_eq!(config.live_base_url, "https://127.0.0.1:2999");
    assert_eq!(config.poll_interval_combat, 150);
    assert_eq!(config.poll_interval_normal, 750);
    assert_eq!(config.poll_interval_idle, 1_500);
    assert_eq!(config.combat_cooldown, 5_000);
    assert_eq!(config.idle_cooldown, 20_000);
    assert_eq!(config.error_backoff, 1_000);
    assert_eq!(config.lcu_lockfile, None);
}

#[test]
fn timestamps_are_cut_or_clamped_to_64_bits() {
    assert_eq!(timestamp_of(None), 0);
    assert_eq!(timestamp_of(Some(0)), 0);
    assert_eq!(timestamp_of(Some(1_700_000_000_123)), 1_700_000_000_123);
    assert_eq!(timestamp_of(Some(u64::MAX as u128)), u64::MAX);
    assert_eq!(timestamp_of(Some(u64::MAX as u128 + 1)), 0);
    assert_eq!(timestamp_of(Some(u128::MAX)), u64::MAX);
    assert_eq!(millis_to_u64(0), 0);
    assert_eq!(millis_to_u64(u64::MAX as u128), u64::MAX);
    assert_eq!(millis_to_u64(u64::MAX as u128 + 1), u64::MAX);
    assert_eq!(millis_to_u64(u128::MAX), u64::MAX);
    assert!(timestamp_ms() > 1_600_000_000_000);
}

#[test]
fn response_body_is_hashed_with_xxh3() {
    for body in [&b""[..], b"a", b"[]", b"{\"events\":[]}", &[0u8; 300][..]] {
        let response = FetchResponse::new(body.to_vec());
        assert_eq!(response.body, body);
        assert_eq!(response.hash, xxhash_rust::xxh3::xxh3_64(body));
    }
    assert_ne!(FetchResponse::new(b"a".to_vec()).hash, FetchResponse::new(b"b".to_vec()).hash);
}

#[test]
fn endpoints_hang_below_the_base_url() {
    for base in ["https://127.0.0.1:2999", "https://127.0.0.1:2999/", "https://127.0.0.1:2999///"] {
        let urls = live_endpoints(base);
        assert_eq!(urls.active_player, "https://127.0.0.1:2999/liveclientdata/activeplayer");
        assert_eq!(urls.player_list, "https://127.0.0.1:2999/liveclientdata/playerlist");
        assert_eq!(urls.event_data, "https://127.0.0.1:2999/liveclientdata/eventdata");
    }
    assert_eq!(live_endpoints("").event_data, "/liveclientdata/eventdata");
    assert_eq!(live_endpoints("//").player_list, "/liveclientdata/playerlist");
    let context = PollContext::new(DaemonConfig::default());
    assert_eq!(context.endpoints().active_player, "https://127.0.0.1:2999/liveclientdata/activeplayer");
}

fn entry(name: &str, level: u32) -> PlayerListEntry {
    PlayerListEntry {
        summoner_name: name.to_string(),
        team: "ORDER".to_string(),
        level,
        current_gold: Some(0),
        is_dead: false,
        items: Vec::new(),
    }
}

fn phase(id: u64, name: &str, time_ms: u64) -> RawEvent {
    RawEvent {
        event_id: id,
        event_name: name.to_string(),
        event_time_ms: time_ms,
        in_opening: time_ms < 5_000,
        killer_name: None,
        victim_name: None,
        assisters: Vec::new(),
        summoner_name: None,
        level: None,
        item_id: None,
        item_name: None,
    }
}

fn list(hash: u64, level: u32) -> Option<Fetched<Vec<PlayerListEntry>>> {
    Some(Fetched { hash, parsed: Some(vec![entry("Alpha", level)]) })
}

fn log(hash: u64, upto: u64) -> Option<Fetched<Vec<RawEvent>>> {
    Some(Fetched { hash, parsed: Some((0..upto).map(|id| phase(id, "Ace", 10_000 + id)).collect()) })
}

fn primed() -> PollContext {
    let mut context = PollContext::new(DaemonConfig::default());
    let outcome = context.poll_once(Some(7), list(100, 1), log(200, 2), 50);
    assert_eq!(outcome.events.len(), 2);
    assert_eq!(outcome.next_delay, 150);
    assert_eq!(context.activity.level, PollActivity::Combat);
    context
}

fn failed(context: &PollContext, outcome: &PollOutcome) {
    assert!(outcome.events.is_empty());
    assert_eq!(outcome.next_delay, 1_000);
    assert_eq!(context.activity.level, PollActivity::Idle);
}

#[test]
fn unchanged_answers_are_not_read_again() {
    let mut context = primed();
    assert!(!context.players_changed(100));
    assert!(context.players_changed(101));
    assert!(!context.events_changed(200));
    assert!(context.events_changed(0));

    let outcome = context.poll_once(
        None,
        Some(Fetched { hash: 100, parsed: None }),
        Some(Fetched { hash: 200, parsed: None }),
        60,
    );
    assert!(outcome.events.is_empty());
    assert_eq!(outcome.next_delay, 150);
    assert_eq!(context.digest.active_hash, Some(7));
    assert_eq!(context.digest.last_event_id, Some(1));

    let outcome = context.poll_once(Some(8), list(100, 9), log(200, 9), 70);
    assert!(outcome.events.is_empty());
    assert_eq!(context.digest.active_hash, Some(8));
    assert_eq!(context.digest.last_event_id, Some(1));
}

#[test]
fn failed_fetch_backs_off_and_changes_nothing() {
    let mut context = primed();
    let outcome = context.poll_once(Some(9), None, log(201, 5), 60);
    failed(&context, &outcome);
    assert_eq!(context.digest.active_hash, Some(9));
    assert_eq!(context.digest.events_hash, Some(200));
    assert_eq!(context.digest.last_event_id, Some(1));

    let mut context = primed();
    let outcome = context.poll_once(None, list(101, 2), None, 60);
    failed(&context, &outcome);
    assert_eq!(context.digest.players_hash, Some(100));
    let outcome = context.poll_once(None, list(101, 2), log(200, 2), 70);
    assert_eq!(outcome.events.len(), 1);
    assert_eq!(outcome.events[0].kind, EventKind::LevelUp);
    assert_eq!(outcome.events[0].ts, 70);
}

#[test]
fn malformed_body_backs_off() {
    let mut context = primed();
    let outcome = context.poll_once(None, Some(Fetched { hash: 101, parsed: None }), log(201, 5), 60);
    failed(&context, &outcome);
    assert_eq!(context.digest.players_hash, Some(100));
    assert_eq!(context.digest.events_hash, Some(200));
    assert_eq!(context.digest.last_event_id, Some(1));

    let mut context = primed();
    let outcome = context.poll_once(None, list(101, 2), Some(Fetched { hash: 201, parsed: None }), 60);
    failed(&context, &outcome);
    assert_eq!(context.digest.players_hash, Some(101));
    assert_eq!(context.digest.events_hash, Some(200));
    let outcome = context.poll_once(None, list(101, 2), log(201, 3), 70);
    assert_eq!(outcome.events.len(), 1);
    assert_eq!(outcome.events[0], Event::phase_change(10_002, "Ace".to_string()));
    assert_eq!(context.digest.last_event_id, Some(2));
}

#[test]
fn idle_outcome_is_empty() {
    let outcome = PollOutcome::idle(1_234);
    assert!(outcome.events.is_empty());
    assert_eq!(outcome.next_delay, 1_234);
    assert!(outcome.into_batch().is_none());
}

#[test]
fn only_a_batch_with_events_is_published() {
    let events = vec![synthetic_kill("a"), synthetic_kill("b")];
    let outcome = PollOutcome { events: events.clone(), next_delay: 150 };
    assert_eq!(outcome.into_batch().map(|batch| batch.events), Some(events));
    assert!(PollOutcome { events: Vec::new(), next_delay: 150 }.into_batch().is_none());
}

#[test]
fn status_outside_the_two_hundreds_is_refused() {
    for status in [200u16, 201, 204, 299] {
        assert_eq!(check_status("https://127.0.0.1:2999/x", status), Ok(()));
    }
    for status in [0u16, 100, 199, 300, 301, 404, 500, 503, u16::MAX] {
        assert_eq!(
            check_status("https://127.0.0.1:2999/x", status),
            Err(HttpStatusError { url: "https://127.0.0.1:2999/x".to_string(), status })
        );
    }
}
