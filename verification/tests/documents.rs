use levents::codec::{
    decode_event, decode_payload, decode_player_ref, encode_event, encode_payload,
    encode_player_ref, kind_tag, parse_event, parse_kind, parse_team_tag, payload_tag, team_tag,
};
use levents::{
    Event, EventKind, EventPayload, GoldEvent, HeartbeatEvent, ItemEvent, LevelEvent, PhaseEvent,
    PlayerEvent, PlayerRef, Team,
};
use serde_json::Value;
use std::collections::HashMap;

fn who() -> PlayerRef {
    PlayerRef { summoner_name: "Example".to_string(), team: Team::Order, slot: 0 }
}

fn text_of(event: &Event) -> String {
    serde_json::to_string(&encode_event(event)).expect("serialize")
}

fn read(text: &str) -> Value {
    serde_json::from_str(text).expect("a JSON document")
}

fn custom(pairs: &[(&str, &str)]) -> EventPayload {
    let fields: HashMap<String, Value> =
        pairs.iter().map(|(key, value)| (key.to_string(), read(value))).collect();
    EventPayload::Custom(fields)
}

fn samples() -> Vec<Event> {
    let far = PlayerRef { summoner_name: "\u{d55c}\"\\\n ".to_string(), team: Team::Neutral, slot: 255 };
    vec![
        Event::about_player(EventKind::Kill, 1234, who()),
        Event::about_player(EventKind::Death, 0, far.clone()),
        Event::about_player(EventKind::Assist, u64::MAX, who()),
        Event::about_player(EventKind::Respawn, 7, PlayerRef { team: Team::Chaos, slot: 9, ..who() }),
        Event {
            kind: EventKind::ItemAdded,
            ts: 1,
            payload: EventPayload::PlayerItem(ItemEvent {
                player: who(),
                item_id: u32::MAX,
                item_name: Some("Doran's Blade".to_string()),
            }),
        },
        Event {
            kind: EventKind::ItemRemoved,
            ts: 2,
            payload: EventPayload::PlayerItem(ItemEvent { player: far.clone(), item_id: 0, item_name: None }),
        },
        Event {
            kind: EventKind::LevelUp,
            ts: 3,
            payload: EventPayload::PlayerLevel(LevelEvent { player: who(), level: 255 }),
        },
        Event {
            kind: EventKind::SkillLevelUp,
            ts: 3,
            payload: EventPayload::PlayerLevel(LevelEvent { player: who(), level: 0 }),
        },
        Event {
            kind: EventKind::GoldDelta,
            ts: 4,
            payload: EventPayload::PlayerGold(GoldEvent {
                player: who(),
                delta: i32::MIN,
                total: i32::MAX,
            }),
        },
        Event {
            kind: EventKind::GoldDelta,
            ts: 4,
            payload: EventPayload::PlayerGold(GoldEvent { player: far, delta: 150, total: -1 }),
        },
        Event::phase_change(5, "ChampSelect".to_string()),
        Event::phase_change(5, String::new()),
        Event {
            kind: EventKind::Heartbeat,
            ts: 6,
            payload: EventPayload::Heartbeat(HeartbeatEvent { seq: u64::MAX }),
        },
        Event { kind: EventKind::Heartbeat, ts: 6, payload: custom(&[]) },
        Event {
            kind: EventKind::Kill,
            ts: 8,
            payload: custom(&[
                ("answer", "42"),
                ("nested", "{\"list\":[1,\"two\",null,true],\"deep\":{\"x\":-3}}"),
                ("kind", "\"Death\""),
            ]),
        },
    ]
}

#[test]
fn serializes_event() {
    let event = Event {
        kind: EventKind::Kill,
        ts: 1234,
        payload: EventPayload::Player(PlayerEvent {
            player: PlayerRef { summoner_name: "Example".into(), team: Team::Order, slot: 0 },
        }),
    };

    let json = serde_json::to_string(&encode_event(&event)).expect("serialize");
    assert!(json.contains("\"kind\":\"Kill\""));
    let back: Event = parse_event(&json).expect("deserialize");
    assert_eq!(back.kind, EventKind::Kill);
}

#[test]
fn every_event_survives_the_round_trip() {
    for event in samples() {
        let document = encode_event(&event);
        assert_eq!(decode_event(&document), Some(event.clone()), "{event:?}");
        let text = text_of(&event);
        assert_eq!(parse_event(&text), Some(event.clone()), "{text}");
        assert_eq!(decode_event(&read(&text)), Some(event), "{text}");
    }
}

#[test]
fn events_are_written_with_their_four_members() {
    assert_eq!(
        encode_event(&Event::about_player(EventKind::Kill, 1234, who())),
        read(
            "{\"kind\":\"Kill\",\"ts\":1234,\"payloadKind\":\"player\",\
             \"data\":{\"player\":{\"summoner_name\":\"Example\",\"team\":\"order\",\"slot\":0}}}"
        )
    );
    let item = Event {
        kind: EventKind::ItemAdded,
        ts: 2_000,
        payload: EventPayload::PlayerItem(ItemEvent {
            player: PlayerRef { summoner_name: "Alpha".to_string(), team: Team::Chaos, slot: 5 },
            item_id: 1055,
            item_name: None,
        }),
    };
    assert_eq!(
        encode_event(&item),
        read(
            "{\"kind\":\"ItemAdded\",\"ts\":2000,\"payloadKind\":\"playerItem\",\
             \"data\":{\"player\":{\"summoner_name\":\"Alpha\",\"team\":\"chaos\",\"slot\":5},\
             \"item_id\":1055,\"item_name\":null}}"
        )
    );
    let gold = Event {
        kind: EventKind::GoldDelta,
        ts: 3,
        payload: EventPayload::PlayerGold(GoldEvent {
            player: PlayerRef { summoner_name: String::new(), team: Team::Neutral, slot: 9 },
            delta: -150,
            total: 650,
        }),
    };
    assert_eq!(
        encode_event(&gold),
        read(
            "{\"kind\":\"GoldDelta\",\"ts\":3,\"payloadKind\":\"playerGold\",\
             \"data\":{\"player\":{\"summoner_name\":\"\",\"team\":\"neutral\",\"slot\":9},\
             \"delta\":-150,\"total\":650}}"
        )
    );
    assert_eq!(
        encode_event(&Event::phase_change(9, "Lobby".to_string())),
        read("{\"kind\":\"PhaseChange\",\"ts\":9,\"payloadKind\":\"phase\",\"data\":{\"phase\":\"Lobby\"}}")
    );
    let beat = Event {
        kind: EventKind::Heartbeat,
        ts: 10,
        payload: EventPayload::Heartbeat(HeartbeatEvent { seq: 1 }),
    };
    assert_eq!(
        encode_event(&beat),
        read("{\"kind\":\"Heartbeat\",\"ts\":10,\"payloadKind\":\"heartbeat\",\"data\":{\"seq\":1}}")
    );
    let level = Event {
        kind: EventKind::LevelUp,
        ts: 11,
        payload: EventPayload::PlayerLevel(LevelEvent { player: who(), level: 18 }),
    };
    assert_eq!(
        encode_event(&level),
        read(
            "{\"kind\":\"LevelUp\",\"ts\":11,\"payloadKind\":\"playerLevel\",\
             \"data\":{\"player\":{\"summoner_name\":\"Example\",\"team\":\"order\",\"slot\":0},\
             \"level\":18}}"
        )
    );
    let free = Event { kind: EventKind::Kill, ts: 12, payload: custom(&[("a", "[1]"), ("b", "null")]) };
    assert_eq!(
        encode_event(&free),
        read("{\"kind\":\"Kill\",\"ts\":12,\"payloadKind\":\"custom\",\"data\":{\"a\":[1],\"b\":null}}")
    );
}

#[test]
fn names_of_kinds_teams_and_variants() {
    let kinds = [
        (EventKind::Kill, "Kill"),
        (EventKind::Death, "Death"),
        (EventKind::Assist, "Assist"),
        (EventKind::LevelUp, "LevelUp"),
        (EventKind::SkillLevelUp, "SkillLevelUp"),
        (EventKind::ItemAdded, "ItemAdded"),
        (EventKind::ItemRemoved, "ItemRemoved"),
        (EventKind::GoldDelta, "GoldDelta"),
        (EventKind::Respawn, "Respawn"),
        (EventKind::PhaseChange, "PhaseChange"),
        (EventKind::Heartbeat, "Heartbeat"),
    ];
    for (kind, name) in kinds {
        assert_eq!(kind_tag(kind), name);
        assert_eq!(parse_kind(name), Some(kind));
        assert_eq!(parse_kind(&name.to_lowercase()), None);
    }
    for (team, name) in [(Team::Order, "order"), (Team::Chaos, "chaos"), (Team::Neutral, "neutral")] {
        assert_eq!(team_tag(team), name);
        assert_eq!(parse_team_tag(name), Some(team));
        assert_eq!(parse_team_tag(&name.to_uppercase()), None);
    }
    assert_eq!(parse_kind(""), None);
    assert_eq!(parse_team_tag(""), None);
    let names: Vec<&str> = samples().iter().map(|event| payload_tag(&event.payload)).collect();
    assert_eq!(
        names,
        vec![
            "player", "player", "player", "player", "playerItem", "playerItem", "playerLevel",
            "playerLevel", "playerGold", "playerGold", "phase", "phase", "heartbeat", "custom",
            "custom",
        ]
    );
}

#[test]
fn player_reference_is_read_strictly() {
    assert_eq!(encode_player_ref(&who()), read("{\"summoner_name\":\"Example\",\"team\":\"order\",\"slot\":0}"));
    let decode = |text: &str| decode_player_ref(&read(text));
    assert_eq!(decode("{\"summoner_name\":\"Example\",\"team\":\"order\",\"slot\":0}"), Some(who()));
    assert_eq!(
        decode("{\"slot\":255,\"extra\":[],\"team\":\"chaos\",\"summoner_name\":\"\"}"),
        Some(PlayerRef { summoner_name: String::new(), team: Team::Chaos, slot: 255 })
    );
    for bad in [
        "{\"summoner_name\":\"Example\",\"team\":\"order\",\"slot\":256}",
        "{\"summoner_name\":\"Example\",\"team\":\"order\",\"slot\":-1}",
        "{\"summoner_name\":\"Example\",\"team\":\"order\",\"slot\":1.0}",
        "{\"summoner_name\":\"Example\",\"team\":\"order\",\"slot\":\"1\"}",
        "{\"summoner_name\":\"Example\",\"team\":\"order\"}",
        "{\"summoner_name\":\"Example\",\"team\":\"ORDER\",\"slot\":1}",
        "{\"summoner_name\":\"Example\",\"team\":0,\"slot\":1}",
        "{\"summoner_name\":\"Example\",\"slot\":1}",
        "{\"summoner_name\":null,\"team\":\"order\",\"slot\":1}",
        "{\"team\":\"order\",\"slot\":1}",
        "{\"summonerName\":\"Example\",\"team\":\"order\",\"slot\":1}",
        "[\"Example\",\"order\",1]",
        "\"Example\"",
        "null",
    ] {
        assert_eq!(decode(bad), None, "{bad}");
    }
}

#[test]
fn payload_bodies_are_read_by_their_variant() {
    let player = "{\"summoner_name\":\"Example\",\"team\":\"order\",\"slot\":0}";
    let decode = |name: &str, body: String| decode_payload(name, &read(&body));
    let item = |id: u32, name: Option<&str>| {
        Some(EventPayload::PlayerItem(ItemEvent {
            player: who(),
            item_id: id,
            item_name: name.map(str::to_string),
        }))
    };

    assert_eq!(
        decode("player", format!("{{\"player\":{player}}}")),
        Some(EventPayload::Player(PlayerEvent { player: who() }))
    );
    assert_eq!(decode("playerItem", format!("{{\"player\":{player},\"item_id\":7}}")), item(7, None));
    assert_eq!(
        decode("playerItem", format!("{{\"player\":{player},\"item_id\":7,\"item_name\":null}}")),
        item(7, None)
    );
    assert_eq!(
        decode("playerItem", format!("{{\"player\":{player},\"item_id\":4294967295,\"item_name\":\"\"}}")),
        item(u32::MAX, Some(""))
    );
    assert_eq!(
        decode("heartbeat", "{\"seq\":18446744073709551615}".to_string()),
        Some(EventPayload::Heartbeat(HeartbeatEvent { seq: u64::MAX }))
    );
    assert_eq!(
        decode("phase", "{\"phase\":\"Lobby\",\"gameflowPhase\":\"x\"}".to_string()),
        Some(EventPayload::Phase(PhaseEvent { phase: "Lobby".to_string() }))
    );
    assert_eq!(decode("custom", "{}".to_string()), Some(custom(&[])));
    assert_eq!(
        decode("custom", "{\"player\":1}".to_string()),
        Some(custom(&[("player", "1")]))
    );

    let refused = [
        ("player", "{}".to_string()),
        ("player", format!("{{\"Player\":{player}}}")),
        ("player", player.to_string()),
        ("Player", format!("{{\"player\":{player}}}")),
        ("", format!("{{\"player\":{player}}}")),
        ("playerItem", format!("{{\"player\":{player}}}")),
        ("playerItem", format!("{{\"player\":{player},\"item_id\":4294967296}}")),
        ("playerItem", format!("{{\"player\":{player},\"item_id\":-1}}")),
        ("playerItem", format!("{{\"player\":{player},\"item_id\":7,\"item_name\":7}}")),
        ("playerItem", "{\"item_id\":7}".to_string()),
        ("playerLevel", format!("{{\"player\":{player},\"level\":256}}")),
        ("playerLevel", format!("{{\"player\":{player}}}")),
        ("playerGold", format!("{{\"player\":{player},\"delta\":2147483648,\"total\":0}}")),
        ("playerGold", format!("{{\"player\":{player},\"delta\":0,\"total\":-2147483649}}")),
        ("playerGold", format!("{{\"player\":{player},\"delta\":0.5,\"total\":0}}")),
        ("playerGold", format!("{{\"player\":{player},\"delta\":0}}")),
        ("phase", "{\"phase\":null}".to_string()),
        ("phase", "\"Lobby\"".to_string()),
        ("heartbeat", "{\"seq\":-1}".to_string()),
        ("heartbeat", "{\"seq\":18446744073709551616}".to_string()),
        ("heartbeat", "{\"seq\":\"1\"}".to_string()),
        ("custom", "[]".to_string()),
        ("custom", "null".to_string()),
        ("customs", "{}".to_string()),
    ];
    for (name, body) in refused {
        assert_eq!(decode(name, body.clone()), None, "{name} {body}");
    }
}

#[test]
fn malformed_events_are_refused() {
    let good = "{\"kind\":\"PhaseChange\",\"ts\":9,\"payloadKind\":\"phase\",\"data\":{\"phase\":\"Lobby\"}}";
    assert_eq!(parse_event(good), Some(Event::phase_change(9, "Lobby".to_string())));
    assert_eq!(
        parse_event(
            " {\"data\":{\"phase\":\"Lobby\"},\"more\":1,\"payloadKind\":\"phase\",\"ts\":18446744073709551615,\"kind\":\"Kill\"} "
        ),
        Some(Event {
            kind: EventKind::Kill,
            ts: u64::MAX,
            payload: EventPayload::Phase(PhaseEvent { phase: "Lobby".to_string() }),
        })
    );
    for bad in [
        "",
        "not json",
        "null",
        "[]",
        "{}",
        "{\"kind\":\"PhaseChange\",\"ts\":9,\"payloadKind\":\"phase\",\"data\":{\"phase\":\"Lobby\"}",
        "{\"ts\":9,\"payloadKind\":\"phase\",\"data\":{\"phase\":\"Lobby\"}}",
        "{\"kind\":\"PhaseChange\",\"payloadKind\":\"phase\",\"data\":{\"phase\":\"Lobby\"}}",
        "{\"kind\":\"PhaseChange\",\"ts\":9,\"data\":{\"phase\":\"Lobby\"}}",
        "{\"kind\":\"PhaseChange\",\"ts\":9,\"payloadKind\":\"phase\"}",
        "{\"kind\":\"phaseChange\",\"ts\":9,\"payloadKind\":\"phase\",\"data\":{\"phase\":\"Lobby\"}}",
        "{\"kind\":8,\"ts\":9,\"payloadKind\":\"phase\",\"data\":{\"phase\":\"Lobby\"}}",
        "{\"kind\":\"PhaseChange\",\"ts\":-9,\"payloadKind\":\"phase\",\"data\":{\"phase\":\"Lobby\"}}",
        "{\"kind\":\"PhaseChange\",\"ts\":9.5,\"payloadKind\":\"phase\",\"data\":{\"phase\":\"Lobby\"}}",
        "{\"kind\":\"PhaseChange\",\"ts\":\"9\",\"payloadKind\":\"phase\",\"data\":{\"phase\":\"Lobby\"}}",
        "{\"kind\":\"PhaseChange\",\"ts\":18446744073709551616,\"payloadKind\":\"phase\",\"data\":{\"phase\":\"Lobby\"}}",
        "{\"kind\":\"PhaseChange\",\"ts\":9,\"payloadKind\":\"Phase\",\"data\":{\"phase\":\"Lobby\"}}",
        "{\"kind\":\"PhaseChange\",\"ts\":9,\"payloadKind\":\"heartbeat\",\"data\":{\"phase\":\"Lobby\"}}",
        "{\"kind\":\"PhaseChange\",\"ts\":9,\"payloadKind\":\"phase\",\"data\":\"Lobby\"}",
        "{\"kind\":\"PhaseChange\",\"ts\":9,\"payloadKind\":\"phase\",\"phase\":\"Lobby\"}",
    ] {
        assert_eq!(parse_event(bad), None, "{bad}");
    }
}

#[test]
fn body_is_written_without_kind_and_time() {
    let payload = EventPayload::PlayerLevel(LevelEvent { player: who(), level: 3 });
    assert_eq!(
        encode_payload(&payload),
        read("{\"player\":{\"summoner_name\":\"Example\",\"team\":\"order\",\"slot\":0},\"level\":3}")
    );
    assert_eq!(encode_payload(&custom(&[])), read("{}"));
}
