use levents::lockfile::LockfileAuth;
use levents::phase::{
    extract_phase, parse_phase_body, parse_phase_message, phase_event, phase_from_answer,
    PhaseFetchError,
};
use levents::watcher::{
    subscribe_all_frame, subscribe_phase_frame, websocket_origin, Frame, PhaseWatcher, WatchAction,
    WatchReport, WatchStage,
};
use levents::{DaemonConfig, Event, EventKind, EventPayload, PhaseEvent};

fn told(text: &str) -> Option<String> {
    parse_phase_message(text)
}

fn phase(name: &str) -> Option<String> {
    Some(name.to_string())
}

#[test]
fn array_frame_tells_its_third_element() {
    assert_eq!(
        told("[\"OnJsonApiEvent\",\"/lol-gameflow/v1/gameflow-phase\",\"Lobby\"]"),
        phase("Lobby")
    );
    assert_eq!(
        told("[\"OnJsonApiEvent\",\"/lol-gameflow/v1/gameflow-phase\",\"InProgress\",1,2]"),
        phase("InProgress")
    );
    assert_eq!(told("[\"OnJsonApiEvent\",\"/lol-gameflow/v1/gameflow-phase\",7]"), None);
    assert_eq!(
        told("[\"OnJsonApiEvent\",\"/lol-gameflow/v1/gameflow-phase\",{\"uri\":\"/lol-gameflow/v1/gameflow-phase\",\"data\":\"Lobby\"}]"),
        None
    );
    assert_eq!(told("[\"OnJsonApiEvent\",\"/lol-gameflow/v1/gameflow-phase\"]"), None);
    assert_eq!(told("[\"OnJsonApiEvent\",\"/lol-chat/v1/me\",\"Lobby\"]"), None);
}

#[test]
fn payload_object_tells_its_data() {
    let frame = |data: &str| {
        format!("[8,\"OnJsonApiEvent\",{{\"uri\":\"/lol-gameflow/v1/gameflow-phase\",\"eventType\":\"Update\",\"data\":{data}}}]")
    };
    assert_eq!(told(&frame("\"ChampSelect\"")), phase("ChampSelect"));
    assert_eq!(told(&frame("{\"phase\":\"ReadyCheck\"}")), phase("ReadyCheck"));
    assert_eq!(told(&frame("{\"gameflowPhase\":\"EndOfGame\"}")), phase("EndOfGame"));
    assert_eq!(
        told(&frame("{\"gameflowPhase\":\"EndOfGame\",\"phase\":\"Lobby\"}")),
        phase("Lobby")
    );
    assert_eq!(told(&frame("{\"phase\":3,\"gameflowPhase\":\"EndOfGame\"}")), phase("EndOfGame"));
    assert_eq!(told(&frame("{\"Phase\":\"Lobby\"}")), None);
    assert_eq!(told(&frame("null")), None);
    assert_eq!(told(&frame("[\"Lobby\"]")), None);
    assert_eq!(told(&frame("\"\"")), phase(""));
}

#[test]
fn payload_object_needs_the_gameflow_uri() {
    assert_eq!(
        told("{\"uri\":\"/lol-gameflow/v1/gameflow-phase\",\"data\":\"Matchmaking\"}"),
        phase("Matchmaking")
    );
    assert_eq!(told("{\"uri\":\"/lol-gameflow/v1/session\",\"data\":\"Matchmaking\"}"), None);
    assert_eq!(told("{\"data\":\"Matchmaking\"}"), None);
    assert_eq!(told("{\"uri\":\"/lol-gameflow/v1/gameflow-phase\"}"), None);
    assert_eq!(told("{\"uri\":7,\"data\":\"Matchmaking\"}"), None);
    assert_eq!(
        told("[8,\"OnJsonApiEvent\",{\"uri\":\"/lol-lobby/v2/lobby\",\"data\":\"Lobby\"}]"),
        None
    );
}

#[test]
fn nested_arrays_are_searched_in_order() {
    let payload = |name: &str| {
        format!("{{\"uri\":\"/lol-gameflow/v1/gameflow-phase\",\"data\":\"{name}\"}}")
    };
    assert_eq!(told(&format!("[{}]", payload("One"))), phase("One"));
    assert_eq!(told(&format!("[1,[2,[{}]],{}]", payload("Deep"), payload("Late"))), phase("Deep"));
    assert_eq!(
        told(&format!("[{},\"OnJsonApiEvent\",{}]", payload("First"), payload("Third"))),
        phase("Third")
    );
    assert_eq!(
        told(&format!("[{},\"OnJsonApiEvent\",3]", payload("First"))),
        phase("First")
    );
    assert_eq!(told(&format!("[0, {}, {}]", payload("Second"), payload("Third"))), phase("Second"));
}

#[test]
fn other_documents_tell_no_phase() {
    for text in ["", "   ", "not json", "\"Lobby\"", "42", "null", "true", "[]", "{}", "[1,2,3]", "[\"Lobby\"]", "{\"phase\":\"Lobby\"}", "[\"OnJsonApiEvent\""]
    {
        assert_eq!(told(text), None, "{text:?}");
    }
}

#[test]
fn decoded_frame_is_searched_as_its_text_is() {
    let text = "[8,\"OnJsonApiEvent\",{\"uri\":\"/lol-gameflow/v1/gameflow-phase\",\"data\":{\"gameflowPhase\":\"Reconnect\"}}]";
    let value: serde_json::Value = serde_json::from_str(text).expect("a document");
    assert_eq!(extract_phase(&value), phase("Reconnect"));
    assert_eq!(extract_phase(&serde_json::Value::Null), None);
    assert_eq!(extract_phase(&serde_json::Value::String("Lobby".to_string())), None);
}

#[test]
fn priming_body_is_read_tolerantly() {
    assert_eq!(parse_phase_body("\"Lobby\""), phase("Lobby"));
    assert_eq!(parse_phase_body("  \"ChampSelect\"\r\n"), phase("ChampSelect"));
    assert_eq!(parse_phase_body("{\"phase\":\"InProgress\"}"), phase("InProgress"));
    assert_eq!(parse_phase_body("{\"gameflowPhase\":\"EndOfGame\"}"), phase("EndOfGame"));
    assert_eq!(
        parse_phase_body("{\"gameflowPhase\":\"EndOfGame\",\"phase\":\"Lobby\"}"),
        phase("Lobby")
    );
    assert_eq!(parse_phase_body("Lobby"), phase("Lobby"));
    assert_eq!(parse_phase_body("\"\"Lobby\"\""), phase("Lobby"));
    assert_eq!(parse_phase_body("\"Lobby"), phase("Lobby"));
    assert_eq!(parse_phase_body("None\""), phase("None"));
    assert_eq!(parse_phase_body("a\"b"), phase("a\"b"));
    assert_eq!(
        parse_phase_body("[\"OnJsonApiEvent\",\"/lol-gameflow/v1/gameflow-phase\",\"Lobby\"]"),
        phase("Lobby")
    );
    assert_eq!(
        parse_phase_body("{\"uri\":\"/lol-gameflow/v1/gameflow-phase\",\"data\":\"Matchmaking\"}"),
        phase("Matchmaking")
    );
    assert_eq!(parse_phase_body("\"Lob\\u0062y\""), phase("Lobby"));
}

#[test]
fn priming_body_without_a_phase() {
    assert_eq!(parse_phase_body(""), None);
    assert_eq!(parse_phase_body(" \n\t "), None);
    assert_eq!(parse_phase_body("\"\""), phase(""));
    assert_eq!(parse_phase_body("\""), phase(""));
    assert_eq!(parse_phase_body("42"), phase("42"));
    assert_eq!(parse_phase_body("{}"), phase("{}"));
    assert_eq!(parse_phase_body("{\"phase\":1}"), phase("{\"phase\":1}"));
}

#[test]
fn priming_answer_depends_on_the_status() {
    assert_eq!(phase_from_answer(200, "\"Lobby\""), Ok(phase("Lobby")));
    assert_eq!(phase_from_answer(299, "\"Lobby\""), Ok(phase("Lobby")));
    assert_eq!(phase_from_answer(204, ""), Ok(None));
    assert_eq!(phase_from_answer(404, "\"Lobby\""), Ok(None));
    assert_eq!(phase_from_answer(199, "\"Lobby\""), Err(PhaseFetchError::Status(199)));
    assert_eq!(phase_from_answer(300, "\"Lobby\""), Err(PhaseFetchError::Status(300)));
    assert_eq!(phase_from_answer(500, ""), Err(PhaseFetchError::Status(500)));
    assert_eq!(phase_from_answer(0, ""), Err(PhaseFetchError::Status(0)));
    assert_eq!(phase_from_answer(u16::MAX, ""), Err(PhaseFetchError::Status(u16::MAX)));
}

fn change(name: &str, ts: u64) -> Event {
    Event {
        kind: EventKind::PhaseChange,
        ts,
        payload: EventPayload::Phase(PhaseEvent { phase: name.to_string() }),
    }
}

#[test]
fn phase_event_carries_name_and_time() {
    assert_eq!(phase_event("Lobby", 17), change("Lobby", 17));
    assert_eq!(Event::phase_change(0, String::new()), change("", 0));
}

#[test]
fn subscription_frames_are_fixed() {
    assert_eq!(subscribe_all_frame(), "[\"subscribe\",\"OnJsonApiEvent\"]");
    assert_eq!(subscribe_phase_frame(), "[\"subscribe\",\"/lol-gameflow/v1/gameflow-phase\"]");
    assert_eq!(websocket_origin(), "https://127.0.0.1");
}

fn credentials() -> LockfileAuth {
    LockfileAuth { port: 5678, password: "secret".to_string(), protocol: "https".to_string() }
}

fn listening() -> PhaseWatcher {
    let (mut watcher, _) = PhaseWatcher::start(&DaemonConfig::default());
    watcher.step(WatchReport::Lockfile(Some(credentials())), 0);
    watcher.step(WatchReport::Connected(true), 0);
    watcher.step(WatchReport::Subscribed(true), 0);
    watcher.step(WatchReport::Primed(None), 0);
    assert_eq!(watcher.stage, WatchStage::Listening);
    watcher
}

fn text(name: &str) -> WatchReport {
    WatchReport::Frame(Frame::Text(format!(
        "[\"OnJsonApiEvent\",\"/lol-gameflow/v1/gameflow-phase\",\"{name}\"]"
    )))
}

#[test]
fn watcher_walks_from_discovery_to_listening() {
    let config = DaemonConfig::default();
    let (mut watcher, first) = PhaseWatcher::start(&config);
    assert!(matches!(first, WatchAction::Discover));
    assert_eq!(watcher.stage, WatchStage::Discovering);
    assert_eq!(watcher.last_phase, None);

    let step = watcher.step(WatchReport::Lockfile(Some(credentials())), 1);
    assert!(matches!(&step.action, WatchAction::Connect(auth) if auth.port == 5678 && auth.password == "secret"));
    assert!(step.emit.is_none());
    assert_eq!(watcher.stage, WatchStage::Connecting);

    let step = watcher.step(WatchReport::Connected(true), 2);
    assert!(matches!(step.action, WatchAction::Subscribe));
    assert_eq!(watcher.stage, WatchStage::Subscribing);

    let step = watcher.step(WatchReport::Subscribed(true), 3);
    assert!(matches!(&step.action, WatchAction::Prime(auth) if auth.port == 5678 && auth.protocol == "https"));
    assert_eq!(watcher.stage, WatchStage::Priming);

    let step = watcher.step(WatchReport::Primed(phase("Lobby")), 4);
    assert!(matches!(step.action, WatchAction::Read));
    assert_eq!(step.emit, Some(change("Lobby", 4)));
    assert_eq!(watcher.stage, WatchStage::Listening);
    assert_eq!(watcher.last_phase, phase("Lobby"));
}

#[test]
fn watcher_publishes_a_phase_only_when_it_changes() {
    let mut watcher = listening();
    assert_eq!(watcher.step(text("Lobby"), 10).emit, Some(change("Lobby", 10)));
    assert_eq!(watcher.step(text("Lobby"), 11).emit, None);
    assert_eq!(watcher.step(text("ChampSelect"), 12).emit, Some(change("ChampSelect", 12)));
    assert_eq!(watcher.step(text("Lobby"), 13).emit, Some(change("Lobby", 13)));
    let step = watcher.step(WatchReport::Frame(Frame::Text("{\"other\":1}".to_string())), 14);
    assert!(step.emit.is_none());
    assert!(matches!(step.action, WatchAction::Read));
    assert_eq!(watcher.last_phase, phase("Lobby"));
    assert_eq!(watcher.stage, WatchStage::Listening);
}

#[test]
fn watcher_answers_pings_and_passes_over_other_frames() {
    let mut watcher = listening();
    let step = watcher.step(WatchReport::Frame(Frame::Ping(vec![1, 2, 3])), 0);
    assert!(matches!(&step.action, WatchAction::Pong(echo) if echo == &vec![1u8, 2, 3]));
    assert_eq!(watcher.stage, WatchStage::Ponging);
    let step = watcher.step(WatchReport::PongSent(true), 0);
    assert!(matches!(step.action, WatchAction::Read));
    assert_eq!(watcher.stage, WatchStage::Listening);

    for frame in [Frame::Pong, Frame::Binary, Frame::Raw] {
        let step = watcher.step(WatchReport::Frame(frame), 0);
        assert!(matches!(step.action, WatchAction::Read));
        assert!(step.emit.is_none());
        assert_eq!(watcher.stage, WatchStage::Listening);
    }
}

#[test]
fn watcher_sleeps_and_starts_over_when_the_connection_is_lost() {
    let config = DaemonConfig::default();
    for frame in [Frame::Close, Frame::Failed, Frame::Ended] {
        let mut watcher = listening();
        watcher.step(text("Lobby"), 1);
        let step = watcher.step(WatchReport::Frame(frame), 2);
        assert!(matches!(step.action, WatchAction::Sleep(delay) if delay == config.lcu_retry_delay));
        assert_eq!(watcher.stage, WatchStage::Sleeping);
        assert_eq!(watcher.last_phase, phase("Lobby"));
        let step = watcher.step(WatchReport::Slept, 3);
        assert!(matches!(step.action, WatchAction::Discover));
        assert_eq!(watcher.stage, WatchStage::Discovering);
    }
}

#[test]
fn watcher_waits_for_the_lockfile() {
    let mut config = DaemonConfig::default();
    config.lcu_discovery_interval = 4_321;
    config.lcu_retry_delay = 99;
    let (mut watcher, _) = PhaseWatcher::start(&config);
    let step = watcher.step(WatchReport::Lockfile(None), 0);
    assert!(matches!(step.action, WatchAction::Sleep(4_321)));
    assert_eq!(watcher.stage, WatchStage::Sleeping);
    watcher.step(WatchReport::Slept, 0);
    watcher.step(WatchReport::Lockfile(Some(credentials())), 0);
    let step = watcher.step(WatchReport::Connected(false), 0);
    assert!(matches!(step.action, WatchAction::Sleep(99)));
    assert_eq!(watcher.stage, WatchStage::Sleeping);
}

#[test]
fn watcher_retries_on_failures_and_strange_reports() {
    let failing = [
        (3, WatchReport::Subscribed(false)),
        (3, WatchReport::Connected(true)),
        (2, WatchReport::Slept),
        (1, WatchReport::Primed(None)),
        (5, WatchReport::PongSent(true)),
        (5, WatchReport::Lockfile(None)),
    ];
    for (steps, report) in failing {
        let (mut watcher, _) = PhaseWatcher::start(&DaemonConfig::default());
        let path = [
            WatchReport::Lockfile(Some(credentials())),
            WatchReport::Connected(true),
            WatchReport::Subscribed(true),
            WatchReport::Primed(None),
        ];
        for report in path.into_iter().take(steps - 1) {
            watcher.step(report, 0);
        }
        let step = watcher.step(report, 0);
        assert!(matches!(step.action, WatchAction::Sleep(_)));
        assert!(step.emit.is_none());
        assert_eq!(watcher.stage, WatchStage::Sleeping);
    }

    let mut watcher = listening();
    watcher.step(WatchReport::Frame(Frame::Ping(Vec::new())), 0);
    let step = watcher.step(WatchReport::PongSent(false), 0);
    assert!(matches!(step.action, WatchAction::Sleep(_)));
    assert_eq!(watcher.stage, WatchStage::Sleeping);
}
