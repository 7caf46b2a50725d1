use base64::Engine;
use levents::lockfile::{
    load_lockfile, parse_lockfile, read_lockfile, LockfileAuth, LockfileFault, LockfileReading,
};
use levents::paths::{
    default_lockfile_paths, home_dir, join_path, lockfile_candidates, normalize_path, Platform,
};
use levents::DaemonConfig;

fn fault(raw: &str) -> LockfileFault {
    let error = parse_lockfile("/somewhere/lockfile", raw).expect_err("refused");
    assert_eq!(error.path, "/somewhere/lockfile");
    error.fault
}

fn auth(port: u16, password: &str, protocol: &str) -> LockfileAuth {
    LockfileAuth { port, password: password.to_string(), protocol: protocol.to_string() }
}

fn fields(auth: &LockfileAuth) -> (u16, &str, &str) {
    (auth.port, auth.password.as_str(), auth.protocol.as_str())
}

#[test]
fn lockfile_is_trimmed_and_protocol_lowered() {
    let parsed = parse_lockfile("p", "\u{a0}\t LeagueClient:1:443:pa ss:HTTPS:extra:more \r\n")
        .expect("lockfile");
    assert_eq!(fields(&parsed), (443, "pa ss", "https"));
    let parsed = parse_lockfile("p", "::0::").expect("lockfile");
    assert_eq!(fields(&parsed), (0, "", ""));
    let parsed = parse_lockfile("p", "a:b:65535:c:\u{c9}T\u{e9}").expect("lockfile");
    assert_eq!(fields(&parsed), (65535, "c", "\u{c9}t\u{e9}"));
}

#[test]
fn lockfile_port_is_a_decimal_number_of_sixteen_bits() {
    let port = |text: &str| {
        parse_lockfile("p", &format!("a:b:{text}:c:d")).map(|auth| auth.port).map_err(|e| e.fault)
    };
    assert_eq!(port("5678"), Ok(5678));
    assert_eq!(port("+5678"), Ok(5678));
    assert_eq!(port("0005678"), Ok(5678));
    assert_eq!(port("0"), Ok(0));
    assert_eq!(port("65535"), Ok(65535));
    assert_eq!(port("000000000000000000000065535"), Ok(65535));
    for bad in ["65536", "99999999999999999999999", "", "+", "-1", "++1", "1+", " 80", "80 ", "8o", "0x50", "\u{661}"]
    {
        assert_eq!(port(bad), Err(LockfileFault::BadPort), "{bad:?}");
    }
}

#[test]
fn lockfile_without_content_is_empty() {
    assert_eq!(fault(""), LockfileFault::Empty);
    assert_eq!(fault(" \t\r\n"), LockfileFault::Empty);
    assert_eq!(fault("\u{3000}\u{2003}\u{85}"), LockfileFault::Empty);
}

#[test]
fn lockfile_with_too_few_fields_is_corrupted() {
    assert_eq!(fault("LeagueClient:1234:5678:secret"), LockfileFault::Corrupted);
    assert_eq!(fault("x"), LockfileFault::Corrupted);
    assert_eq!(fault(":::"), LockfileFault::Corrupted);
    assert_eq!(fault("\u{200b}"), LockfileFault::Corrupted);
    assert_eq!(fault("a:b:notaport:c"), LockfileFault::Corrupted);
}

#[test]
fn lockfile_with_a_bad_port_is_refused() {
    assert_eq!(fault("LeagueClient:1234:port:secret:https"), LockfileFault::BadPort);
    assert_eq!(fault("LeagueClient:1234::secret:https"), LockfileFault::BadPort);
    assert_eq!(fault("LeagueClient:1234:70000:secret:https"), LockfileFault::BadPort);
}

#[test]
fn urls_follow_protocol_and_port() {
    let secure = auth(5678, "secret", "https");
    assert_eq!(secure.websocket_url(), "wss://127.0.0.1:5678/");
    assert_eq!(secure.base_url(), "https://127.0.0.1:5678");
    assert_eq!(secure.phase_url(), "https://127.0.0.1:5678/lol-gameflow/v1/gameflow-phase");

    let plain = auth(80, "secret", "http");
    assert_eq!(plain.websocket_url(), "ws://127.0.0.1:80/");
    assert_eq!(plain.base_url(), "http://127.0.0.1:80");

    assert_eq!(auth(0, "", "HtTpS").websocket_url(), "wss://127.0.0.1:0/");
    assert_eq!(auth(65535, "", "https ").websocket_url(), "ws://127.0.0.1:65535/");
    assert_eq!(auth(65535, "", "").websocket_url(), "ws://127.0.0.1:65535/");
    assert_eq!(auth(10, "", "gopher").base_url(), "gopher://127.0.0.1:10");
}

#[test]
fn basic_token_encodes_user_and_password() {
    let secret = auth(1, "secret", "https");
    assert_eq!(secret.basic_token(), "cmlvdDpzZWNyZXQ=");
    assert_eq!(secret.authorization(), "Basic cmlvdDpzZWNyZXQ=");
    assert_eq!(secret.try_authorization().as_deref(), Some("Basic cmlvdDpzZWNyZXQ="));
    assert_eq!(auth(1, "", "https").basic_token(), "cmlvdDo=");
    for password in ["a", "ab", "abc", "p\u{e4}ss:w\u{f6}rd", "\u{1f980}"] {
        let expected =
            base64::engine::general_purpose::STANDARD.encode(format!("riot:{password}"));
        assert_eq!(auth(1, password, "https").basic_token(), expected);
    }
}

fn reading(path: &str, contents: Option<&str>) -> LockfileReading {
    LockfileReading { path: path.to_string(), contents: contents.map(str::to_string) }
}

#[test]
fn first_usable_lockfile_is_taken() {
    let readings = vec![
        reading("/a", None),
        reading("/b", Some("")),
        reading("/c", Some("a:b:c:d:e")),
        reading("/d", Some("n:1:8080:pw:http")),
        reading("/e", Some("n:1:9090:other:https")),
    ];
    let (path, found) = load_lockfile(&readings).expect("a usable lockfile");
    assert_eq!(path, "/d");
    assert_eq!(fields(&found), (8080, "pw", "http"));

    assert!(load_lockfile(&readings[..3].to_vec()).is_none());
    assert!(load_lockfile(&Vec::new()).is_none());

    let found: Vec<Option<u16>> =
        readings.iter().map(|reading| read_lockfile(reading).map(|auth| auth.port)).collect();
    assert_eq!(found, vec![None, None, None, Some(8080), Some(9090)]);
}

#[test]
fn paths_are_joined_with_one_separator() {
    assert_eq!(join_path("/home/u", "x"), "/home/u/x");
    assert_eq!(join_path("/home/u/", "x"), "/home/u/x");
    assert_eq!(join_path("", "x"), "x");
    assert_eq!(join_path("/home/u", "/etc"), "/etc");
    assert_eq!(join_path("/home/u", ""), "/home/u/");
    assert_eq!(join_path("/", "x/y"), "/x/y");
}

#[test]
fn home_is_the_first_setting_present() {
    let some = |text: &str| Some(text.to_string());
    assert_eq!(home_dir(some("/home/u"), some("C:\\Users\\u")), some("/home/u"));
    assert_eq!(home_dir(None, some("C:\\Users\\u")), some("C:\\Users\\u"));
    assert_eq!(home_dir(some(""), some("C:\\Users\\u")), some(""));
    assert_eq!(home_dir(None, None), None);
}

#[test]
fn tilde_expands_against_the_home_directory() {
    let expand = |path: &str| normalize_path(path.to_string(), Some("/home/u"));
    assert_eq!(expand("~"), "/home/u");
    assert_eq!(expand("~/games/lockfile"), "/home/u/games/lockfile");
    assert_eq!(expand("~/"), "/home/u/");
    assert_eq!(expand("~//abs"), "/abs");
    assert_eq!(expand("~other/lockfile"), "~other/lockfile");
    assert_eq!(expand("/opt/~/lockfile"), "/opt/~/lockfile");
    assert_eq!(expand(""), "");
    assert_eq!(expand("relative/~"), "relative/~");
    assert_eq!(normalize_path("~/x".to_string(), None), "~/x");
    assert_eq!(normalize_path("~".to_string(), None), "~");
}

#[test]
fn default_places_depend_on_the_platform() {
    assert_eq!(
        default_lockfile_paths(Platform::Linux, Some("/home/u"), None),
        vec![
            "/home/u/.config/League of Legends/lockfile",
            "/home/u/.local/share/league-of-legends/lockfile",
            "/home/u/Games/league-of-legends/lockfile",
        ]
    );
    assert!(default_lockfile_paths(Platform::Linux, None, Some("/data")).is_empty());
    assert_eq!(
        default_lockfile_paths(Platform::MacOs, Some("/Users/u"), None),
        vec![
            "/Users/u/Library/Application Support/League of Legends/lockfile",
            "/Applications/League of Legends.app/Contents/LoL/lockfile",
        ]
    );
    assert_eq!(
        default_lockfile_paths(Platform::MacOs, None, None),
        vec!["/Applications/League of Legends.app/Contents/LoL/lockfile"]
    );
    assert_eq!(
        default_lockfile_paths(Platform::Windows, Some("/home/u"), Some("C:/Users/u/AppData/Local")),
        vec![
            "C:/Users/u/AppData/Local/Riot Games/Riot Client/Config/lockfile",
            "C:/Users/u/AppData/Local/Riot Games/League of Legends/lockfile",
            "C:\\Riot Games\\League of Legends\\lockfile",
        ]
    );
    assert_eq!(
        default_lockfile_paths(Platform::Windows, None, None),
        vec!["C:\\Riot Games\\League of Legends\\lockfile"]
    );
    assert!(default_lockfile_paths(Platform::Other, Some("/home/u"), Some("/data")).is_empty());
}

#[test]
fn candidates_come_in_order_without_repetition() {
    let mut config = DaemonConfig::default();
    let defaults = vec![
        "/home/u/one".to_string(),
        "~/two".to_string(),
        "/home/u/one".to_string(),
        "/three".to_string(),
    ];
    assert_eq!(
        lockfile_candidates(&config, None, Some("/home/u"), &defaults),
        vec!["/home/u/one", "/home/u/two", "/three"]
    );

    config.lcu_lockfile = Some("~/two".to_string());
    assert_eq!(
        lockfile_candidates(&config, Some("/env/lockfile"), Some("/home/u"), &defaults),
        vec!["/home/u/two", "/env/lockfile", "/home/u/one", "/three"]
    );
    assert_eq!(
        lockfile_candidates(&config, Some("  \t"), None, &defaults),
        vec!["~/two", "  \t", "/home/u/one", "/three"]
    );
    assert_eq!(
        lockfile_candidates(&config, Some(""), None, &defaults),
        vec!["~/two", "/home/u/one", "/three"]
    );
    assert_eq!(
        lockfile_candidates(&config, Some(" ~/two "), Some("/home/u"), &Vec::new()),
        vec!["/home/u/two", " ~/two "]
    );

    config.lcu_lockfile = Some(String::new());
    assert_eq!(lockfile_candidates(&config, Some(""), None, &Vec::new()), vec![""]);
}
