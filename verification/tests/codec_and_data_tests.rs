use thinking_space::codec::Envelope;
use thinking_space::codec::IdCounter;
use thinking_space::codec::JsonRpcError;
use thinking_space::mcp_config::McpConfig;
use thinking_space::mcp_config::McpServerConfig;
use thinking_space::settings::Settings;
use thinking_space::spaces::is_blocked_file_name;
use thinking_space::spaces::Space;
use thinking_space::strings::str_eq;

fn envelope(id: Option<u64>, method: Option<&str>) -> Envelope {
    Envelope {
        id,
        method: method.map(String::from),
        params: None,
        result: None,
        error: None,
    }
}

#[test]
fn test_envelope_classification() {
    let request = envelope(Some(1), Some("initialize"));
    assert!(request.is_request());
    assert!(!request.is_response());
    assert!(!request.is_notification());

    let response = envelope(Some(1), None);
    assert!(!response.is_request());
    assert!(response.is_response());
    assert!(!response.is_notification());

    let notification = envelope(None, Some("session/update"));
    assert!(!notification.is_request());
    assert!(!notification.is_response());
    assert!(notification.is_notification());
}

#[test]
fn test_envelope_response_correlation() {
    let response = envelope(Some(7), None);
    assert!(response.matches_response(7));
    assert!(!response.matches_response(8));
    // a request with the same id is not a response
    assert!(!envelope(Some(7), Some("m")).matches_response(7));
}

#[test]
fn test_envelope_error_object() {
    let e = Envelope {
        id: Some(3),
        method: None,
        params: None,
        result: None,
        error: Some(JsonRpcError { code: -32600, message: String::from("bad"), data: None }),
    };
    assert!(e.is_response());
    assert_eq!(e.error.as_ref().unwrap().code, -32600);
}

#[test]
fn test_id_counter_issues_fresh_ids() {
    let mut counter = IdCounter::new();
    let a = counter.fresh_id();
    let b = counter.fresh_id();
    let c = counter.fresh_id();
    assert_ne!(a, b);
    assert_ne!(b, c);
    assert_ne!(a, c);
}

#[test]
fn test_load_missing_config() {
    // a space without a configuration file has no MCP servers, and that
    // is not an error
    let config = McpConfig::load_from_space(None);
    assert_eq!(config.mcp_servers.len(), 0);
}

#[test]
fn test_load_present_config() {
    let config = McpConfig {
        mcp_servers: vec![McpServerConfig {
            name: String::from("filesystem"),
            command: String::from("npx"),
            args: vec![String::from("-y"), String::from("server-filesystem")],
            env: vec![(String::from("KEY"), String::from("value"))],
        }],
    };
    let loaded = McpConfig::load_from_space(Some(config));
    assert_eq!(loaded.mcp_servers.len(), 1);
    assert_eq!(loaded.mcp_servers[0].name, "filesystem");
    assert_eq!(loaded.mcp_servers[0].command, "npx");
    assert_eq!(loaded.mcp_servers[0].env[0].1, "value");
}

#[test]
fn test_settings_default() {
    let settings = Settings::default();
    assert!(settings.api_key.is_none());
    assert_eq!(settings.theme, "system");
}

#[test]
fn test_space_create_and_touch() {
    let mut space = Space::create(
        String::from("id-1"),
        String::from("My Space"),
        String::from("/spaces/id-1"),
        String::from("/spaces/id-1/AGENT.md"),
        Some(String::from("quick-start")),
    );
    assert_eq!(space.created_at, space.last_accessed_at);
    let created = space.created_at;
    space.touch();
    assert_eq!(space.created_at, created);
    assert_eq!(space.name, "My Space");
}

#[test]
fn test_normalize_timestamps_migrates_seconds() {
    let mut space = Space {
        id: String::from("id"),
        name: String::from("n"),
        path: String::from("/p"),
        claude_md_path: String::from("/p/AGENT.md"),
        created_at: 1234567890,
        last_accessed_at: 1234567890123,
        template: None,
    };
    let changed = space.normalize_timestamps();
    assert!(changed);
    assert_eq!(space.created_at, 1234567890000);
    assert_eq!(space.last_accessed_at, 1234567890123);
    let changed_again = space.normalize_timestamps();
    assert!(!changed_again);
}

#[test]
fn test_blocked_file_names() {
    assert!(is_blocked_file_name("id_rsa"));
    assert!(is_blocked_file_name("my.env.backup"));
    assert!(is_blocked_file_name(".git-credentials"));
    assert!(is_blocked_file_name("config"));
    assert!(!is_blocked_file_name("notes.txt"));
    assert!(!is_blocked_file_name("AGENT.md"));
}

#[test]
fn test_str_eq_behaviour() {
    assert!(str_eq("", ""));
    assert!(str_eq("caf\u{e9}", "caf\u{e9}"));
    assert!(!str_eq("caf\u{e9}", "cafe"));
    assert!(!str_eq("abc", "abcd"));
}

#[test]
fn test_envelope_constructors() {
    let mut counter = IdCounter::new();
    let id = counter.fresh_id();
    let request = Envelope::request(id, String::from("session/prompt"), Some(String::from("{}")));
    assert!(request.is_request());
    assert_eq!(request.id, Some(id));
    assert_eq!(request.method.as_deref(), Some("session/prompt"));
    let note = Envelope::notification(String::from("tool/response"), None);
    assert!(note.is_notification());
    assert!(note.id.is_none());
}

#[test]
fn test_sort_spaces_by_recency() {
    fn space(id: &str, last_accessed_at: i64) -> Space {
        Space {
            id: String::from(id),
            name: String::from(id),
            path: String::from("/p"),
            claude_md_path: String::from("/p/AGENT.md"),
            created_at: 0,
            last_accessed_at,
            template: None,
        }
    }
    let mut spaces = vec![space("a", 10), space("b", 30), space("c", 20), space("d", 30)];
    thinking_space::spaces::sort_spaces_by_recency(&mut spaces);
    let order: Vec<i64> = spaces.iter().map(|s| s.last_accessed_at).collect();
    assert_eq!(order, vec![30, 30, 20, 10]);
    let ids: Vec<&str> = spaces.iter().map(|s| s.id.as_str()).collect();
    assert!(ids.contains(&"a") && ids.contains(&"b") && ids.contains(&"c") && ids.contains(&"d"));
}
