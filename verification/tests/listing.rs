use terminal_sessions::files::{name_sorts_before, sort_listing, FileInfo};
use terminal_sessions::relay::{
    check_ws_url, enable_commands, judge_url, relay_event_name, relay_step, RelayError,
    RelayMessage,
};

fn entry(name: &str, is_directory: bool, size: u64) -> FileInfo {
    FileInfo::new(name.to_string(), format!("/base/{}", name), is_directory, size)
}

fn names(files: &[FileInfo]) -> Vec<String> {
    files.iter().map(|f| f.name().to_string()).collect()
}

#[test]
fn file_info_keeps_what_it_was_given() {
    let info = FileInfo::new("a.txt".to_string(), "/tmp/a.txt".to_string(), false, 12);
    assert_eq!(info.name(), "a.txt");
    assert_eq!(info.path(), "/tmp/a.txt");
    assert!(!info.is_directory());
    assert_eq!(info.size(), 12);
}

#[test]
fn names_sort_by_their_bytes() {
    assert!(name_sorts_before("a", "b"));
    assert!(!name_sorts_before("b", "a"));
    assert!(!name_sorts_before("a", "a"));
    assert!(name_sorts_before("", "a"));
    assert!(!name_sorts_before("a", ""));
    assert!(!name_sorts_before("", ""));
    assert!(name_sorts_before("ab", "abc"));
    assert!(name_sorts_before("B", "a"));
    assert!(name_sorts_before("z", "é"));
    let samples = ["", "a", "A", "ab", "abc", "b", "é", "e", "zz", "日本", "10", "9", "a b", "a-b"];
    for a in samples {
        for b in samples {
            assert_eq!(name_sorts_before(a, b), a < b, "{:?} against {:?}", a, b);
        }
    }
}

#[test]
fn listing_puts_directories_first_then_names() {
    let files = vec![
        entry("zeta.txt", false, 1),
        entry("src", true, 0),
        entry("Alpha.md", false, 2),
        entry("docs", true, 0),
        entry("beta.rs", false, 3),
        entry(".git", true, 0),
    ];
    let sorted = sort_listing(files);
    assert_eq!(names(&sorted), vec![".git", "docs", "src", "Alpha.md", "beta.rs", "zeta.txt"]);
    assert_eq!(sorted[3].size(), 2);
    assert_eq!(sorted[0].path(), "/base/.git");
}

#[test]
fn listing_order_is_stable_and_agrees_with_std() {
    let make = || {
        vec![
            entry("same", false, 1),
            entry("b", true, 2),
            entry("same", false, 3),
            entry("a", false, 4),
            entry("same", true, 5),
            entry("same", false, 6),
            entry("b", true, 7),
            entry("", false, 8),
        ]
    };
    let mut expected = make();
    expected.sort_by(|a, b| match (a.is_directory(), b.is_directory()) {
        (true, false) => std::cmp::Ordering::Less,
        (false, true) => std::cmp::Ordering::Greater,
        _ => a.name().cmp(b.name()),
    });
    let sorted = sort_listing(make());
    let sizes: Vec<u64> = sorted.iter().map(|f| f.size()).collect();
    let expected_sizes: Vec<u64> = expected.iter().map(|f| f.size()).collect();
    assert_eq!(sizes, expected_sizes);
    assert_eq!(sizes, vec![2, 7, 5, 8, 4, 1, 3, 6]);
    assert_eq!(sort_listing(Vec::new()).len(), 0);
}

#[test]
fn listed_before_compares_kind_then_name() {
    let dir = entry("z", true, 0);
    let file = entry("a", false, 0);
    assert!(dir.listed_before(&file));
    assert!(!file.listed_before(&dir));
    assert!(!file.listed_before(&file));
    assert!(entry("a", true, 0).listed_before(&dir));
}

#[test]
fn relay_switches_six_domains_on() {
    let commands = enable_commands();
    let listed: Vec<(u64, &str)> = commands.iter().map(|c| (c.id, c.method.as_str())).collect();
    assert_eq!(
        listed,
        vec![
            (1, "Console.enable"),
            (2, "Network.enable"),
            (3, "Storage.enable"),
            (4, "Runtime.enable"),
            (5, "Debugger.enable"),
            (6, "Inspector.enable"),
        ]
    );
    assert_eq!(relay_event_name(), "cdp-event");
}

#[test]
fn relay_accepts_urls_and_rejects_the_rest() {
    assert!(check_ws_url("ws://127.0.0.1:9222/devtools/browser/abc").is_ok());
    assert!(check_ws_url("wss://example.com/socket").is_ok());
    match check_ws_url("not a url") {
        Err(RelayError::InvalidUrl(reason)) => {
            assert_eq!(reason, "relative URL without a base");
        },
        other => panic!("expected a rejection, got {:?}", other),
    }
    match check_ws_url("ws://") {
        Err(e) => assert_eq!(e.message(), "Invalid WebSocket URL: empty host"),
        Ok(()) => panic!("expected a rejection"),
    }
    match check_ws_url("ws://host:99999/") {
        Err(e) => assert_eq!(e.message(), "Invalid WebSocket URL: invalid port number"),
        Ok(()) => panic!("expected a rejection"),
    }
}

#[test]
fn relay_verdict_follows_the_parser() {
    assert!(judge_url(None).is_ok());
    match judge_url(Some("empty host".to_string())) {
        Err(RelayError::InvalidUrl(reason)) => assert_eq!(reason, "empty host"),
        other => panic!("expected a rejection, got {:?}", other),
    }
}

#[test]
fn relay_error_messages() {
    assert_eq!(
        RelayError::InvalidUrl("empty host".to_string()).message(),
        "Invalid WebSocket URL: empty host"
    );
    assert_eq!(
        RelayError::Connect("refused".to_string()).message(),
        "WebSocket connect error: refused"
    );
    assert_eq!(
        RelayError::Send("closed".to_string()).message(),
        "Failed to send enable command: closed"
    );
}

#[test]
fn relay_passes_text_on_and_stops_on_failure() {
    let step = relay_step(RelayMessage::Text("{\"id\":1}".to_string()));
    assert_eq!(step.publish.as_deref(), Some("{\"id\":1}"));
    assert!(step.keep_going);
    let step = relay_step(RelayMessage::Other);
    assert_eq!(step.publish, None);
    assert!(step.keep_going);
    let step = relay_step(RelayMessage::Failed("reset".to_string()));
    assert_eq!(step.publish.as_deref(), Some("WebSocket error: reset"));
    assert!(!step.keep_going);
}
