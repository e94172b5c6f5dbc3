use terminal_sessions::platform::Platform;
use terminal_sessions::ports::{build_port_query, cleanup_dev_ports, kill_port_process};
use terminal_sessions::pty::{detect_default_shell, list_shell_candidates, shell_variable_name};
use terminal_sessions::terminate::{target_of_group, target_of_process, KillAction, Signal};
use terminal_sessions::text::{read_i32, read_u32, str_eq, to_chars, trim_range};

fn escalation(target: i32) -> Vec<KillAction> {
    vec![
        KillAction::Signal { target, signal: Signal::Terminate },
        KillAction::Pause { millis: 100 },
        KillAction::Signal { target, signal: Signal::Kill },
    ]
}

fn parse_i32(s: &str) -> Option<i32> {
    let chars: Vec<char> = s.chars().collect();
    read_i32(&chars, 0, chars.len())
}

fn parse_u32(s: &str) -> Option<u32> {
    let chars: Vec<char> = s.chars().collect();
    read_u32(&chars, 0, chars.len())
}

fn trimmed(s: &str) -> String {
    let chars: Vec<char> = s.chars().collect();
    let (lo, hi) = trim_range(&chars, 0, chars.len());
    chars[lo..hi].iter().collect()
}

#[test]
fn dev_ports_are_the_fixed_list() {
    assert_eq!(cleanup_dev_ports(), vec![1420, 1421, 1422, 1423, 3000, 5173, 8080]);
}

#[test]
fn posix_port_query_is_lsof() {
    let query = build_port_query(Platform::Posix, 8080);
    assert_eq!(query.program, "lsof");
    assert_eq!(query.args, vec!["-ti".to_string(), ":8080".to_string()]);
    let query = build_port_query(Platform::Posix, 0);
    assert_eq!(query.args[1], ":0");
    let query = build_port_query(Platform::Posix, 65535);
    assert_eq!(query.args[1], ":65535");
    let query = build_port_query(Platform::Posix, 1420);
    assert_eq!(query.args[1], format!(":{}", 1420));
}

#[test]
fn windows_port_query_is_netstat() {
    let query = build_port_query(Platform::Windows, 3000);
    assert_eq!(query.program, "netstat");
    assert_eq!(query.args, vec!["-ano".to_string()]);
}

#[test]
fn lsof_listing_names_one_holder_per_line() {
    let plan = kill_port_process(Platform::Posix, 3000, "123\n456\n");
    let mut expected = escalation(123);
    expected.extend(escalation(456));
    assert_eq!(plan, expected);
}

#[test]
fn lsof_listing_without_final_line_feed() {
    assert_eq!(kill_port_process(Platform::Posix, 3000, "99"), escalation(99));
}

#[test]
fn lsof_listing_ignores_what_is_not_a_number() {
    let listing = "\n  42  \r\nlsof: warning\n\n12a\n 7\t\n";
    let mut expected = escalation(42);
    expected.extend(escalation(7));
    assert_eq!(kill_port_process(Platform::Posix, 3000, listing), expected);
    assert_eq!(kill_port_process(Platform::Posix, 3000, ""), vec![]);
    assert_eq!(kill_port_process(Platform::Posix, 3000, "\n\n"), vec![]);
}

#[test]
fn lsof_listing_signals_positive_ids_only() {
    let listing = "1\n+2\n-3\n 2147483647\n2147483648\n-2147483648\n-2147483649\n0x10\n\u{a0}5\u{3000}\n--1\n+\n-\n007\n1 2\n0\n-1\n-0\n+0\n";
    let mut expected = Vec::new();
    for line in listing.lines() {
        if let Ok(pid) = line.trim().parse::<i32>() {
            if pid > 0 {
                expected.extend(escalation(pid));
            }
        }
    }
    assert_eq!(expected.len(), 5 * 3);
    let plan = kill_port_process(Platform::Posix, 1, listing);
    assert_eq!(plan, expected);
    let mut holders = Vec::new();
    for action in &plan {
        if let KillAction::Signal { target, signal: Signal::Terminate } = action {
            holders.push(*target);
        }
    }
    assert_eq!(holders, vec![1, 2, 2147483647, 5, 7]);
}

#[test]
fn lsof_listing_never_addresses_groups_or_everything() {
    assert_eq!(kill_port_process(Platform::Posix, 3000, "0"), vec![]);
    assert_eq!(kill_port_process(Platform::Posix, 3000, "-1"), vec![]);
    assert_eq!(kill_port_process(Platform::Posix, 3000, "-4242\n"), vec![]);
    assert_eq!(kill_port_process(Platform::Posix, 3000, " 0 \n-1\n12\n"), escalation(12));
}

#[test]
fn netstat_listing_skips_the_id_zero() {
    let listing = "TCP 0.0.0.0:80 x LISTENING 0\nTCP 0.0.0.0:80 x LISTENING 9\n";
    assert_eq!(
        kill_port_process(Platform::Windows, 80, listing),
        vec![KillAction::KillTree { pid: 9, recursive: false }]
    );
}

#[test]
fn netstat_listing_names_the_holder_last() {
    let listing = "\r\nActive Connections\r\n\r\n  Proto  Local Address          Foreign Address        State           PID\r\n  TCP    0.0.0.0:3000           0.0.0.0:0              LISTENING       4242\r\n  TCP    0.0.0.0:5173           0.0.0.0:0              LISTENING       5151\r\n  TCP    127.0.0.1:3000         127.0.0.1:50000        ESTABLISHED     4242\r\n  TCP    [::]:3000              [::]:0                 LISTENING       77\r\n";
    assert_eq!(
        kill_port_process(Platform::Windows, 3000, listing),
        vec![
            KillAction::KillTree { pid: 4242, recursive: false },
            KillAction::KillTree { pid: 77, recursive: false },
        ]
    );
    assert_eq!(
        kill_port_process(Platform::Windows, 5173, listing),
        vec![KillAction::KillTree { pid: 5151, recursive: false }]
    );
    assert_eq!(kill_port_process(Platform::Windows, 8080, listing), vec![]);
}

#[test]
fn netstat_listing_matches_the_local_port_exactly() {
    let listing = "  TCP    0.0.0.0:8080    0.0.0.0:0      LISTENING   1\r\n  TCP    0.0.0.0:180     0.0.0.0:0      LISTENING   2\r\n  TCP    0.0.0.0:80      0.0.0.0:0      LISTENING   3\r\n  TCP    10.0.0.5:50000  93.184.216.34:80  ESTABLISHED  4\r\n  TCP    0.0.0.0:443     0.0.0.0:80     LISTENING   5\r\n  TCP    [::]:80         [::]:0         LISTENING   6\r\n";
    assert_eq!(
        kill_port_process(Platform::Windows, 80, listing),
        vec![
            KillAction::KillTree { pid: 3, recursive: false },
            KillAction::KillTree { pid: 6, recursive: false },
        ]
    );
    assert_eq!(
        kill_port_process(Platform::Windows, 8080, listing),
        vec![KillAction::KillTree { pid: 1, recursive: false }]
    );
    assert_eq!(kill_port_process(Platform::Windows, 0, listing), vec![]);
    assert_eq!(kill_port_process(Platform::Windows, 8, listing), vec![]);
}

#[test]
fn netstat_listing_ignores_malformed_lines() {
    let listing = "TCP 0.0.0.0:80 LISTENING 1\nLISTENING :80 x y 2\nTCP 0.0.0.0:80 x LISTENING\nTCP 0.0.0.0:80 x LISTENING -5\nTCP 0.0.0.0:80 x LISTENING +6   \nTCP 0.0.0.0:80 x LISTENING 4294967295\nTCP 0.0.0.0:80 x LISTENING 4294967296\nTCP 0.0.0.0:80 x listening 7\n:80LISTENING 8\n";
    assert_eq!(
        kill_port_process(Platform::Windows, 80, listing),
        vec![
            KillAction::KillTree { pid: 6, recursive: false },
            KillAction::KillTree { pid: 4294967295, recursive: false },
        ]
    );
}

#[test]
fn reading_signed_integers() {
    assert_eq!(parse_i32("0"), Some(0));
    assert_eq!(parse_i32("-0"), Some(0));
    assert_eq!(parse_i32("+17"), Some(17));
    assert_eq!(parse_i32("-17"), Some(-17));
    assert_eq!(parse_i32("0042"), Some(42));
    assert_eq!(parse_i32("2147483647"), Some(i32::MAX));
    assert_eq!(parse_i32("2147483648"), None);
    assert_eq!(parse_i32("-2147483648"), Some(i32::MIN));
    assert_eq!(parse_i32("-2147483649"), None);
    assert_eq!(parse_i32("99999999999999999999999999"), None);
    assert_eq!(parse_i32("00000000000000000000000001"), Some(1));
    assert_eq!(parse_i32(""), None);
    assert_eq!(parse_i32("+"), None);
    assert_eq!(parse_i32("-"), None);
    assert_eq!(parse_i32(" 1"), None);
    assert_eq!(parse_i32("1 "), None);
    assert_eq!(parse_i32("1x"), None);
    assert_eq!(parse_i32("\u{661}"), None);
    for s in ["12", "-12", "+12", "--12", "1-2", "４２", "2147483650", "-2147483650"] {
        assert_eq!(parse_i32(s), s.parse::<i32>().ok());
    }
}

#[test]
fn reading_unsigned_integers() {
    assert_eq!(parse_u32("0"), Some(0));
    assert_eq!(parse_u32("+9"), Some(9));
    assert_eq!(parse_u32("-9"), None);
    assert_eq!(parse_u32("-0"), None);
    assert_eq!(parse_u32("4294967295"), Some(u32::MAX));
    assert_eq!(parse_u32("4294967296"), None);
    assert_eq!(parse_u32(""), None);
    assert_eq!(parse_u32("+"), None);
    for s in ["12", "-12", "+12", "99999999999", "1e3"] {
        assert_eq!(parse_u32(s), s.parse::<u32>().ok());
    }
}

#[test]
fn trimming_removes_unicode_white_space() {
    assert_eq!(trimmed("  a b \t\r\n"), "a b");
    assert_eq!(trimmed("\u{a0}\u{2003}x\u{3000}\u{85}"), "x");
    assert_eq!(trimmed("   "), "");
    assert_eq!(trimmed(""), "");
    assert_eq!(trimmed("\u{200b}x"), "\u{200b}x");
    for s in [" \u{1680}a\u{2028}", "\u{b}\u{c}z\u{2029}\u{202f}\u{205f}", "\u{feff}q "] {
        assert_eq!(trimmed(s), s.trim());
    }
}

#[test]
fn string_comparison_and_characters() {
    assert!(str_eq("abc", "abc"));
    assert!(str_eq("", ""));
    assert!(!str_eq("abc", "abd"));
    assert!(!str_eq("abc", "ab"));
    assert!(!str_eq("é", "e"));
    assert_eq!(to_chars("hé!"), vec!['h', 'é', '!']);
    assert_eq!(to_chars(""), Vec::<char>::new());
}

#[test]
fn signal_targets() {
    assert_eq!(target_of_process(1234), Some(1234));
    assert_eq!(target_of_process(1), Some(1));
    assert_eq!(target_of_process(0x7fff_ffff), Some(i32::MAX));
    assert_eq!(target_of_process(0), None);
    assert_eq!(target_of_process(0x8000_0000), None);
    assert_eq!(target_of_process(u32::MAX), None);
    assert_eq!(target_of_group(1234), Some(-1234));
    assert_eq!(target_of_group(2), Some(-2));
    assert_eq!(target_of_group(0x7fff_ffff), Some(-i32::MAX));
    assert_eq!(target_of_group(1), None);
    assert_eq!(target_of_group(0), None);
    assert_eq!(target_of_group(-7), None);
    assert_eq!(target_of_group(0x8000_0000), None);
}

#[test]
fn shell_variable_per_platform() {
    assert_eq!(shell_variable_name(Platform::Posix), "SHELL");
    assert_eq!(shell_variable_name(Platform::Windows), "ComSpec");
}

#[test]
fn shell_candidates_in_order_of_preference() {
    assert_eq!(
        list_shell_candidates(Platform::Posix, Some("/usr/bin/fish")),
        vec!["/usr/bin/fish", "/bin/bash", "/bin/zsh"]
    );
    assert_eq!(
        list_shell_candidates(Platform::Posix, None),
        vec!["/bin/bash", "/bin/bash", "/bin/zsh"]
    );
    assert_eq!(
        list_shell_candidates(Platform::Windows, None),
        vec!["C:\\Windows\\System32\\cmd.exe", "C:\\Windows\\System32\\cmd.exe"]
    );
    assert_eq!(
        list_shell_candidates(Platform::Windows, Some("D:\\tools\\sh.exe")),
        vec!["D:\\tools\\sh.exe", "C:\\Windows\\System32\\cmd.exe"]
    );
}

#[test]
fn default_shell_is_the_first_that_exists() {
    let fish = Some("/usr/bin/fish");
    assert_eq!(
        detect_default_shell(Platform::Posix, fish, &vec![true, true, true]),
        "/usr/bin/fish"
    );
    assert_eq!(
        detect_default_shell(Platform::Posix, fish, &vec![false, true, true]),
        "/bin/bash"
    );
    assert_eq!(
        detect_default_shell(Platform::Posix, fish, &vec![false, false, true]),
        "/bin/zsh"
    );
    assert_eq!(
        detect_default_shell(Platform::Posix, fish, &vec![false, false, false]),
        "/bin/sh"
    );
    assert_eq!(detect_default_shell(Platform::Posix, fish, &vec![]), "/bin/sh");
    assert_eq!(detect_default_shell(Platform::Posix, fish, &vec![false, true]), "/bin/bash");
    assert_eq!(detect_default_shell(Platform::Posix, None, &vec![true]), "/bin/bash");
    assert_eq!(
        detect_default_shell(Platform::Windows, None, &vec![false, false]),
        "cmd.exe"
    );
    assert_eq!(
        detect_default_shell(Platform::Windows, Some("D:\\sh.exe"), &vec![false, true]),
        "C:\\Windows\\System32\\cmd.exe"
    );
}
