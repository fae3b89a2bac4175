use aochatproxy::communication::{capabilities, SendMode};
use aochatproxy::text::{contains_str, parse_bool, parse_u32, render_u64, str_eq};

#[test]
fn send_mode_names() {
    assert_eq!(SendMode::RoundRobin.as_str(), "round-robin");
    assert_eq!(SendMode::ByCharId.as_str(), "by-charid");
    assert_eq!(SendMode::ByMsgId.as_str(), "by-msgid");
    assert_eq!(SendMode::ByWorker.as_str(), "by-worker");
    assert_eq!(SendMode::Default.as_str(), "proxy-default");
}

#[test]
fn send_mode_default_is_round_robin() {
    assert_eq!(SendMode::default(), SendMode::RoundRobin);
}

#[test]
fn capabilities_answer_lists_workers_and_modes() {
    let workers = vec![String::from("charname1"), String::from("charname2")];
    let text = capabilities("5.0.0", SendMode::RoundRobin, &workers, 5791571957557915);
    assert_eq!(
        text,
        "{\"name\": \"aochatproxy\", \"version\": \"5.0.0\", \"type\": \"capabilities\", \
         \"supported-cmds\": [\"capabilities\", \"ping\"], \"rate-limited\": true, \
         \"default-mode\": \"round-robin\", \"workers\": [\"charname1\", \"charname2\"], \
         \"started-at\": 5791571957557915, \"send-modes\": [\"round-robin\", \"by-charid\", \
         \"by-msgid\", \"proxy-default\", \"by-worker\"], \"buddy-modes\": [\"by-worker\"]}"
    );
}

#[test]
fn capabilities_without_workers() {
    let text = capabilities("1.2.3", SendMode::ByCharId, &Vec::new(), 0);
    assert!(text.contains("\"default-mode\": \"by-charid\", \"workers\": [], \"started-at\": 0,"));
    assert!(text.contains("\"version\": \"1.2.3\""));
}

#[test]
fn capabilities_escape_worker_names() {
    let workers = vec![String::from("a\"b")];
    let text = capabilities("5.0.0", SendMode::RoundRobin, &workers, 1);
    assert!(text.contains("\"workers\": [\"a\\\"b\"]"));
}

#[test]
fn parse_u32_like_std() {
    for s in ["9993", "+12", "0", "007", "4294967295", "", "+", "-1", "4294967296", "12a", " 1", "1_000", "99999999999999999999"] {
        assert_eq!(parse_u32(s), s.parse::<u32>().ok(), "input {:?}", s);
    }
    assert_eq!(parse_u32("+12"), Some(12));
    assert_eq!(parse_u32("4294967296"), None);
}

#[test]
fn parse_bool_like_std() {
    for s in ["true", "false", "True", "1", "", "false "] {
        assert_eq!(parse_bool(s), s.parse::<bool>().ok(), "input {:?}", s);
    }
}

#[test]
fn decimal_rendering() {
    assert_eq!(render_u64(0), "0");
    assert_eq!(render_u64(10), "10");
    assert_eq!(render_u64(1234567890), "1234567890");
    assert_eq!(render_u64(u64::MAX), u64::MAX.to_string());
}

#[test]
fn string_comparison_and_search() {
    assert!(str_eq("spam", "spam"));
    assert!(!str_eq("spam", "spa"));
    assert!(!str_eq("\u{0}", ""));
    assert!(contains_str("abc<div>x</div>def", "<div>x</div>"));
    assert!(contains_str("abc", ""));
    assert!(!contains_str("ab", "abc"));
    assert!(!contains_str("aab", "abb"));
    assert!(contains_str("héllo wörld", "ö"));
}
