use aochatproxy::communication::{BuddyAddPayload, Command, CommandPayload, SendMessagePayload, SendMode};
use aochatproxy::config::{AccountData, Config};
use aochatproxy::routing::{forced_buddy_worker, least_buddies, ping_action, PingAction, Router, TellRequest};

fn config(accounts: usize, over_main: bool, mode: SendMode) -> Config {
    let mut c = Config::default();
    for i in 0..accounts {
        c.accounts.push(AccountData {
            username: format!("u{}", i),
            password: "p".to_string(),
            character: format!("c{}", i),
        });
    }
    c.send_tells_over_main = over_main;
    c.default_mode = mode;
    c
}

#[test]
fn new_router_starts_after_main_when_main_sends_no_tells() {
    let r = Router::new(&config(3, false, SendMode::RoundRobin));
    assert_eq!(r.account_num, 3);
    assert_eq!(r.start_at, 1);
    assert_eq!(r.current_buddy, 1);
    assert_eq!(r.current_lookup, 0);
    let r = Router::new(&config(3, true, SendMode::RoundRobin));
    assert_eq!(r.start_at, 0);
}

#[test]
fn tags_select_the_request() {
    let r = Router::new(&config(2, true, SendMode::ByCharId));
    assert_eq!(r.tell_request("\u{0}", None), None);
    assert_eq!(
        r.tell_request("spam", None),
        Some(TellRequest { mode: SendMode::ByCharId, msgid: None, worker: None })
    );
    assert_eq!(
        r.tell_request("whatever", None),
        Some(TellRequest { mode: SendMode::ByWorker, msgid: None, worker: Some(0) })
    );
    let p = SendMessagePayload { mode: SendMode::Default, msgid: Some(4), worker: None };
    assert_eq!(
        r.tell_request("{\"mode\":\"proxy-default\",\"msgid\":4}", Some(p)),
        Some(TellRequest { mode: SendMode::ByCharId, msgid: Some(4), worker: None })
    );
    let p = SendMessagePayload { mode: SendMode::ByWorker, msgid: None, worker: Some(2) };
    assert_eq!(
        r.tell_request("{}", Some(p)),
        Some(TellRequest { mode: SendMode::ByWorker, msgid: None, worker: Some(2) })
    );
    let mut c = config(2, true, SendMode::RoundRobin);
    c.spam_bot_support = false;
    let r = Router::new(&c);
    assert_eq!(r.tell_request("spam", None), None);
}

#[test]
fn round_robin_cycles_over_workers() {
    let mut r = Router::new(&config(3, false, SendMode::RoundRobin));
    let spam = r.tell_request("spam", None);
    let got: Vec<usize> = (0..7).map(|_| r.route_tell(spam, 77)).collect();
    assert_eq!(got, vec![2, 3, 1, 2, 3, 1, 2]);

    let mut r = Router::new(&config(2, true, SendMode::RoundRobin));
    let got: Vec<usize> = (0..4).map(|_| r.route_tell(spam, 77)).collect();
    assert_eq!(got, vec![1, 2, 0, 1]);
}

#[test]
fn plain_tells_go_over_main() {
    let mut r = Router::new(&config(3, false, SendMode::RoundRobin));
    assert_eq!(r.route_tell(None, 5), 0);
    assert_eq!(r.current_buddy, 0);
}

#[test]
fn keyed_tells() {
    let mut r = Router::new(&config(3, false, SendMode::ByCharId));
    let by_char = Some(TellRequest { mode: SendMode::ByCharId, msgid: None, worker: None });
    assert_eq!(r.route_tell(by_char, 7), 7 % 3 + 1);
    assert_eq!(r.route_tell(by_char, 7), 2);
    // by-msgid under a by-charid default goes by character
    let by_msg = Some(TellRequest { mode: SendMode::ByMsgId, msgid: Some(5), worker: None });
    assert_eq!(r.route_tell(by_msg, 9), 9 % 3 + 1);

    let mut r = Router::new(&config(3, true, SendMode::RoundRobin));
    assert_eq!(r.route_tell(by_msg, 9), 5 % 4);
    assert_eq!(r.route_tell(by_char, 9), 9 % 4);
    let no_id = Some(TellRequest { mode: SendMode::ByMsgId, msgid: None, worker: None });
    assert_eq!(r.route_tell(no_id, 9), 1);
}

#[test]
fn tells_for_a_worker() {
    let mut r = Router::new(&config(3, true, SendMode::RoundRobin));
    let w = |n| Some(TellRequest { mode: SendMode::ByWorker, msgid: None, worker: Some(n) });
    assert_eq!(r.route_tell(w(2), 0), 2);
    assert_eq!(r.route_tell(w(5), 0), 1);
    assert_eq!(r.route_tell(w(0), 0), 0);
    let mut r = Router::new(&config(3, false, SendMode::RoundRobin));
    assert_eq!(r.route_tell(w(1), 0), 1);
    assert_eq!(r.route_tell(w(3), 0), 3);
    assert_eq!(r.route_tell(w(4), 0), 1);
    let none = Some(TellRequest { mode: SendMode::ByWorker, msgid: None, worker: None });
    assert_eq!(r.route_tell(none, 0), 1);
}

#[test]
fn lookups_go_round_all_connections() {
    let mut r = Router::new(&config(2, false, SendMode::RoundRobin));
    let got: Vec<usize> = (0..5).map(|_| r.next_lookup()).collect();
    assert_eq!(got, vec![0, 1, 2, 0, 1]);
}

#[test]
fn buddies_go_to_the_least_loaded_worker() {
    assert_eq!(least_buddies(&vec![5, 3, 4, 3]), 1);
    assert_eq!(least_buddies(&vec![0, 3]), 0);
    assert_eq!(least_buddies(&vec![7]), 0);
    assert_eq!(least_buddies(&vec![9, 8, 7]), 2);
}

#[test]
fn forced_buddy_workers() {
    assert_eq!(forced_buddy_worker(BuddyAddPayload { worker: 3 }, 3), Some(3));
    assert_eq!(forced_buddy_worker(BuddyAddPayload { worker: 4 }, 3), None);
    assert_eq!(forced_buddy_worker(BuddyAddPayload { worker: 0 }, 0), Some(0));
}

#[test]
fn ping_commands() {
    assert!(matches!(ping_action(None), PingAction::ForwardToMain));
    let caps = CommandPayload { cmd: Command::Capabilities, worker: None, payload: None };
    assert!(matches!(ping_action(Some(caps)), PingAction::ReplyCapabilities));
    let ping = CommandPayload { cmd: Command::Ping, worker: Some(2), payload: Some("x".to_string()) };
    match ping_action(Some(ping)) {
        PingAction::SendToWorker { worker, payload } => {
            assert_eq!(worker, 2);
            assert_eq!(payload, "x");
        }
        _ => panic!("expected a ping to a worker"),
    }
    let ping = CommandPayload { cmd: Command::Ping, worker: Some(2), payload: None };
    assert!(matches!(ping_action(Some(ping)), PingAction::Ignore));
}
