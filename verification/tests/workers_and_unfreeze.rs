use aochatproxy::select::select_all;
use aochatproxy::unfreeze::{
    classify, cookies_from, login_form, HttpOutcome, Unfreeze, UnfreezeAction, UnfreezeResult,
    UnfreezeStep,
};
use aochatproxy::worker::{
    find_character, main_packet, pending_is_kept, worker_identifier, worker_packet, BuddyBook,
    CharacterEntry, WorkerAction, WorkerEvent,
};

#[test]
fn finishing_hands_back_the_others() {
    let mut s = select_all(vec!['a', 'b', 'c', 'd']);
    let rest = s.finish(1);
    assert_eq!(rest, vec!['a', 'd', 'c']);
    assert!(s.inner.is_empty());
    let mut s = select_all(vec![1, 2]);
    assert_eq!(s.finish(1), vec![1]);
}

#[test]
fn buddy_book_counts_pending_and_confirmed() {
    let mut b = BuddyBook::new();
    assert_eq!(b.total_buddies(), 0);
    b.buddy_add_sent(10, 100);
    b.buddy_add_sent(11, 100);
    assert_eq!(b.total_buddies(), 2);
    assert!(!b.has_buddy(10));
    b.buddy_confirmed(10);
    assert!(b.has_buddy(10));
    assert_eq!(b.buddy_count(), 1);
    assert_eq!(b.pending_count(), 1);
    assert_eq!(b.total_buddies(), 2);
    b.buddy_removed(10);
    assert!(!b.has_buddy(10));
    assert_eq!(b.total_buddies(), 1);
}

#[test]
fn sweeping_keeps_old_requests() {
    let mut b = BuddyBook::new();
    b.buddy_add_sent(1, 0);
    b.buddy_add_sent(2, 5_000_000_000);
    b.sweep_pending(12_000_000_000);
    assert_eq!(b.pending_count(), 1);
    b.sweep_pending(12_000_000_000);
    assert_eq!(b.pending_count(), 1);
    b.sweep_pending(10_000_000_000);
    assert_eq!(b.pending_count(), 0);
    assert!(pending_is_kept(0, 10_000_000_001));
    assert!(!pending_is_kept(0, 10_000_000_000));
    assert!(!pending_is_kept(5, 3));
}

fn chars() -> Vec<CharacterEntry> {
    vec![
        CharacterEntry { id: 1, name: "Alpha".to_string() },
        CharacterEntry { id: 2, name: "Beta".to_string() },
        CharacterEntry { id: 3, name: "Beta".to_string() },
    ]
}

#[test]
fn characters_are_found_by_name() {
    assert_eq!(find_character(&chars(), "Beta"), Some(2));
    assert_eq!(find_character(&chars(), "beta"), None);
    assert_eq!(find_character(&Vec::new(), "Beta"), None);
}

#[test]
fn worker_packets() {
    let mut b = BuddyBook::new();
    assert_eq!(worker_packet(&WorkerEvent::LoginOk, false, "Beta", &mut b), WorkerAction::Forward);
    assert_eq!(worker_packet(&WorkerEvent::LoginError, false, "Beta", &mut b), WorkerAction::Stop);
    assert_eq!(worker_packet(&WorkerEvent::LoginSeed, false, "Beta", &mut b), WorkerAction::LogIn);
    let list = WorkerEvent::LoginCharlist { characters: chars() };
    assert_eq!(worker_packet(&list, false, "Beta", &mut b), WorkerAction::SelectCharacter(2));
    assert_eq!(worker_packet(&list, false, "Gamma", &mut b), WorkerAction::CharacterMissing);
    assert_eq!(worker_packet(&WorkerEvent::MsgPrivate, false, "Beta", &mut b), WorkerAction::Ignore);
    assert_eq!(worker_packet(&WorkerEvent::MsgPrivate, true, "Beta", &mut b), WorkerAction::ForwardTagged);
    let ping = WorkerEvent::Ping { client: "nadylib".to_string() };
    assert_eq!(worker_packet(&ping, false, "Beta", &mut b), WorkerAction::Ignore);
    let ping = WorkerEvent::Ping { client: "other".to_string() };
    assert_eq!(worker_packet(&ping, false, "Beta", &mut b), WorkerAction::Forward);
    b.buddy_add_sent(9, 0);
    let status = WorkerEvent::BuddyStatus { character_id: 9 };
    assert_eq!(worker_packet(&status, false, "Beta", &mut b), WorkerAction::ForwardTagged);
    assert!(b.has_buddy(9));
    assert_eq!(b.pending_count(), 0);
    let removed = WorkerEvent::BuddyRemove { character_id: 9 };
    assert_eq!(worker_packet(&removed, false, "Beta", &mut b), WorkerAction::Forward);
    assert!(!b.has_buddy(9));
    assert_eq!(worker_packet(&WorkerEvent::Other, true, "Beta", &mut b), WorkerAction::Ignore);
}

#[test]
fn main_packets() {
    let mut b = BuddyBook::new();
    assert!(main_packet(&WorkerEvent::LoginOk, &mut b));
    assert!(!main_packet(&WorkerEvent::BuddyStatus { character_id: 4 }, &mut b));
    assert!(b.has_buddy(4));
    assert!(!main_packet(&WorkerEvent::BuddyRemove { character_id: 4 }, &mut b));
    assert!(!b.has_buddy(4));
}

#[test]
fn worker_identifiers() {
    assert_eq!(worker_identifier(1, "mychar1"), "{\"id\": 1, \"name\": \"mychar1\"}");
    assert_eq!(worker_identifier(12, "a\"b"), "{\"id\": 12, \"name\": \"a\\\"b\"}");
}

#[test]
fn unfreeze_results() {
    assert!(UnfreezeResult::Unfrozen.should_continue());
    assert!(UnfreezeResult::NotFrozen.should_continue());
    assert!(!UnfreezeResult::Failed.should_continue());
    assert_eq!(classify("x<div>Subscription Reactivated</div>y"), UnfreezeResult::Unfrozen);
    assert_eq!(
        classify("<div>This account is not cancelled or frozen</div>"),
        UnfreezeResult::NotFrozen
    );
    assert_eq!(classify("<div>Error</div>"), UnfreezeResult::Failed);
}

#[test]
fn login_form_is_urlencoded() {
    assert_eq!(login_form("myacc", "p@ss word"), "__ac_name=myacc&__ac_password=p%40ss+word");
}

#[test]
fn cookie_header_from_set_cookie() {
    let values = vec![
        Some("a=1; Path=/".to_string()),
        None,
        Some("b=2".to_string()),
        Some("c=3;HttpOnly".to_string()),
    ];
    assert_eq!(cookies_from(&values), "a=1; b=2; c=3");
    assert_eq!(cookies_from(&vec![None, Some(";x".to_string())]), "");
    assert_eq!(cookies_from(&Vec::new()), "");
}

#[test]
fn unfreeze_conversation() {
    let (mut u, first) = Unfreeze::start("MyAcc", "pw");
    assert_eq!(u.username, "myacc");
    assert_eq!(first.url, "https://register.funcom.com/account");
    assert_eq!(first.body, "__ac_name=myacc&__ac_password=pw");
    assert!(first.cookie.is_none());

    match u.on_outcome(HttpOutcome::TimedOut) {
        UnfreezeAction::Send(p) => assert_eq!(p.body, first.body),
        _ => panic!("expected the login again"),
    }
    match u.on_outcome(HttpOutcome::Response { status: 200, set_cookies: Vec::new() }) {
        UnfreezeAction::Send(p) => assert_eq!(p.url, first.url),
        _ => panic!("expected the login again"),
    }
    let cookies = vec![Some("session=abc; Path=/".to_string())];
    let next = u.on_outcome(HttpOutcome::Response { status: 302, set_cookies: cookies });
    assert_eq!(u.step, UnfreezeStep::Reactivating);
    let url = "https://register.funcom.com/account/subscription/ctrl/anarchy/myacc/reactivate";
    match next {
        UnfreezeAction::Send(p) => {
            assert_eq!(p.url, url);
            assert_eq!(p.referer, url);
            assert_eq!(p.cookie.as_deref(), Some("session=abc"));
            assert_eq!(p.body, "process=submit");
        }
        _ => panic!("expected the reactivation"),
    }
    match u.on_outcome(HttpOutcome::Failed) {
        UnfreezeAction::Send(p) => assert_eq!(p.url, url),
        _ => panic!("expected the reactivation again"),
    }
    assert!(matches!(
        u.on_outcome(HttpOutcome::Response { status: 200, set_cookies: Vec::new() }),
        UnfreezeAction::ReadBody
    ));
    let body = b"<html>\xff<div>Subscription Reactivated</div></html>";
    assert_eq!(u.on_body(body), UnfreezeResult::Unfrozen);
    assert_eq!(u.step, UnfreezeStep::Finished(UnfreezeResult::Unfrozen));
}
