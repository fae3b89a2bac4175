use aochatproxy::communication::SendMode;
use aochatproxy::config::{
    should_warn_defaults, AccountData, Config, ConfigError, EnvVars, EnvWorker,
};

fn no_env() -> EnvVars {
    EnvVars {
        workers: Vec::new(),
        server_address: None,
        proxy_port_number: None,
        spam_bot_support: None,
        send_tells_over_main: None,
        relay_worker_tells: None,
        default_mode: None,
        rust_log: None,
    }
}

fn account(u: &str, p: &str, c: &str) -> AccountData {
    AccountData { username: u.to_string(), password: p.to_string(), character: c.to_string() }
}

fn worker(u: Option<&str>, p: Option<&str>, c: &str) -> EnvWorker {
    EnvWorker {
        username: u.map(String::from),
        password: p.map(String::from),
        character: c.to_string(),
    }
}

#[test]
fn defaults() {
    let c = Config::default();
    assert_eq!(c.rust_log, "info");
    assert_eq!(c.port_number, 9993);
    assert!(c.accounts.is_empty());
    assert_eq!(c.server_address, "chat.d1.funcom.com:7105");
    assert!(c.spam_bot_support);
    assert!(c.send_tells_over_main);
    assert!(!c.relay_worker_tells);
    assert_eq!(c.default_mode, SendMode::RoundRobin);
    assert!(c.auto_unfreeze_accounts);
    assert!(c.unfreeze_accounts_with_proxy);
}

#[test]
fn empty_environment_changes_nothing() {
    let mut c = Config::default();
    let n = c.mash_with_env(&no_env()).ok().unwrap();
    assert_eq!(n, 0);
    assert_eq!(c.port_number, 9993);
    assert!(should_warn_defaults(false, n));
    assert!(!should_warn_defaults(true, n));
    assert!(!should_warn_defaults(false, 3));
}

#[test]
fn environment_overrides_settings() {
    let mut c = Config::default();
    let mut env = no_env();
    env.server_address = Some("127.0.0.1:7000".to_string());
    env.proxy_port_number = Some("1234".to_string());
    env.spam_bot_support = Some("false".to_string());
    env.send_tells_over_main = Some("false".to_string());
    env.relay_worker_tells = Some("true".to_string());
    env.default_mode = Some("by-charid".to_string());
    env.rust_log = Some("debug".to_string());
    assert_eq!(c.changes_from_env(&env), Some(7));
    let n = c.mash_with_env(&env).ok().unwrap();
    assert_eq!(n, 7);
    assert_eq!(c.server_address, "127.0.0.1:7000");
    assert_eq!(c.port_number, 1234);
    assert!(!c.spam_bot_support);
    assert!(!c.send_tells_over_main);
    assert!(c.relay_worker_tells);
    assert_eq!(c.default_mode, SendMode::ByCharId);
    assert_eq!(c.rust_log, "debug");
}

#[test]
fn unreadable_values_are_skipped() {
    let mut c = Config::default();
    let mut env = no_env();
    env.proxy_port_number = Some("99999999999".to_string());
    env.spam_bot_support = Some("yes".to_string());
    env.default_mode = Some("by-worker".to_string());
    let n = c.mash_with_env(&env).ok().unwrap();
    // DEFAULT_MODE counts even when it names no usable mode
    assert_eq!(n, 1);
    assert_eq!(c.port_number, 9993);
    assert!(c.spam_bot_support);
    assert_eq!(c.default_mode, SendMode::RoundRobin);
}

#[test]
fn workers_from_environment_borrow_missing_logins() {
    let mut c = Config::default();
    c.accounts.push(account("acc1", "pw1", "char1"));
    let mut env = no_env();
    env.workers.push(worker(None, None, "char2"));
    env.workers.push(worker(Some("acc3"), None, "char3"));
    let n = c.mash_with_env(&env).ok().unwrap();
    assert_eq!(n, 2);
    assert_eq!(c.accounts.len(), 3);
    assert_eq!(c.accounts[1].username, "acc1");
    assert_eq!(c.accounts[1].password, "pw1");
    assert_eq!(c.accounts[1].character, "char2");
    assert_eq!(c.accounts[2].username, "acc3");
    assert_eq!(c.accounts[2].password, "pw1");
    assert_eq!(c.accounts[2].character, "char3");
}

#[test]
fn workers_without_login_and_no_account_stop() {
    let mut c = Config::default();
    let mut env = no_env();
    env.workers.push(worker(Some("acc1"), None, "char1"));
    env.workers.push(worker(Some("acc2"), Some("pw2"), "char2"));
    let n = c.mash_with_env(&env).ok().unwrap();
    assert_eq!(n, 0);
    assert!(c.accounts.is_empty());

    let mut c = Config::default();
    let mut env = no_env();
    env.workers.push(worker(Some("acc1"), Some("pw1"), "char1"));
    env.workers.push(worker(None, None, "char2"));
    assert_eq!(c.mash_with_env(&env).ok().unwrap(), 2);
    assert_eq!(c.accounts[1].username, "acc1");
}

#[test]
fn validation() {
    let c = Config::default();
    assert!(c.validate_self().is_ok());

    let mut c = Config::default();
    c.default_mode = SendMode::ByMsgId;
    match c.validate_self() {
        Err(ConfigError::InvalidConfig(m)) => {
            assert_eq!(m, "default_mode must be round-robin or by-charid")
        }
        _ => panic!("expected an invalid default mode"),
    }

    let mut c = Config::default();
    c.send_tells_over_main = false;
    let e = c.validate_self().err().unwrap();
    assert_eq!(
        e.message(),
        "When SPAM_BOT_SUPPORT is true and SEND_TELLS_OVER_MAIN is disabled, at least one worker needs to be configured"
    );
    c.accounts.push(account("a", "b", "c"));
    assert!(c.validate_self().is_ok());
    c.accounts.clear();
    c.spam_bot_support = false;
    assert!(c.validate_self().is_ok());
}

#[test]
fn error_messages() {
    let e = ConfigError::NotFound("config.json".to_string());
    assert_eq!(e.message(), "file config.json not found or access denied");
    let e = ConfigError::InvalidConfig("bad".to_string());
    assert_eq!(e.message(), "bad");
}

#[test]
fn change_count_is_known_beforehand() {
    let c = Config::default();
    let mut env = no_env();
    for i in 0..300 {
        env.workers.push(worker(Some("u"), Some("p"), &format!("c{}", i)));
    }
    assert_eq!(c.changes_from_env(&env), None);
    env.workers.truncate(255);
    assert_eq!(c.changes_from_env(&env), Some(255));
    env.rust_log = Some("warn".to_string());
    assert_eq!(c.changes_from_env(&env), None);
    let mut env = no_env();
    env.workers.push(worker(None, Some("p"), "c"));
    env.workers.push(worker(Some("u"), Some("p"), "d"));
    assert_eq!(c.changes_from_env(&env), Some(0));
}
