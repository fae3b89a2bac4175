//! The proxy's configuration: its defaults, how environment variables
//! override it, and when it is refused.

use vstd::prelude::*;

use crate::communication::SendMode;
use crate::text::{parse_bool, parse_u32, parsed_bool, parsed_u32, str_eq};

verus! {

/// Login data of one worker account.
#[derive(Clone, Debug)]
pub struct AccountData {
    pub username: String,
    pub password: String,
    pub character: String,
}

/// An account as three character sequences.
pub struct AccountView {
    pub username: Seq<char>,
    pub password: Seq<char>,
    pub character: Seq<char>,
}

impl View for AccountData {
    type V = AccountView;

    open spec fn view(&self) -> AccountView {
        AccountView { username: self.username@, password: self.password@, character: self.character@ }
    }
}

pub open spec fn accounts_view(accounts: Seq<AccountData>) -> Seq<AccountView> {
    accounts.map_values(|a: AccountData| a@)
}

#[derive(Clone, Debug)]
pub struct Config {
    pub rust_log: String,
    pub port_number: u32,
    pub accounts: Vec<AccountData>,
    pub server_address: String,
    pub spam_bot_support: bool,
    pub send_tells_over_main: bool,
    pub relay_worker_tells: bool,
    pub default_mode: SendMode,
    pub auto_unfreeze_accounts: bool,
    pub unfreeze_accounts_with_proxy: bool,
}

pub enum ConfigError {
    InvalidConfig(String),
    NotFound(String),
}

/// The message that describes a configuration error.
pub open spec fn config_error_message(e: ConfigError) -> Seq<char> {
    match e {
        ConfigError::InvalidConfig(s) => s@,
        ConfigError::NotFound(s) => "file "@ + s@ + " not found or access denied"@,
    }
}

impl ConfigError {
    /// The text that the error is displayed as.
    pub fn message(&self) -> (text: String)
        ensures
            text@ == config_error_message(*self),
    {
        match self {
            ConfigError::InvalidConfig(s) => s.clone(),
            ConfigError::NotFound(s) => {
                let mut text = String::from_str("file ");
                text.append(s.as_str());
                text.append(" not found or access denied");
                text
            },
        }
    }
}

impl Default for Config {
    /// The configuration that an empty JSON object gives.
    fn default() -> (c: Self)
        ensures
            c.rust_log@ == "info"@,
            c.port_number == 9993,
            c.accounts@.len() == 0,
            c.server_address@ == "chat.d1.funcom.com:7105"@,
            c.spam_bot_support,
            c.send_tells_over_main,
            !c.relay_worker_tells,
            c.default_mode == SendMode::RoundRobin,
            c.auto_unfreeze_accounts,
            c.unfreeze_accounts_with_proxy,
    {
        Config {
            rust_log: String::from_str("info"),
            port_number: 9993,
            accounts: Vec::new(),
            server_address: String::from_str("chat.d1.funcom.com:7105"),
            spam_bot_support: true,
            send_tells_over_main: true,
            relay_worker_tells: false,
            default_mode: SendMode::RoundRobin,
            auto_unfreeze_accounts: true,
            unfreeze_accounts_with_proxy: true,
        }
    }
}

/// The `WORKER<n>_USERNAME`, `WORKER<n>_PASSWORD` and `WORKER<n>_CHARACTERNAME`
/// variables of one worker number.
pub struct EnvWorker {
    pub username: Option<String>,
    pub password: Option<String>,
    pub character: String,
}

pub struct EnvWorkerView {
    pub username: Option<Seq<char>>,
    pub password: Option<Seq<char>>,
    pub character: Seq<char>,
}

pub open spec fn opt_string_view(s: Option<String>) -> Option<Seq<char>> {
    match s {
        Some(t) => Some(t@),
        None => None,
    }
}

impl View for EnvWorker {
    type V = EnvWorkerView;

    open spec fn view(&self) -> EnvWorkerView {
        EnvWorkerView {
            username: opt_string_view(self.username),
            password: opt_string_view(self.password),
            character: self.character@,
        }
    }
}

/// The environment variables that the configuration reads, as they were
/// found. `workers` holds the workers numbered 1, 2, ... up to the first
/// number without a `WORKER<n>_CHARACTERNAME`.
pub struct EnvVars {
    pub workers: Vec<EnvWorker>,
    pub server_address: Option<String>,
    pub proxy_port_number: Option<String>,
    pub spam_bot_support: Option<String>,
    pub send_tells_over_main: Option<String>,
    pub relay_worker_tells: Option<String>,
    pub default_mode: Option<String>,
    pub rust_log: Option<String>,
}

/// The accounts after the workers of the environment are added: each worker
/// becomes an account; a missing username or password is taken from the last
/// account; where there is no account to take it from, adding stops.
pub open spec fn merge_workers(accounts: Seq<AccountView>, workers: Seq<EnvWorkerView>) -> Seq<
    AccountView,
>
    decreases workers.len(),
{
    if workers.len() == 0 {
        accounts
    } else {
        let w = workers[0];
        if accounts.len() == 0 && (w.username is None || w.password is None) {
            accounts
        } else {
            let account = AccountView {
                username: match w.username {
                    Some(u) => u,
                    None => accounts.last().username,
                },
                password: match w.password {
                    Some(p) => p,
                    None => accounts.last().password,
                },
                character: w.character,
            };
            merge_workers(accounts.push(account), workers.drop_first())
        }
    }
}

pub open spec fn env_workers_view(workers: Seq<EnvWorker>) -> Seq<EnvWorkerView> {
    workers.map_values(|w: EnvWorker| w@)
}

pub open spec fn count_if(b: bool) -> nat {
    if b {
        1
    } else {
        0
    }
}

/// The mode that `DEFAULT_MODE` selects, if it names one.
pub open spec fn env_default_mode(name: Seq<char>) -> Option<SendMode> {
    if name == "round-robin"@ {
        Some(SendMode::RoundRobin)
    } else if name == "by-charid"@ {
        Some(SendMode::ByCharId)
    } else {
        None
    }
}

/// How many settings the environment changes: one per added account and one
/// per variable that is present and, where it must be read as a number or a
/// boolean, reads as one. `DEFAULT_MODE` counts whenever it is present.
pub open spec fn env_change_count(c: Config, env: EnvVars) -> nat {
    let accounts = accounts_view(c.accounts@);
    (merge_workers(accounts, env_workers_view(env.workers@)).len() - accounts.len()) as nat
        + count_if(env.server_address is Some) + count_if(
        env.proxy_port_number matches Some(p) && parsed_u32(p@) is Some,
    ) + count_if(env.spam_bot_support matches Some(s) && parsed_bool(s@) is Some) + count_if(
        env.send_tells_over_main matches Some(s) && parsed_bool(s@) is Some,
    ) + count_if(env.relay_worker_tells matches Some(s) && parsed_bool(s@) is Some) + count_if(
        env.default_mode is Some,
    ) + count_if(env.rust_log is Some)
}

pub open spec fn override_string(current: Seq<char>, found: Option<String>) -> Seq<char> {
    match found {
        Some(s) => s@,
        None => current,
    }
}

pub open spec fn override_bool(current: bool, found: Option<String>) -> bool {
    match found {
        Some(s) => match parsed_bool(s@) {
            Some(b) => b,
            None => current,
        },
        None => current,
    }
}

pub open spec fn override_port(current: u32, found: Option<String>) -> u32 {
    match found {
        Some(s) => match parsed_u32(s@) {
            Some(p) => p,
            None => current,
        },
        None => current,
    }
}

pub open spec fn override_mode(current: SendMode, found: Option<String>) -> SendMode {
    match found {
        Some(s) => match env_default_mode(s@) {
            Some(m) => m,
            None => current,
        },
        None => current,
    }
}

/// The configuration after the environment has been applied to it.
pub open spec fn config_with_env(c: Config, env: EnvVars, result: Config) -> bool {
    &&& accounts_view(result.accounts@) == merge_workers(
        accounts_view(c.accounts@),
        env_workers_view(env.workers@),
    )
    &&& result.server_address@ == override_string(c.server_address@, env.server_address)
    &&& result.port_number == override_port(c.port_number, env.proxy_port_number)
    &&& result.spam_bot_support == override_bool(c.spam_bot_support, env.spam_bot_support)
    &&& result.send_tells_over_main == override_bool(
        c.send_tells_over_main,
        env.send_tells_over_main,
    )
    &&& result.relay_worker_tells == override_bool(c.relay_worker_tells, env.relay_worker_tells)
    &&& result.default_mode == override_mode(c.default_mode, env.default_mode)
    &&& result.rust_log@ == override_string(c.rust_log@, env.rust_log)
    &&& result.auto_unfreeze_accounts == c.auto_unfreeze_accounts
    &&& result.unfreeze_accounts_with_proxy == c.unfreeze_accounts_with_proxy
}

/// The text of the error for a default mode other than round-robin or by-charid.
pub open spec fn bad_default_mode_message() -> Seq<char> {
    "default_mode must be round-robin or by-charid"@
}

/// The text of the error for spam support without any tell sender.
pub open spec fn no_worker_message() -> Seq<char> {
    "When SPAM_BOT_SUPPORT is true and SEND_TELLS_OVER_MAIN is disabled, at least one worker needs to be configured"@
}

/// A configuration the proxy can run with: tells have a default mode that
/// it can apply by itself, and spread tells have a sender.
pub open spec fn config_is_valid(c: Config) -> bool {
    &&& (c.default_mode == SendMode::ByCharId || c.default_mode == SendMode::RoundRobin)
    &&& !(c.spam_bot_support && !c.send_tells_over_main && c.accounts@.len() == 0)
}

/// Whether the proxy warns that it runs on its defaults: no file was read
/// and the environment changed nothing.
pub open spec fn warns_about_defaults(used_config: bool, changed_from_env: u8) -> bool {
    !used_config && changed_from_env == 0
}

pub fn should_warn_defaults(used_config: bool, changed_from_env: u8) -> (warn: bool)
    ensures
        warn == warns_about_defaults(used_config, changed_from_env),
{
    !used_config && changed_from_env == 0
}

fn apply_bool(target: &mut bool, found: &Option<String>, changed: &mut u8, bound: Ghost<nat>)
    requires
        *old(changed) + count_if(found matches Some(s) && parsed_bool(s@) is Some) <= bound@,
        bound@ <= 255,
    ensures
        *final(target) == override_bool(*old(target), *found),
        *final(changed) == *old(changed) + count_if(
            found matches Some(s) && parsed_bool(s@) is Some,
        ),
{
    if let Some(s) = found {
        if let Some(b) = parse_bool(s.as_str()) {
            *target = b;
            *changed = *changed + 1;
        }
    }
}

fn apply_string(target: &mut String, found: &Option<String>, changed: &mut u8, bound: Ghost<nat>)
    requires
        *old(changed) + count_if(found is Some) <= bound@,
        bound@ <= 255,
    ensures
        final(target)@ == override_string(old(target)@, *found),
        *final(changed) == *old(changed) + count_if(found is Some),
{
    if let Some(s) = found {
        *target = s.clone();
        *changed = *changed + 1;
    }
}

fn apply_port(target: &mut u32, found: &Option<String>, changed: &mut u8, bound: Ghost<nat>)
    requires
        *old(changed) + count_if(found matches Some(s) && parsed_u32(s@) is Some) <= bound@,
        bound@ <= 255,
    ensures
        *final(target) == override_port(*old(target), *found),
        *final(changed) == *old(changed) + count_if(
            found matches Some(s) && parsed_u32(s@) is Some,
        ),
{
    if let Some(s) = found {
        if let Some(p) = parse_u32(s.as_str()) {
            *target = p;
            *changed = *changed + 1;
        }
    }
}

fn apply_mode(target: &mut SendMode, found: &Option<String>, changed: &mut u8, bound: Ghost<nat>)
    requires
        *old(changed) + count_if(found is Some) <= bound@,
        bound@ <= 255,
    ensures
        *final(target) == override_mode(*old(target), *found),
        *final(changed) == *old(changed) + count_if(found is Some),
{
    if let Some(mode) = found {
        *changed = *changed + 1;
        if str_eq(mode.as_str(), "round-robin") {
            *target = SendMode::RoundRobin;
        } else if str_eq(mode.as_str(), "by-charid") {
            *target = SendMode::ByCharId;
        }
    }
}

proof fn lemma_merge_grows(accounts: Seq<AccountView>, workers: Seq<EnvWorkerView>)
    ensures
        merge_workers(accounts, workers).len() >= accounts.len(),
        accounts.len() > 0 ==> merge_workers(accounts, workers).len() == accounts.len()
            + workers.len(),
    decreases workers.len(),
{
    if workers.len() > 0 {
        let w = workers[0];
        if !(accounts.len() == 0 && (w.username is None || w.password is None)) {
            let account = AccountView {
                username: match w.username {
                    Some(u) => u,
                    None => accounts.last().username,
                },
                password: match w.password {
                    Some(p) => p,
                    None => accounts.last().password,
                },
                character: w.character,
            };
            lemma_merge_grows(accounts.push(account), workers.drop_first());
        }
    }
}

/// Adds the workers of the environment to the accounts, as `merge_workers`
/// says, and gives back how many were added.
fn add_env_workers(accounts: &mut Vec<AccountData>, env_workers: &Vec<EnvWorker>) -> (added: u8)
    requires
        merge_workers(accounts_view(old(accounts)@), env_workers_view(env_workers@)).len()
            - old(accounts)@.len() <= 255,
    ensures
        accounts_view(final(accounts)@) == merge_workers(
            accounts_view(old(accounts)@),
            env_workers_view(env_workers@),
        ),
        added == final(accounts)@.len() - old(accounts)@.len(),
{
    let ghost orig = accounts@;
    let ghost workers = env_workers_view(env_workers@);
    let ghost target = merge_workers(accounts_view(accounts@), workers);
    let mut added: u8 = 0;
    let mut i: usize = 0;
    proof {
        assert(workers.skip(0) =~= workers);
        lemma_merge_grows(accounts_view(orig), workers);
    }
    while i < env_workers.len()
        invariant
            i <= env_workers.len(),
            workers == env_workers_view(env_workers@),
            target == merge_workers(accounts_view(accounts@), workers.skip(i as int)),
            added == accounts@.len() - orig.len(),
            accounts@.len() >= orig.len(),
            target.len() - orig.len() <= 255,
        ensures
            accounts_view(accounts@) == target,
            added == accounts@.len() - orig.len(),
        decreases env_workers.len() - i,
    {
        let w = &env_workers[i];
        let ghost rest = workers.skip(i as int);
        assert(rest[0] == w@);
        assert(rest.drop_first() =~= workers.skip(i + 1));
        let n = accounts.len();
        if n == 0 && (w.username.is_none() || w.password.is_none()) {
            break;
        }
        let username = match &w.username {
            Some(u) => u.clone(),
            None => accounts[n - 1].username.clone(),
        };
        let password = match &w.password {
            Some(p) => p.clone(),
            None => accounts[n - 1].password.clone(),
        };
        let account = AccountData { username, password, character: w.character.clone() };
        let ghost before = accounts_view(accounts@);
        accounts.push(account);
        proof {
            assert(accounts_view(accounts@) =~= before.push(account@));
            lemma_merge_grows(accounts_view(accounts@), workers.skip(i + 1));
        }
        added = added + 1;
        i = i + 1;
    }
    added
}

proof fn lemma_merge_length(accounts: Seq<AccountView>, workers: Seq<EnvWorkerView>)
    ensures
        merge_workers(accounts, workers).len() - accounts.len() == if accounts.len() > 0 || (
        workers.len() > 0 && workers[0].username is Some && workers[0].password is Some) {
            workers.len()
        } else {
            0
        },
{
    lemma_merge_grows(accounts, workers);
    if accounts.len() == 0 && workers.len() > 0 && workers[0].username is Some
        && workers[0].password is Some {
        let w = workers[0];
        let account = AccountView {
            username: w.username->0,
            password: w.password->0,
            character: w.character,
        };
        lemma_merge_grows(accounts.push(account), workers.drop_first());
    }
}

/// The accounts that the environment adds: the accounts already there stay
/// first and unchanged; then each added account belongs, in order, to the
/// next environment worker, with its character, and with its username and
/// password where given, else with those of the account right before it.
/// Where there are accounts already, every worker adds one; where there are
/// none, all are added if the first worker has both a username and a
/// password, and none otherwise.
pub proof fn law_env_workers_become_accounts(
    accounts: Seq<AccountView>,
    workers: Seq<EnvWorkerView>,
)
    ensures
        ({
            let merged = merge_workers(accounts, workers);
            &&& merged.len() >= accounts.len()
            &&& merged.len() - accounts.len() <= workers.len()
            &&& merged.len() - accounts.len() == if accounts.len() > 0 || (workers.len() > 0
                && workers[0].username is Some && workers[0].password is Some) {
                workers.len()
            } else {
                0
            }
            &&& forall|k: int| 0 <= k < accounts.len() ==> #[trigger] merged[k] == accounts[k]
            &&& forall|k: int|
                #![trigger merged[k]]
                accounts.len() <= k < merged.len() ==> {
                    let w = workers[k - accounts.len()];
                    &&& merged[k].character == w.character
                    &&& (w.username matches Some(u) ==> merged[k].username == u)
                    &&& (w.username is None ==> k >= 1 && merged[k].username == merged[k
                        - 1].username)
                    &&& (w.password matches Some(p) ==> merged[k].password == p)
                    &&& (w.password is None ==> k >= 1 && merged[k].password == merged[k
                        - 1].password)
                }
        }),
    decreases workers.len(),
{
    lemma_merge_length(accounts, workers);
    lemma_merge_grows(accounts, workers);
    if workers.len() > 0 {
        let w = workers[0];
        if !(accounts.len() == 0 && (w.username is None || w.password is None)) {
            let account = AccountView {
                username: match w.username {
                    Some(u) => u,
                    None => accounts.last().username,
                },
                password: match w.password {
                    Some(p) => p,
                    None => accounts.last().password,
                },
                character: w.character,
            };
            let longer = accounts.push(account);
            let rest = workers.drop_first();
            law_env_workers_become_accounts(longer, rest);
            let merged = merge_workers(accounts, workers);
            assert(merged == merge_workers(longer, rest));
            assert forall|k: int| 0 <= k < accounts.len() implies #[trigger] merged[k]
                == accounts[k] by {
                assert(merged[k] == longer[k]);
            }
            assert forall|k: int| #![trigger merged[k]] accounts.len() <= k < merged.len() implies {
                let w = workers[k - accounts.len()];
                &&& merged[k].character == w.character
                &&& (w.username matches Some(u) ==> merged[k].username == u)
                &&& (w.username is None ==> k >= 1 && merged[k].username == merged[k
                    - 1].username)
                &&& (w.password matches Some(p) ==> merged[k].password == p)
                &&& (w.password is None ==> k >= 1 && merged[k].password == merged[k
                    - 1].password)
            } by {
                if k == accounts.len() {
                    assert(merged[k] == longer[k]);
                    if k >= 1 {
                        assert(merged[k - 1] == longer[k - 1]);
                    }
                } else {
                    assert(rest[k - longer.len()] == workers[k - accounts.len()]);
                    assert(merged[k] == merge_workers(longer, rest)[k]);
                }
            }
        }
    }
}

/// A configuration is refused exactly when its default mode is not one the
/// proxy applies by itself (round-robin or by-charid), or when spread tells
/// would have no sender: spam support on, the main connection sending no
/// tells, and no worker account.
pub proof fn law_valid_configurations(c: Config)
    ensures
        config_is_valid(c) <==> ((c.default_mode == SendMode::RoundRobin || c.default_mode
            == SendMode::ByCharId) && (c.accounts@.len() > 0 || !c.spam_bot_support
            || c.send_tells_over_main)),
        c.default_mode == SendMode::ByMsgId || c.default_mode == SendMode::ByWorker
            || c.default_mode == SendMode::Default ==> !config_is_valid(c),
{
}

/// The proxy warns that it runs on its defaults exactly when it read no file
/// and the environment changed nothing.
pub proof fn law_default_warning(used_config: bool, changed_from_env: u8)
    ensures
        warns_about_defaults(used_config, changed_from_env) ==> !used_config,
        warns_about_defaults(used_config, changed_from_env) ==> changed_from_env == 0,
        !used_config && changed_from_env == 0 ==> warns_about_defaults(used_config, changed_from_env),
{
}

/// The message for a missing file names the file between `file ` and
/// ` not found or access denied`; an invalid configuration is described by
/// its own text.
pub proof fn law_error_messages(path: String, text: String)
    ensures
        config_error_message(ConfigError::NotFound(path)) == "file "@ + path@
            + " not found or access denied"@,
        config_error_message(ConfigError::InvalidConfig(text)) == text@,
{
}

/// What the environment does to each setting: a variable that is absent
/// leaves its setting as it was; a present text variable replaces it; a
/// number or boolean replaces it where it reads as one and leaves it
/// otherwise; `DEFAULT_MODE` selects round-robin or by-charid by name and
/// leaves the mode for any other name. The count is one per added account
/// plus one per variable that is present and read (`DEFAULT_MODE` whenever
/// present).
pub proof fn law_environment_overrides(c: Config, env: EnvVars, result: Config)
    requires
        config_with_env(c, env, result),
    ensures
        env.server_address matches Some(a) ==> result.server_address@ == a@,
        env.server_address is None ==> result.server_address@ == c.server_address@,
        env.rust_log matches Some(l) ==> result.rust_log@ == l@,
        env.rust_log is None ==> result.rust_log@ == c.rust_log@,
        env.proxy_port_number matches Some(p) ==> (parsed_u32(p@) matches Some(n)
            ==> result.port_number == n),
        (env.proxy_port_number is None || parsed_u32(env.proxy_port_number->0@) is None)
            ==> result.port_number == c.port_number,
        env.spam_bot_support matches Some(t) ==> (parsed_bool(t@) matches Some(b)
            ==> result.spam_bot_support == b),
        (env.spam_bot_support is None || parsed_bool(env.spam_bot_support->0@) is None)
            ==> result.spam_bot_support == c.spam_bot_support,
        env.send_tells_over_main matches Some(t) ==> (parsed_bool(t@) matches Some(b)
            ==> result.send_tells_over_main == b),
        (env.send_tells_over_main is None || parsed_bool(env.send_tells_over_main->0@) is None)
            ==> result.send_tells_over_main == c.send_tells_over_main,
        env.relay_worker_tells matches Some(t) ==> (parsed_bool(t@) matches Some(b)
            ==> result.relay_worker_tells == b),
        (env.relay_worker_tells is None || parsed_bool(env.relay_worker_tells->0@) is None)
            ==> result.relay_worker_tells == c.relay_worker_tells,
        env.default_mode matches Some(m) ==> (m@ == "round-robin"@ ==> result.default_mode
            == SendMode::RoundRobin),
        env.default_mode matches Some(m) ==> (m@ == "by-charid"@ ==> result.default_mode
            == SendMode::ByCharId),
        (env.default_mode is None || (env.default_mode->0@ != "round-robin"@
            && env.default_mode->0@ != "by-charid"@)) ==> result.default_mode == c.default_mode,
        result.auto_unfreeze_accounts == c.auto_unfreeze_accounts,
        result.unfreeze_accounts_with_proxy == c.unfreeze_accounts_with_proxy,
        env_change_count(c, env) == (result.accounts@.len() - c.accounts@.len()) + (if env.server_address is Some {
            1int
        } else {
            0
        }) + (if env.rust_log is Some {
            1int
        } else {
            0
        }) + (if env.default_mode is Some {
            1int
        } else {
            0
        }) + (if env.proxy_port_number is Some && parsed_u32(env.proxy_port_number->0@) is Some {
            1int
        } else {
            0
        }) + (if env.spam_bot_support is Some && parsed_bool(env.spam_bot_support->0@) is Some {
            1int
        } else {
            0
        }) + (if env.send_tells_over_main is Some && parsed_bool(
            env.send_tells_over_main->0@,
        ) is Some {
            1int
        } else {
            0
        }) + (if env.relay_worker_tells is Some && parsed_bool(env.relay_worker_tells->0@) is Some {
            1int
        } else {
            0
        }),
{
    reveal_strlit("round-robin");
    reveal_strlit("by-charid");
    assert("round-robin"@[0] != "by-charid"@[0]);
    assert("round-robin"@ != "by-charid"@);
    lemma_merge_grows(accounts_view(c.accounts@), env_workers_view(env.workers@));
    assert(accounts_view(result.accounts@).len() == result.accounts@.len());
    assert(accounts_view(c.accounts@).len() == c.accounts@.len());
}

impl Config {
    /// Applies the environment variables to the configuration and gives back
    /// how many settings they changed.
    pub fn mash_with_env(&mut self, env: &EnvVars) -> (changed: Result<u8, ConfigError>)
        requires
            env_change_count(*old(self), *env) <= 255,
        ensures
            config_with_env(*old(self), *env, *final(self)),
            changed matches Ok(n) && n == env_change_count(*old(self), *env),
    {
        let ghost total = env_change_count(*self, *env);
        let mut changed: u8 = add_env_workers(&mut self.accounts, &env.workers);
        apply_string(&mut self.server_address, &env.server_address, &mut changed, Ghost(total));
        apply_port(&mut self.port_number, &env.proxy_port_number, &mut changed, Ghost(total));
        apply_bool(&mut self.spam_bot_support, &env.spam_bot_support, &mut changed, Ghost(total));
        apply_bool(
            &mut self.send_tells_over_main,
            &env.send_tells_over_main,
            &mut changed,
            Ghost(total),
        );
        apply_bool(
            &mut self.relay_worker_tells,
            &env.relay_worker_tells,
            &mut changed,
            Ghost(total),
        );
        apply_mode(&mut self.default_mode, &env.default_mode, &mut changed, Ghost(total));
        apply_string(&mut self.rust_log, &env.rust_log, &mut changed, Ghost(total));
        Ok(changed)
    }

    /// How many settings `mash_with_env` changes, where that fits in a `u8`
    /// (the count it gives back); `None` where it does not.
    pub fn changes_from_env(&self, env: &EnvVars) -> (count: Option<u8>)
        ensures
            count == (if env_change_count(*self, *env) <= 255 {
                Some(env_change_count(*self, *env) as u8)
            } else {
                None
            }),
    {
        proof {
            lemma_merge_length(accounts_view(self.accounts@), env_workers_view(env.workers@));
        }
        let added: usize = if self.accounts.len() > 0 || (env.workers.len() > 0
            && env.workers[0].username.is_some() && env.workers[0].password.is_some()) {
            env.workers.len()
        } else {
            0
        };
        if added > 255 {
            return None;
        }
        let mut total: u64 = added as u64;
        if env.server_address.is_some() {
            total = total + 1;
        }
        if let Some(p) = &env.proxy_port_number {
            if parse_u32(p.as_str()).is_some() {
                total = total + 1;
            }
        }
        if let Some(s) = &env.spam_bot_support {
            if parse_bool(s.as_str()).is_some() {
                total = total + 1;
            }
        }
        if let Some(s) = &env.send_tells_over_main {
            if parse_bool(s.as_str()).is_some() {
                total = total + 1;
            }
        }
        if let Some(s) = &env.relay_worker_tells {
            if parse_bool(s.as_str()).is_some() {
                total = total + 1;
            }
        }
        if env.default_mode.is_some() {
            total = total + 1;
        }
        if env.rust_log.is_some() {
            total = total + 1;
        }
        if total > 255 {
            None
        } else {
            Some(total as u8)
        }
    }

    /// Refuses a configuration the proxy cannot run with.
    pub fn validate_self(&self) -> (result: Result<(), ConfigError>)
        ensures
            result is Ok <==> config_is_valid(*self),
            !(self.default_mode == SendMode::ByCharId || self.default_mode == SendMode::RoundRobin)
                ==> (result matches Err(ConfigError::InvalidConfig(m)) && m@
                == bad_default_mode_message()),
            (self.default_mode == SendMode::ByCharId || self.default_mode == SendMode::RoundRobin)
                && !config_is_valid(*self) ==> (result matches Err(ConfigError::InvalidConfig(m))
                && m@ == no_worker_message()),
    {
        match self.default_mode {
            SendMode::ByCharId | SendMode::RoundRobin => {},
            _ => {
                return Err(
                    ConfigError::InvalidConfig(
                        String::from_str("default_mode must be round-robin or by-charid"),
                    ),
                );
            },
        }
        if self.spam_bot_support && (!self.send_tells_over_main && self.accounts.len() == 0) {
            return Err(
                ConfigError::InvalidConfig(
                    String::from_str(
                        "When SPAM_BOT_SUPPORT is true and SEND_TELLS_OVER_MAIN is disabled, at least one worker needs to be configured",
                    ),
                ),
            );
        }
        Ok(())
    }
}

} // verus!
