//! OuterClaw configuration: the environment, the env file, and defaults.

use crate::util::is_name;
use crate::util::is_valid_session_id;
use crate::util::json::{json_tree, read_json, Json, Tree};
use crate::util::path::{join_path, joined_path};
use crate::util::text::{
    all_digits, ascii_lower, chars_of, cut, decimal, digit, is_white, lines, lines_of, number, parse,
    parse_or, same, show, split_once, to_ascii_lower, trim, trim_both, trim_white, trimmed, views, Class,
};
use vstd::prelude::*;

verus! {

/// Privilege and isolation mode the OuterClaw deployment runs in.
///
/// * `Sudo` — production default. Three-user isolation (agent / watchdog / admin),
///   system-level systemd units, ACL-based cross-user read access. Required for
///   any deployment exposed to untrusted input (e.g. public Discord bots).
/// * `User` — single-UID mode for personal machines where no privilege boundary
///   is needed between the agent and the watchdog. Uses `systemd --user` units
///   and per-user data directories; no ACLs, no sudo. Disables the isolation
///   guarantee in exchange for not needing root.
#[derive(Debug, Clone, Copy, PartialEq, Eq, Structural)]
pub enum Mode {
    Sudo,
    User,
}

impl Mode {
    /// The mode's name.
    pub open spec fn name(self) -> Seq<char> {
        match self {
            Mode::Sudo => "sudo"@,
            Mode::User => "user"@,
        }
    }

    /// The mode that `value` asks for.
    pub open spec fn asked(value: Seq<char>) -> Mode {
        let v = ascii_lower(value);
        if v == "user"@ || v == "user-mode"@ || v == "usermode"@ {
            Mode::User
        } else {
            Mode::Sudo
        }
    }

    /// The mode's name.
    pub fn as_str(self) -> (r: &'static str)
        ensures
            r@ == self.name(),
    {
        match self {
            Mode::Sudo => "sudo",
            Mode::User => "user",
        }
    }

    /// The mode that a value of `OUTERCLAW_MODE` asks for; `Sudo` unless it is
    /// a spelling of user mode.
    pub fn from_env(value: &str) -> (r: Self)
        ensures
            r == Mode::asked(value@),
    {
        let v = to_ascii_lower(value);
        if same(v.as_str(), "user") || same(v.as_str(), "user-mode") || same(
            v.as_str(),
            "usermode",
        ) {
            Mode::User
        } else {
            Mode::Sudo
        }
    }
}

/// OuterClaw configuration — loaded from env file + environment variables.
#[derive(Debug, Clone)]
pub struct Config {
    // Gateway
    pub gateway_port: u16,
    pub gateway_service: String,
    pub health_timeout: u64,
    pub health_url: String,
    pub sessions_url: String,
    // Thresholds
    pub tick_interval: u64,
    pub collect_interval: u64,
    pub hang_warn_secs: u64,
    pub hang_crit_secs: u64,
    pub io_delta_threshold: u64,
    pub ctx_switch_threshold: u64,
    // Recovery
    pub restart_settle_wait: u64,
    pub recovery_cooldown: u64,
    pub kill_graceful_timeout: u64,
    // Identity
    pub identity_unlock_timeout: u64,
    // Mode & paths
    pub mode: Mode,
    pub openclaw_dir: String,
    pub vault_dir: String,
    pub agent_user: String,
    pub agent_home: String,
    pub watchdog_user: String,
    // Telegram
    pub tg_token: String,
    pub tg_chat: String,
    pub tg_is_dedicated: bool,
    // Vault limits
    pub max_vault_mb: u64,
    /// The threshold as it is written: a decimal fraction, in percent.
    pub io_pressure_threshold: String,
    // Cloud
    pub cloud_enabled: bool,
    pub cloud_remote: String,
    pub cloud_bandwidth: u64,
    // Misc
    pub max_response_bytes: usize,
}

// ── Variables ─────────────────────────────────────────────────────────

/// Named values: the process environment, or what an env file sets.
#[derive(Debug, Clone)]
pub struct EnvMap {
    pub entries: Vec<(String, String)>,
}

/// The views of named values.
pub open spec fn pairs(v: Seq<(String, String)>) -> Seq<(Seq<char>, Seq<char>)> {
    Seq::new(v.len(), |i: int| (v[i].0@, v[i].1@))
}

/// The value that the last of the first `n` entries for `key` gives it.
pub open spec fn last_value(e: Seq<(Seq<char>, Seq<char>)>, key: Seq<char>, n: int) -> Option<Seq<char>>
    decreases n,
{
    if n <= 0 || n > e.len() {
        None
    } else if e[n - 1].0 == key {
        Some(e[n - 1].1)
    } else {
        last_value(e, key, n - 1)
    }
}

impl View for EnvMap {
    type V = Seq<(Seq<char>, Seq<char>)>;

    open spec fn view(&self) -> Seq<(Seq<char>, Seq<char>)> {
        pairs(self.entries@)
    }
}

/// The value of `key`: a later entry overrides an earlier one.
pub open spec fn value_of(e: Seq<(Seq<char>, Seq<char>)>, key: Seq<char>) -> Option<Seq<char>> {
    last_value(e, key, e.len() as int)
}

impl EnvMap {
    /// No values.
    pub fn new() -> (r: Self)
        ensures
            r@ == Seq::<(Seq<char>, Seq<char>)>::empty(),
    {
        let r = EnvMap { entries: Vec::new() };
        assert(r@ =~= Seq::<(Seq<char>, Seq<char>)>::empty());
        r
    }

    /// Give `key` a value, in place of any that it had.
    pub fn set(&mut self, key: &str, value: &str)
        ensures
            final(self)@ == old(self)@.push((key@, value@)),
            value_of(final(self)@, key@) == Some(value@),
    {
        self.entries.push((key.to_owned(), value.to_owned()));
        assert(self@ =~= old(self)@.push((key@, value@)));
    }

    /// The value of `key`.
    pub fn get(&self, key: &str) -> (r: Option<&str>)
        ensures
            match r {
                Some(v) => value_of(self@, key@) == Some(v@),
                None => value_of(self@, key@) is None,
            },
    {
        let mut n: usize = self.entries.len();
        while n > 0
            invariant
                n <= self.entries@.len(),
                value_of(self@, key@) == last_value(self@, key@, n as int),
            decreases n,
        {
            if same(self.entries[n - 1].0.as_str(), key) {
                return Some(self.entries[n - 1].1.as_str());
            }
            n -= 1;
        }
        None
    }
}

/// What one line of an env file sets: `KEY=VALUE`, with white space and then
/// quotes round the value removed. Empty lines and comments set nothing.
pub open spec fn env_entry(line: Seq<char>) -> Option<(Seq<char>, Seq<char>)> {
    let t = trim_white(line);
    if t.len() == 0 || t[0] == '#' {
        None
    } else {
        match cut(t, Class::Is('=')) {
            Some((k, v)) => Some(
                (
                    trim_white(k),
                    trimmed(trimmed(trim_white(v), Class::Is('"')), Class::Is('\'')),
                ),
            ),
            None => None,
        }
    }
}

/// What the first `n` lines set, in order.
pub open spec fn env_entries(ls: Seq<Seq<char>>, n: int) -> Seq<(Seq<char>, Seq<char>)>
    decreases n,
{
    if n <= 0 {
        Seq::empty()
    } else {
        match env_entry(ls[n - 1]) {
            Some(e) => env_entries(ls, n - 1).push(e),
            None => env_entries(ls, n - 1),
        }
    }
}

/// Parse the text of a shell-style env file (KEY=VALUE, # comments, no eval/source).
pub fn parse_env_file(content: &str) -> (r: EnvMap)
    ensures
        r@ == env_entries(lines(content@), lines(content@).len() as int),
{
    let ls = lines_of(content);
    let mut map = EnvMap::new();
    let mut i: usize = 0;
    while i < ls.len()
        invariant
            views(ls@) == lines(content@),
            i <= ls@.len(),
            map@ == env_entries(lines(content@), i as int),
        decreases ls@.len() - i,
    {
        let trimmed_line = trim(ls[i].as_str());
        assert(views(ls@)[i as int] == ls@[i as int]@);
        let v = chars_of(trimmed_line);
        if v.len() > 0 && v[0] != '#' {
            if let Some((key, val)) = split_once(trimmed_line, Class::Is('=')) {
                let val = trim_both(trim_both(trim(val), Class::Is('"')), Class::Is('\''));
                map.set(trim(key), val);
            }
        }
        i += 1;
    }
    map
}

/// A setting: the environment comes first, then the env file, then the default.
pub open spec fn setting(
    env: Seq<(Seq<char>, Seq<char>)>,
    file: Seq<(Seq<char>, Seq<char>)>,
    key: Seq<char>,
    default: Seq<char>,
) -> Seq<char> {
    match value_of(env, key) {
        Some(v) => v,
        None => match value_of(file, key) {
            Some(v) => v,
            None => default,
        },
    }
}

/// A setting: the environment comes first, then the env file, then the default.
fn get(env: &EnvMap, file: &EnvMap, key: &str, default: &str) -> (r: String)
    ensures
        r@ == setting(env@, file@, key@, default@),
{
    match env.get(key) {
        Some(v) => v.to_owned(),
        None => match file.get(key) {
            Some(v) => v.to_owned(),
            None => default.to_owned(),
        },
    }
}

/// A setting that is a number, or its default where it is none.
pub open spec fn number_setting(
    env: Seq<(Seq<char>, Seq<char>)>,
    file: Seq<(Seq<char>, Seq<char>)>,
    key: Seq<char>,
    text: Seq<char>,
    default: nat,
) -> nat {
    number(setting(env, file, key, text), u64::MAX as nat).unwrap_or(default)
}

/// A setting that is a number, or its default where it is none.
fn get_number(env: &EnvMap, file: &EnvMap, key: &str, text: &str, default: u64) -> (r: u64)
    ensures
        r as nat == number_setting(env@, file@, key@, text@, default as nat),
{
    parse_or(get(env, file, key, text).as_str(), u64::MAX, default)
}

// ── Locations ─────────────────────────────────────────────────────────

/// A variable of the environment, or its default.
pub open spec fn variable(
    env: Seq<(Seq<char>, Seq<char>)>,
    key: Seq<char>,
    default: Seq<char>,
) -> Seq<char> {
    match value_of(env, key) {
        Some(v) => v,
        None => default,
    }
}

/// A variable of the environment, or its default.
fn get_variable(env: &EnvMap, key: &str, default: &str) -> (r: String)
    ensures
        r@ == variable(env@, key@, default@),
{
    match env.get(key) {
        Some(v) => v.to_owned(),
        None => default.to_owned(),
    }
}

/// The mode that the environment asks for.
pub open spec fn mode_of(env: Seq<(Seq<char>, Seq<char>)>) -> Mode {
    match value_of(env, "OUTERCLAW_MODE"@) {
        Some(v) => Mode::asked(v),
        None => Mode::Sudo,
    }
}

/// The mode that the environment asks for.
pub fn mode(env: &EnvMap) -> (r: Mode)
    ensures
        r == mode_of(env@),
{
    match env.get("OUTERCLAW_MODE") {
        Some(v) => Mode::from_env(v),
        None => Mode::Sudo,
    }
}

/// Where the env file lies.
pub open spec fn env_file_location(mode: Mode, env: Seq<(Seq<char>, Seq<char>)>) -> Seq<char> {
    match value_of(env, "OUTERCLAW_ENV_FILE"@) {
        Some(p) => p,
        None => match mode {
            Mode::Sudo => "/var/lib/outerclaw/config/outerclaw.env"@,
            Mode::User => variable(env, "HOME"@, "/tmp"@) + "/.config/outerclaw/outerclaw.env"@,
        },
    }
}

/// Default env file location for a given mode. The env var `OUTERCLAW_ENV_FILE`
/// can override this if a user has installed in a non-standard location.
pub fn default_env_file_path(mode: Mode, env: &EnvMap) -> (r: String)
    ensures
        r@ == env_file_location(mode, env@),
{
    match env.get("OUTERCLAW_ENV_FILE") {
        Some(p) => p.to_owned(),
        None => match mode {
            Mode::Sudo => "/var/lib/outerclaw/config/outerclaw.env".to_owned(),
            Mode::User => {
                let mut p = get_variable(env, "HOME", "/tmp");
                p.append("/.config/outerclaw/outerclaw.env");
                p
            },
        },
    }
}

/// The users and directories of a deployment.
pub struct Places {
    pub agent_user: String,
    pub agent_home: String,
    pub openclaw_dir: String,
    pub vault_dir: String,
    pub watchdog_user: String,
}

/// The view of `Places`.
pub struct PlacesView {
    pub agent_user: Seq<char>,
    pub agent_home: Seq<char>,
    pub openclaw_dir: Seq<char>,
    pub vault_dir: Seq<char>,
    pub watchdog_user: Seq<char>,
}

impl View for Places {
    type V = PlacesView;

    open spec fn view(&self) -> PlacesView {
        PlacesView {
            agent_user: self.agent_user@,
            agent_home: self.agent_home@,
            openclaw_dir: self.openclaw_dir@,
            vault_dir: self.vault_dir@,
            watchdog_user: self.watchdog_user@,
        }
    }
}

/// Mode-derived identity & paths. User mode collapses agent and watchdog onto
/// the current `$USER` and roots everything under `$HOME`; sudo mode keeps the
/// canonical three-user layout under `/home/ocagent` and `/var/lib`.
pub open spec fn places_of(
    env: Seq<(Seq<char>, Seq<char>)>,
    file: Seq<(Seq<char>, Seq<char>)>,
) -> PlacesView {
    let user = variable(env, "USER"@, "outerclaw"@);
    let home = variable(env, "HOME"@, "/tmp"@);
    let sudo = mode_of(env) == Mode::Sudo;
    let agent_user = setting(
        env,
        file,
        "AGENT_USER"@,
        if sudo {
            "ocagent"@
        } else {
            user
        },
    );
    let agent_home = setting(
        env,
        file,
        "AGENT_HOME"@,
        if sudo {
            "/home/"@ + agent_user
        } else {
            home
        },
    );
    PlacesView {
        agent_user,
        agent_home,
        openclaw_dir: setting(env, file, "OPENCLAW_DIR"@, agent_home + "/.openclaw"@),
        vault_dir: setting(
            env,
            file,
            "VAULT_DIR"@,
            if sudo {
                "/var/lib/outerclaw"@
            } else {
                home + "/.local/share/outerclaw"@
            },
        ),
        watchdog_user: setting(
            env,
            file,
            "WATCHDOG_USER"@,
            if sudo {
                "outerclaw"@
            } else {
                user
            },
        ),
    }
}

/// The users and directories that the environment and the env file ask for.
pub fn places(env: &EnvMap, file: &EnvMap) -> (r: Places)
    ensures
        r@ == places_of(env@, file@),
{
    let sudo = mode(env) == Mode::Sudo;
    let user = get_variable(env, "USER", "outerclaw");
    let home = get_variable(env, "HOME", "/tmp");
    let agent_user = get(
        env,
        file,
        "AGENT_USER",
        if sudo {
            "ocagent"
        } else {
            user.as_str()
        },
    );
    let home_default = if sudo {
        let mut h = "/home/".to_owned();
        h.append(agent_user.as_str());
        h
    } else {
        home.clone()
    };
    let agent_home = get(env, file, "AGENT_HOME", home_default.as_str());
    let mut openclaw_default = agent_home.clone();
    openclaw_default.append("/.openclaw");
    let openclaw_dir = get(env, file, "OPENCLAW_DIR", openclaw_default.as_str());
    let vault_default = if sudo {
        "/var/lib/outerclaw".to_owned()
    } else {
        let mut v = home.clone();
        v.append("/.local/share/outerclaw");
        v
    };
    let vault_dir = get(env, file, "VAULT_DIR", vault_default.as_str());
    let watchdog_user = get(
        env,
        file,
        "WATCHDOG_USER",
        if sudo {
            "outerclaw"
        } else {
            user.as_str()
        },
    );
    Places { agent_user, agent_home, openclaw_dir, vault_dir, watchdog_user }
}

// ── Telegram credentials ──────────────────────────────────────────────

/// A bot token: digits, a colon, and letters, digits, `_` and `-`.
pub open spec fn is_token(s: Seq<char>) -> bool {
    match cut(s, Class::Is(':')) {
        Some((id, secret)) => id.len() > 0 && all_digits(id) && is_name(secret),
        None => false,
    }
}

/// Validate Telegram bot token format: digits:alphanumeric
pub fn is_valid_tg_token(token: &str) -> (r: bool)
    ensures
        r == is_token(token@),
{
    match split_once(token, Class::Is(':')) {
        Some((id, secret)) => {
            let v = chars_of(id);
            let mut i: usize = 0;
            while i < v.len()
                invariant
                    v@ == id@,
                    i <= v@.len(),
                    forall|k: int| 0 <= k < i ==> crate::util::text::is_digit(id@[k]),
                    cut(token@, Class::Is(':')) == Some((id@, secret@)),
                decreases v@.len() - i,
            {
                if !digit(v[i]) {
                    return false;
                }
                i += 1;
            }
            v.len() > 0 && is_valid_session_id(secret)
        },
        None => false,
    }
}

/// The bot token and the first allowed chat in OpenClaw's own configuration.
pub open spec fn credentials_in(t: Tree) -> Option<(Seq<char>, Seq<char>)> {
    match t.member("channels"@) {
        None => None,
        Some(channels) => match channels.member("telegram"@) {
            None => None,
            Some(tg) => match (tg.member("botToken"@), tg.member("allowFrom"@)) {
                (Some(b), Some(a)) => match (b.string(), a.elements()) {
                    (Some(token), Some(allowed)) => {
                        let chat = trimmed(allowed[0].text, Class::Is('"'));
                        if allowed.len() > 0 && token.len() > 0 && chat.len() > 0 {
                            Some((token, chat))
                        } else {
                            None
                        }
                    },
                    _ => None,
                },
                _ => None,
            },
        },
    }
}

/// The views of a pair of texts.
pub open spec fn pair_view(r: Option<(String, String)>) -> Option<(Seq<char>, Seq<char>)> {
    match r {
        Some((a, b)) => Some((a@, b@)),
        None => None,
    }
}

/// The bot token and the first allowed chat in OpenClaw's own configuration.
pub fn telegram_credentials(json: &Json) -> (r: Option<(String, String)>)
    ensures
        pair_view(r) == credentials_in(json@),
{
    let channels = match json.get("channels") {
        Some(c) => c,
        None => return None,
    };
    let tg = match channels.get("telegram") {
        Some(t) => t,
        None => return None,
    };
    let token = match tg.get("botToken") {
        Some(b) => match b.as_str() {
            Some(s) => s,
            None => return None,
        },
        None => return None,
    };
    let allowed = match tg.get("allowFrom") {
        Some(a) => match a.as_array() {
            Some(v) => v,
            None => return None,
        },
        None => return None,
    };
    if allowed.len() == 0 {
        return None;
    }
    let chat = trim_both(allowed[0].text.as_str(), Class::Is('"'));
    if token.is_empty() || chat.is_empty() {
        return None;
    }
    Some((token.to_owned(), chat.to_owned()))
}

/// The credentials in the text of `openclaw.json`; none where the text is no JSON.
pub open spec fn credentials_of(text: Seq<char>) -> Option<(Seq<char>, Seq<char>)> {
    match json_tree(text) {
        Some(t) => credentials_in(t),
        None => None,
    }
}

/// Load Telegram credentials from the text of openclaw.json as fallback.
pub fn load_tg_from_openclaw(content: &str) -> (r: Option<(String, String)>)
    ensures
        pair_view(r) == credentials_of(content@),
{
    match read_json(content) {
        Some(j) => telegram_credentials(&j),
        None => None,
    }
}

/// The token and the chat in use: each dedicated setting where it is not
/// empty, else what OpenClaw's own configuration has.
pub open spec fn with_fallback(
    token: Seq<char>,
    chat: Seq<char>,
    fallback: Option<(Seq<char>, Seq<char>)>,
) -> (Seq<char>, Seq<char>) {
    match fallback {
        Some((t, c)) => (
            if token.len() == 0 {
                t
            } else {
                token
            },
            if chat.len() == 0 {
                c
            } else {
                chat
            },
        ),
        None => (token, chat),
    }
}

/// The credentials that `openclaw_json`, where it could be read, falls back to.
pub open spec fn fallback_of(openclaw_json: Option<&str>) -> Option<(Seq<char>, Seq<char>)> {
    match openclaw_json {
        Some(t) => credentials_of(t@),
        None => None,
    }
}

// ── Loading ───────────────────────────────────────────────────────────

impl Config {
    /// The fields that do not depend on any setting.
    pub open spec fn fixed(self) -> bool {
        &&& self.gateway_service@ == "openclaw-gateway.service"@
        &&& self.health_timeout == 5
        &&& self.tick_interval == 1
        &&& self.io_delta_threshold == 1_048_576
        &&& self.ctx_switch_threshold == 10
        &&& self.kill_graceful_timeout == 15
        &&& self.identity_unlock_timeout == 600
        &&& self.max_response_bytes == 1_048_576
    }

    /// The users and directories.
    pub open spec fn places(self) -> PlacesView {
        PlacesView {
            agent_user: self.agent_user@,
            agent_home: self.agent_home@,
            openclaw_dir: self.openclaw_dir@,
            vault_dir: self.vault_dir@,
            watchdog_user: self.watchdog_user@,
        }
    }

    /// The configuration holds what the environment, the env file and
    /// `openclaw.json` ask for, gateway port excepted.
    pub open spec fn follows(
        self,
        env: Seq<(Seq<char>, Seq<char>)>,
        file: Seq<(Seq<char>, Seq<char>)>,
        fallback: Option<(Seq<char>, Seq<char>)>,
    ) -> bool {
        let token = setting(env, file, "OUTERCLAW_TG_TOKEN"@, Seq::empty());
        let chat = setting(env, file, "OUTERCLAW_TG_CHAT"@, Seq::empty());
        let (t, c) = with_fallback(token, chat, fallback);
        &&& self.mode == mode_of(env)
        &&& self.places() == places_of(env, file)
        &&& self.collect_interval == number_setting(env, file, "COLLECT_INTERVAL"@, "30"@, 30)
        &&& self.hang_warn_secs == number_setting(env, file, "HANG_WARN_SECS"@, "120"@, 120)
        &&& self.hang_crit_secs == number_setting(env, file, "HANG_CRIT_SECS"@, "300"@, 300)
        &&& self.restart_settle_wait == number_setting(
            env,
            file,
            "RESTART_SETTLE_WAIT"@,
            "90"@,
            90,
        )
        &&& self.recovery_cooldown == number_setting(
            env,
            file,
            "RECOVERY_COOLDOWN"@,
            "1800"@,
            1800,
        )
        &&& self.max_vault_mb == number_setting(env, file, "MAX_VAULT_MB"@, "2048"@, 2048)
        &&& self.cloud_bandwidth == number_setting(env, file, "CLOUD_BANDWIDTH"@, "0"@, 0)
        &&& self.io_pressure_threshold@ == setting(env, file, "IO_PRESSURE_THRESHOLD"@, "25.0"@)
        &&& self.cloud_enabled == (setting(env, file, "CLOUD_ENABLED"@, "false"@) == "true"@)
        &&& self.cloud_remote@ == setting(env, file, "CLOUD_REMOTE"@, "outerclaw-crypt"@)
        &&& self.tg_is_dedicated == (token.len() > 0 && chat.len() > 0)
        &&& self.tg_chat@ == c
        &&& self.tg_token@ == if is_token(t) {
            t
        } else {
            Seq::empty()
        }
    }

    /// The port and the addresses below it.
    pub open spec fn listens_on(self, port: nat) -> bool {
        &&& self.gateway_port == port
        &&& self.health_url@ == "http://127.0.0.1:"@ + decimal(port) + "/health"@
        &&& self.sessions_url@ == "http://127.0.0.1:"@ + decimal(port) + "/sessions"@
    }

    /// Load configuration from the environment, the entries of the env file and
    /// the text of `openclaw.json`.
    /// Priority: environment variables > env file > mode-derived defaults
    pub fn load(env: &EnvMap, file: &EnvMap, openclaw_json: Option<&str>) -> (r: Result<
        Self,
        String,
    >)
        ensures
            match number(setting(env@, file@, "GATEWAY_PORT"@, "18789"@), u16::MAX as nat) {
                None => r matches Err(e) && e@ == "Invalid GATEWAY_PORT"@,
                Some(port) => if port == 0 {
                    r matches Err(e) && e@ == "GATEWAY_PORT must be > 0"@
                } else {
                    r matches Ok(c) && c.fixed() && c.listens_on(port) && c.follows(
                        env@,
                        file@,
                        fallback_of(openclaw_json),
                    )
                },
            },
    {
        let port_text = get(env, file, "GATEWAY_PORT", "18789");
        let gateway_port: u16 = match parse(port_text.as_str(), 65535) {
            Some(p) => p as u16,
            None => return Err("Invalid GATEWAY_PORT".to_owned()),
        };
        if gateway_port == 0 {
            return Err("GATEWAY_PORT must be > 0".to_owned());
        }
        proof {
            reveal_strlit("");
            assert(""@ =~= Seq::<char>::empty());
        }
        let p = places(env, file);

        // Telegram: try dedicated token first, fall back to openclaw.json
        let mut tg_token = get(env, file, "OUTERCLAW_TG_TOKEN", "");
        let mut tg_chat = get(env, file, "OUTERCLAW_TG_CHAT", "");
        let no_token = tg_token.as_str().is_empty();
        let no_chat = tg_chat.as_str().is_empty();
        let tg_is_dedicated = !no_token && !no_chat;
        if no_token || no_chat {
            if let Some(text) = openclaw_json {
                if let Some((token, chat)) = load_tg_from_openclaw(text) {
                    if no_token {
                        tg_token = token;
                    }
                    if no_chat {
                        tg_chat = chat;
                    }
                }
            }
        }
        // Validate TG token format
        if !is_valid_tg_token(tg_token.as_str()) {
            tg_token = String::new();
        }
        let mut health_url = "http://127.0.0.1:".to_owned();
        health_url.append(show(gateway_port as u64).as_str());
        health_url.append("/health");
        let mut sessions_url = "http://127.0.0.1:".to_owned();
        sessions_url.append(show(gateway_port as u64).as_str());
        sessions_url.append("/sessions");
        let cloud = get(env, file, "CLOUD_ENABLED", "false");
        Ok(
            Config {
                gateway_port,
                gateway_service: "openclaw-gateway.service".to_owned(),
                health_timeout: 5,
                health_url,
                sessions_url,
                tick_interval: 1,
                collect_interval: get_number(env, file, "COLLECT_INTERVAL", "30", 30),
                hang_warn_secs: get_number(env, file, "HANG_WARN_SECS", "120", 120),
                hang_crit_secs: get_number(env, file, "HANG_CRIT_SECS", "300", 300),
                io_delta_threshold: 1_048_576,
                ctx_switch_threshold: 10,
                restart_settle_wait: get_number(env, file, "RESTART_SETTLE_WAIT", "90", 90),
                recovery_cooldown: get_number(env, file, "RECOVERY_COOLDOWN", "1800", 1800),
                kill_graceful_timeout: 15,
                identity_unlock_timeout: 600,
                mode: mode(env),
                openclaw_dir: p.openclaw_dir,
                vault_dir: p.vault_dir,
                agent_user: p.agent_user,
                agent_home: p.agent_home,
                watchdog_user: p.watchdog_user,
                tg_token,
                tg_chat,
                tg_is_dedicated,
                max_vault_mb: get_number(env, file, "MAX_VAULT_MB", "2048", 2048),
                io_pressure_threshold: get(env, file, "IO_PRESSURE_THRESHOLD", "25.0"),
                cloud_enabled: same(cloud.as_str(), "true"),
                cloud_remote: get(env, file, "CLOUD_REMOTE", "outerclaw-crypt"),
                cloud_bandwidth: get_number(env, file, "CLOUD_BANDWIDTH", "0", 0),
                max_response_bytes: 1_048_576,
            },
        )
    }

    // ── Vault-derived path helpers ─────────────────────────────────
    //
    // Always derive from `vault_dir` so a non-default vault (set via env or
    // VAULT_DIR override) propagates everywhere.

    /// `bin` in the vault.
    pub fn bin_dir(&self) -> (r: String)
        ensures
            r@ == joined_path(self.vault_dir@, "bin"@),
    {
        join_path(self.vault_dir.as_str(), "bin")
    }

    /// The installed binary.
    pub fn bin_path(&self) -> (r: String)
        ensures
            r@ == joined_path(joined_path(self.vault_dir@, "bin"@), "outerclaw"@),
    {
        join_path(self.bin_dir().as_str(), "outerclaw")
    }

    /// `config` in the vault.
    pub fn config_dir(&self) -> (r: String)
        ensures
            r@ == joined_path(self.vault_dir@, "config"@),
    {
        join_path(self.vault_dir.as_str(), "config")
    }

    /// The env file in the vault.
    pub fn env_file_path(&self) -> (r: String)
        ensures
            r@ == joined_path(joined_path(self.vault_dir@, "config"@), "outerclaw.env"@),
    {
        join_path(self.config_dir().as_str(), "outerclaw.env")
    }

    /// The rclone configuration in the vault.
    pub fn rclone_config_path(&self) -> (r: String)
        ensures
            r@ == joined_path(joined_path(self.vault_dir@, "config"@), "rclone.conf"@),
    {
        join_path(self.config_dir().as_str(), "rclone.conf")
    }

    /// `audit` in the vault.
    pub fn audit_dir(&self) -> (r: String)
        ensures
            r@ == joined_path(self.vault_dir@, "audit"@),
    {
        join_path(self.vault_dir.as_str(), "audit")
    }

    /// `snapshots` in the vault.
    pub fn snapshots_dir(&self) -> (r: String)
        ensures
            r@ == joined_path(self.vault_dir@, "snapshots"@),
    {
        join_path(self.vault_dir.as_str(), "snapshots")
    }

    /// `lkg` in the vault.
    pub fn lkg_dir(&self) -> (r: String)
        ensures
            r@ == joined_path(self.vault_dir@, "lkg"@),
    {
        join_path(self.vault_dir.as_str(), "lkg")
    }

    /// Watched identity/config file paths
    pub fn watched_files(&self) -> (r: Vec<String>)
        ensures
            views(r@) == watched(self.openclaw_dir@),
    {
        let ws = join_path(self.openclaw_dir.as_str(), "workspace");
        let r = vec![
            join_path(ws.as_str(), "SOUL.md"),
            join_path(ws.as_str(), "AGENTS.md"),
            join_path(ws.as_str(), "USER.md"),
            join_path(self.openclaw_dir.as_str(), "openclaw.json"),
        ];
        assert(views(r@) =~= watched(self.openclaw_dir@));
        r
    }
}

/// The identity files in the workspace, and OpenClaw's own configuration.
pub open spec fn watched(openclaw_dir: Seq<char>) -> Seq<Seq<char>> {
    let ws = joined_path(openclaw_dir, "workspace"@);
    seq![
        joined_path(ws, "SOUL.md"@),
        joined_path(ws, "AGENTS.md"@),
        joined_path(ws, "USER.md"@),
        joined_path(openclaw_dir, "openclaw.json"@),
    ]
}

// ── What overrides what ───────────────────────────────────────────────

/// A later entry for a key overrides the earlier ones, and leaves every other
/// key as it was. Without entries nothing has a value.
pub proof fn law_later_entry_overrides(
    e: Seq<(Seq<char>, Seq<char>)>,
    key: Seq<char>,
    value: Seq<char>,
    other: Seq<char>,
)
    ensures
        value_of(e.push((key, value)), key) == Some(value),
        other != key ==> value_of(e.push((key, value)), other) == value_of(e, other),
        value_of(Seq::empty(), other) is None,
{
    lemma_last_value_in_longer(e, (key, value), other, e.len() as int);
}

/// What follows does not change the value that the first `n` entries give.
proof fn lemma_last_value_in_longer(
    e: Seq<(Seq<char>, Seq<char>)>,
    entry: (Seq<char>, Seq<char>),
    key: Seq<char>,
    n: int,
)
    requires
        0 <= n <= e.len(),
    ensures
        last_value(e.push(entry), key, n) == last_value(e, key, n),
    decreases n,
{
    if n > 0 {
        lemma_last_value_in_longer(e, entry, key, n - 1);
        assert(e.push(entry)[n - 1] == e[n - 1]);
    }
}

/// What the environment sets is used, whatever the env file says; what only the
/// env file sets is used too; what neither sets has its default.
pub proof fn law_environment_comes_first(
    env: Seq<(Seq<char>, Seq<char>)>,
    file: Seq<(Seq<char>, Seq<char>)>,
    key: Seq<char>,
    value: Seq<char>,
    default: Seq<char>,
)
    ensures
        setting(env.push((key, value)), file, key, default) == value,
        value_of(env, key) is None ==> setting(env, file.push((key, value)), key, default)
            == value,
        setting(Seq::empty(), Seq::empty(), key, default) == default,
{
    law_later_entry_overrides(env, key, value, key);
    law_later_entry_overrides(file, key, value, key);
}

/// The lines of an env file are read in turn: one more line adds what it sets.
pub proof fn law_env_lines_are_read_in_turn(ls: Seq<Seq<char>>, l: Seq<char>)
    ensures
        env_entries(ls.push(l), ls.len() as int + 1) == match env_entry(l) {
            Some(e) => env_entries(ls, ls.len() as int).push(e),
            None => env_entries(ls, ls.len() as int),
        },
{
    lemma_env_entries_in_longer(ls, l, ls.len() as int);
}

/// What follows does not change what the first `n` lines set.
proof fn lemma_env_entries_in_longer(ls: Seq<Seq<char>>, l: Seq<char>, n: int)
    requires
        0 <= n <= ls.len(),
    ensures
        env_entries(ls.push(l), n) == env_entries(ls, n),
    decreases n,
{
    if n > 0 {
        lemma_env_entries_in_longer(ls, l, n - 1);
        assert(ls.push(l)[n - 1] == ls[n - 1]);
    }
}

/// A line `KEY=VALUE` sets the key to the value, where neither holds white space
/// or quotes and the key no `=`.
pub proof fn law_line_sets_its_key(key: Seq<char>, value: Seq<char>)
    requires
        key.len() > 0,
        key[0] != '#',
        forall|i: int| 0 <= i < key.len() ==> #[trigger] key[i] != '=' && !is_white(key[i]),
        value.len() > 0,
        forall|i: int|
            0 <= i < value.len() ==> #[trigger] value[i] != '"' && value[i] != '\'' && !is_white(
                value[i],
            ),
    ensures
        env_entry(key + "="@ + value) == Some((key, value)),
{
    reveal_strlit("=");
    let line = key + "="@ + value;
    assert(line[0] == key[0] && line.last() == value.last());
    crate::util::text::lemma_nothing_to_trim(line, Class::White);
    crate::util::text::lemma_nothing_to_trim(key, Class::White);
    crate::util::text::lemma_nothing_to_trim(value, Class::White);
    crate::util::text::lemma_nothing_to_trim(value, Class::Is('"'));
    crate::util::text::lemma_nothing_to_trim(value, Class::Is('\''));
    crate::util::text::lemma_upto_is(line, Class::Is('='), 0, key.len() as int);
    assert(line.take(key.len() as int) =~= key);
    assert(line.skip(key.len() as int + 1) =~= value);
}

/// A number in the environment is the number that is used, and what is no number
/// gives the default.
pub proof fn law_numbers_are_read(
    env: Seq<(Seq<char>, Seq<char>)>,
    file: Seq<(Seq<char>, Seq<char>)>,
    key: Seq<char>,
    text: Seq<char>,
    default: nat,
    n: u64,
    bad: Seq<char>,
)
    requires
        number(bad, u64::MAX as nat) is None,
    ensures
        number_setting(env.push((key, decimal(n as nat))), file, key, text, default) == n,
        number_setting(env.push((key, bad)), file, key, text, default) == default,
{
    crate::util::text::lemma_decimal_reads_back(n as nat);
    law_later_entry_overrides(env, key, decimal(n as nat), key);
    law_later_entry_overrides(env, key, bad, key);
}

/// Every numeric setting of the environment ends up in the field of its name.
pub proof fn law_settings_reach_their_fields(
    c: Config,
    env: Seq<(Seq<char>, Seq<char>)>,
    file: Seq<(Seq<char>, Seq<char>)>,
    fallback: Option<(Seq<char>, Seq<char>)>,
    n: u64,
)
    requires
        c.follows(env, file, fallback),
    ensures
        value_of(env, "COLLECT_INTERVAL"@) == Some(decimal(n as nat)) ==> c.collect_interval == n,
        value_of(env, "HANG_WARN_SECS"@) == Some(decimal(n as nat)) ==> c.hang_warn_secs == n,
        value_of(env, "HANG_CRIT_SECS"@) == Some(decimal(n as nat)) ==> c.hang_crit_secs == n,
        value_of(env, "RESTART_SETTLE_WAIT"@) == Some(decimal(n as nat)) ==> c.restart_settle_wait
            == n,
        value_of(env, "RECOVERY_COOLDOWN"@) == Some(decimal(n as nat)) ==> c.recovery_cooldown
            == n,
        value_of(env, "MAX_VAULT_MB"@) == Some(decimal(n as nat)) ==> c.max_vault_mb == n,
        value_of(env, "CLOUD_BANDWIDTH"@) == Some(decimal(n as nat)) ==> c.cloud_bandwidth == n,
{
    crate::util::text::lemma_decimal_reads_back(n as nat);
}

/// The cloud is enabled by the word `true` and by nothing else; without a
/// setting it is not.
pub proof fn law_cloud_is_enabled_by_one_word(
    c: Config,
    env: Seq<(Seq<char>, Seq<char>)>,
    file: Seq<(Seq<char>, Seq<char>)>,
    fallback: Option<(Seq<char>, Seq<char>)>,
)
    requires
        c.follows(env, file, fallback),
    ensures
        c.cloud_enabled <==> value_of(env, "CLOUD_ENABLED"@) == Some("true"@) || (value_of(
            env,
            "CLOUD_ENABLED"@,
        ) is None && value_of(file, "CLOUD_ENABLED"@) == Some("true"@)),
        value_of(env, "CLOUD_REMOTE"@) matches Some(r) ==> c.cloud_remote@ == r,
        value_of(env, "IO_PRESSURE_THRESHOLD"@) matches Some(t) ==> c.io_pressure_threshold@ == t,
{
    reveal_strlit("true");
    reveal_strlit("false");
    assert("true"@[0] == 't' && "false"@[0] == 'f');
}

/// Dedicated credentials are used before those of OpenClaw, each by itself: a
/// missing token or a missing chat alone is taken from OpenClaw. A token that is
/// not shaped like one is never used.
pub proof fn law_dedicated_credentials_come_first(
    c: Config,
    env: Seq<(Seq<char>, Seq<char>)>,
    file: Seq<(Seq<char>, Seq<char>)>,
    fallback: Option<(Seq<char>, Seq<char>)>,
)
    requires
        c.follows(env, file, fallback),
    ensures
        c.tg_token@.len() > 0 ==> is_token(c.tg_token@),
        value_of(env, "OUTERCLAW_TG_TOKEN"@) matches Some(t) ==> is_token(t) && t.len() > 0
            ==> c.tg_token@ == t,
        value_of(env, "OUTERCLAW_TG_CHAT"@) matches Some(h) ==> h.len() > 0 ==> c.tg_chat@ == h,
        value_of(env, "OUTERCLAW_TG_TOKEN"@) is None && value_of(file, "OUTERCLAW_TG_TOKEN"@) is None
            ==> !c.tg_is_dedicated && (fallback matches Some(f) ==> is_token(f.0) ==> c.tg_token@
            == f.0),
        value_of(env, "OUTERCLAW_TG_CHAT"@) is None && value_of(file, "OUTERCLAW_TG_CHAT"@) is None
            ==> !c.tg_is_dedicated && (fallback matches Some(f) ==> c.tg_chat@ == f.1),
        (value_of(env, "OUTERCLAW_TG_TOKEN"@) matches Some(t) && t.len() > 0) && (value_of(
            env,
            "OUTERCLAW_TG_CHAT"@,
        ) matches Some(h) && h.len() > 0) ==> c.tg_is_dedicated,
{
}

/// A token is made of digits, a colon, and letters, digits, `_` and `-`, with
/// something on both sides; and whatever is so made is a token.
pub proof fn law_shape_of_a_token(id: Seq<char>, secret: Seq<char>, s: Seq<char>)
    ensures
        id.len() > 0 && all_digits(id) && is_name(secret) ==> is_token(id + ":"@ + secret),
        is_token(s) ==> exists|k: int|
            0 < k < s.len() - 1 && #[trigger] s[k] == ':' && all_digits(s.take(k)) && is_name(
                s.skip(k + 1),
            ),
{
    reveal_strlit(":");
    if id.len() > 0 && all_digits(id) && is_name(secret) {
        let t = id + ":"@ + secret;
        assert forall|j: int| 0 <= j < id.len() implies !Class::Is(':').holds(#[trigger] t[j]) by {
            assert(crate::util::text::is_digit(id[j]));
        }
        crate::util::text::lemma_upto_is(t, Class::Is(':'), 0, id.len() as int);
        assert(t.take(id.len() as int) =~= id);
        assert(t.skip(id.len() as int + 1) =~= secret);
    }
    if is_token(s) {
        crate::util::text::lemma_upto_bounds(s, Class::Is(':'), 0);
        let k = crate::util::text::upto(s, Class::Is(':'), 0);
        assert(s[k] == ':');
    }
}

/// A place that is set in the environment is used in either mode. Without
/// settings everything lies below the home of the user in user mode, and in the
/// system's directories otherwise.
pub proof fn law_places_follow_the_mode(
    env: Seq<(Seq<char>, Seq<char>)>,
    file: Seq<(Seq<char>, Seq<char>)>,
)
    ensures
        value_of(env, "AGENT_USER"@) matches Some(v) ==> places_of(env, file).agent_user == v,
        value_of(env, "AGENT_HOME"@) matches Some(v) ==> places_of(env, file).agent_home == v,
        value_of(env, "OPENCLAW_DIR"@) matches Some(v) ==> places_of(env, file).openclaw_dir == v,
        value_of(env, "VAULT_DIR"@) matches Some(v) ==> places_of(env, file).vault_dir == v,
        value_of(env, "WATCHDOG_USER"@) matches Some(v) ==> places_of(env, file).watchdog_user
            == v,
        ({
            let p = places_of(env, Seq::empty());
            let home = value_of(env, "HOME"@);
            let user = value_of(env, "USER"@);
            let unset = |k: Seq<char>| value_of(env, k) is None;
            &&& mode_of(env) == Mode::User && home is Some && unset("VAULT_DIR"@) ==> p.vault_dir
                == home->0 + "/.local/share/outerclaw"@
            &&& mode_of(env) == Mode::User && home is Some && unset("AGENT_HOME"@) ==> p.agent_home
                == home->0
            &&& mode_of(env) == Mode::User && user is Some && unset("AGENT_USER"@) && unset(
                "WATCHDOG_USER"@,
            ) ==> p.agent_user == user->0 && p.watchdog_user == user->0
            &&& mode_of(env) == Mode::Sudo && unset("VAULT_DIR"@) ==> p.vault_dir
                == "/var/lib/outerclaw"@
            &&& mode_of(env) == Mode::Sudo && unset("AGENT_HOME"@) ==> p.agent_home == "/home/"@
                + p.agent_user
            &&& mode_of(env) == Mode::Sudo && unset("AGENT_USER"@) && unset("WATCHDOG_USER"@)
                ==> p.agent_user == "ocagent"@ && p.watchdog_user == "outerclaw"@
            &&& unset("OPENCLAW_DIR"@) ==> p.openclaw_dir == p.agent_home + "/.openclaw"@
        }),
{
}

/// Without a word for user mode, the mode is the isolating one.
pub proof fn law_isolation_is_the_default(env: Seq<(Seq<char>, Seq<char>)>)
    ensures
        value_of(env, "OUTERCLAW_MODE"@) is None ==> mode_of(env) == Mode::Sudo,
        value_of(env, "OUTERCLAW_MODE"@) == Some("user"@) ==> mode_of(env) == Mode::User,
        mode_of(env) == Mode::User ==> value_of(env, "OUTERCLAW_MODE"@) is Some,
        value_of(env, "OUTERCLAW_ENV_FILE"@) matches Some(p) ==> env_file_location(
            mode_of(env),
            env,
        ) == p,
{
    reveal_strlit("user");
    assert(ascii_lower("user"@) =~= "user"@);
}

/// What no setting changes: the name of the service, and the limits.
pub proof fn law_fixed_values(c: Config)
    requires
        c.fixed(),
    ensures
        c.gateway_service@ == "openclaw-gateway.service"@,
        c.tick_interval == 1,
        c.health_timeout == 5,
        c.ctx_switch_threshold == 10,
        c.kill_graceful_timeout == 15,
        c.identity_unlock_timeout == 10 * 60,
        c.io_delta_threshold == 1024 * 1024,
        c.max_response_bytes == 1024 * 1024,
{
}

/// The addresses of the gateway are on this machine, at its port.
pub proof fn law_addresses_hold_the_port(c: Config, port: nat)
    requires
        c.listens_on(port),
    ensures
        c.gateway_port == port,
        c.health_url@ == "http://127.0.0.1:"@ + decimal(port) + "/health"@,
        c.sessions_url@ == "http://127.0.0.1:"@ + decimal(port) + "/sessions"@,
{
}

/// User mode has three spellings, in capital or small letters, and no other.
pub proof fn law_spellings_of_user_mode(value: Seq<char>)
    ensures
        ascii_lower(value) == "user"@ ==> Mode::asked(value) == Mode::User,
        ascii_lower(value) == "user-mode"@ ==> Mode::asked(value) == Mode::User,
        ascii_lower(value) == "usermode"@ ==> Mode::asked(value) == Mode::User,
        Mode::asked(value) == Mode::User ==> seq!["user"@, "user-mode"@, "usermode"@].contains(
            ascii_lower(value),
        ),
{
    let m = seq!["user"@, "user-mode"@, "usermode"@];
    assert(m[0] == "user"@ && m[1] == "user-mode"@ && m[2] == "usermode"@);
}

} // verus!
