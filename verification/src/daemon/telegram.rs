//! Two-way Telegram bot: what its updates ask for, and what it answers.

use crate::config::EnvMap;
use crate::util::json::{
    fields_view, json_tree, object_text, read_json, string_member, trees, write_object, Field,
    FieldView, Json, Kind, Tree, TreeKind,
};
use crate::util::order::{newest_first, sort_newest_first};
use crate::util::text::{
    begins, chars_of, decimal, join, joined, lowercase, past, reach, same, show, starts, sub_text,
    to_lower, trim, trim_both, trim_white, trimmed, upto, views, words, words_from, words_of, Class,
};
use crate::util::time_fmt::Timestamp;
use crate::vault::names::{is_main_snapshot, main_snapshot};
use vstd::prelude::*;

verus! {

/// Long-poll timeout for Telegram getUpdates (seconds).
pub const POLL_TIMEOUT: u64 = 15;

/// Back-off on API errors (seconds).
pub const ERROR_BACKOFF: u64 = 30;

/// Minimum interval between destructive commands (seconds).
pub const DESTRUCTIVE_COOLDOWN: u64 = 60;

/// The answer to `/help`.
pub const HELP: &'static str = "*OuterClaw Commands*\n`/status` -- Gateway state & metrics\n`/restart` -- Restart gateway service\n`/kill` -- Stop gateway process\n`/sessions` -- List active sessions\n`/kill_session <id>` -- Kill a specific session\n`/snapshots` -- List recent snapshots\n`/unlock_identity` -- Unlock identity files (10 min timeout)\n`/lock_identity` -- Lock identity files\n`/help` -- This help message";

/// The answer to a `/kill_session` without a session.
pub const KILL_SESSION_USAGE: &'static str = "Usage: `/kill_session <session_id>`\nUse `/sessions` to list active sessions.";

/// A command parsed from a Telegram message, queued for the main thread.
pub struct TelegramCommand {
    pub action: String,
    pub user: String,
    pub args: EnvMap,
}

/// The view of a command.
pub struct CommandView {
    pub action: Seq<char>,
    pub user: Seq<char>,
    pub args: Seq<(Seq<char>, Seq<char>)>,
}

impl View for TelegramCommand {
    type V = CommandView;

    open spec fn view(&self) -> CommandView {
        CommandView { action: self.action@, user: self.user@, args: self.args@ }
    }
}

/// A quick-status snapshot passed from the main thread to the bot for /status.
#[derive(Debug, Clone)]
pub struct StatusSnapshot {
    pub state: String,
    pub pid: String,
    pub uptime: String,
    pub rss_mb: String,
    pub last_check: String,
}

impl StatusSnapshot {
    /// The answer to `/status`.
    pub open spec fn message(self) -> Seq<char> {
        "*OuterClaw Status*\nState: `"@ + self.state@ + "`\nPID: `"@ + self.pid@ + "`\nUptime: `"@
            + self.uptime@ + "`\nRSS: `"@ + self.rss_mb@ + "MB`\nLast check: `"@ + self.last_check@
            + "`"@
    }

    /// The answer to `/status`.
    pub fn text(&self) -> (r: String)
        ensures
            r@ == self.message(),
    {
        let mut r = "*OuterClaw Status*\nState: `".to_owned();
        r.append(self.state.as_str());
        r.append("`\nPID: `");
        r.append(self.pid.as_str());
        r.append("`\nUptime: `");
        r.append(self.uptime.as_str());
        r.append("`\nRSS: `");
        r.append(self.rss_mb.as_str());
        r.append("MB`\nLast check: `");
        r.append(self.last_check.as_str());
        r.append("`");
        r
    }
}

// ── Requests ──────────────────────────────────────────────────────────

/// A JSON request to be posted.
pub struct Request {
    pub url: String,
    pub body: String,
}

/// The address of the bot API for a token.
pub open spec fn api_url(token: Seq<char>) -> Seq<char> {
    "https://api.telegram.org/bot"@ + token
}

/// The members of a `sendMessage` request.
pub open spec fn message_fields(chat_id: Seq<char>, text: Seq<char>) -> Seq<(Seq<char>, FieldView)> {
    seq![
        ("chat_id"@, FieldView::Text(chat_id)),
        ("text"@, FieldView::Text(text)),
        ("parse_mode"@, FieldView::Text("Markdown"@)),
    ]
}

impl Request {
    /// The request sends `text` to `chat_id`, through the API at `base_url`.
    pub open spec fn sends(self, base_url: Seq<char>, chat_id: Seq<char>, text: Seq<char>) -> bool {
        self.url@ == base_url + "/sendMessage"@ && self.body@ == object_text(
            message_fields(chat_id, text),
        )
    }
}

/// The request that sends a message, with Markdown formatting.
pub fn send_message_impl(base_url: &str, chat_id: &str, text: &str) -> (r: Request)
    ensures
        r.sends(base_url@, chat_id@, text@),
{
    let mut url = base_url.to_owned();
    url.append("/sendMessage");
    let fields = vec![
        ("chat_id".to_owned(), Field::Text(chat_id.to_owned())),
        ("text".to_owned(), Field::Text(text.to_owned())),
        ("parse_mode".to_owned(), Field::Text("Markdown".to_owned())),
    ];
    assert(fields_view(fields@) =~= message_fields(chat_id@, text@));
    Request { url, body: write_object(&fields) }
}

/// The request that sends a message with the bot of `token`, for the alert
/// module too.
pub fn send_telegram_message(token: &str, chat_id: &str, text: &str) -> (r: Request)
    ensures
        r.sends(api_url(token@), chat_id@, text@),
{
    let mut base_url = "https://api.telegram.org/bot".to_owned();
    base_url.append(token);
    send_message_impl(base_url.as_str(), chat_id, text)
}

/// Two-way Telegram bot.
pub struct TelegramBot {
    pub token: String,
    pub chat_id: String,
    pub base_url: String,
    pub running: bool,
    pub max_response_bytes: usize,
}

impl TelegramBot {
    /// A running bot.
    pub fn new(token: &str, chat_id: &str, max_response_bytes: usize) -> (r: Self)
        ensures
            r.token@ == token@,
            r.chat_id@ == chat_id@,
            r.base_url@ == api_url(token@),
            r.running,
            r.max_response_bytes == max_response_bytes,
    {
        let mut base_url = "https://api.telegram.org/bot".to_owned();
        base_url.append(token);
        TelegramBot {
            token: token.to_owned(),
            chat_id: chat_id.to_owned(),
            base_url,
            running: true,
            max_response_bytes,
        }
    }

    /// The polling state to start with.
    pub fn start(&self) -> (r: Poller)
        ensures
            r.chat_id@ == self.chat_id@,
            r.base_url@ == self.base_url@,
            r.max_response_bytes == self.max_response_bytes,
            r.offset == 0,
            r.last_destructive_cmd is None,
    {
        Poller {
            chat_id: self.chat_id.clone(),
            base_url: self.base_url.clone(),
            offset: 0,
            last_destructive_cmd: None,
            max_response_bytes: self.max_response_bytes,
        }
    }

    /// The request that sends a message to the configured chat.
    pub fn send_message(&self, text: &str) -> (r: Request)
        ensures
            r.sends(self.base_url@, self.chat_id@, text@),
    {
        send_message_impl(self.base_url.as_str(), self.chat_id.as_str(), text)
    }

    /// Signal the polling thread to stop.
    pub fn stop(&mut self)
        ensures
            !final(self).running,
            final(self).token == old(self).token,
            final(self).chat_id == old(self).chat_id,
            final(self).base_url == old(self).base_url,
            final(self).max_response_bytes == old(self).max_response_bytes,
    {
        self.running = false;
    }
}

// ── Commands ──────────────────────────────────────────────────────────

/// What the bot has to do.
pub enum BotAction {
    /// Send a message to the chat.
    Send(String),
    /// Hand a command to the main thread.
    Queue(TelegramCommand),
    /// Fetch the sessions and send the list.
    ListSessions,
    /// Read the snapshot directory and send the list.
    ListSnapshots,
}

/// The view of an action.
pub enum ActionView {
    Send(Seq<char>),
    Queue(CommandView),
    ListSessions,
    ListSnapshots,
}

impl View for BotAction {
    type V = ActionView;

    open spec fn view(&self) -> ActionView {
        match self {
            BotAction::Send(t) => ActionView::Send(t@),
            BotAction::Queue(c) => ActionView::Queue(c@),
            BotAction::ListSessions => ActionView::ListSessions,
            BotAction::ListSnapshots => ActionView::ListSnapshots,
        }
    }
}

/// The views of actions.
pub open spec fn actions_view(v: Seq<BotAction>) -> Seq<ActionView> {
    Seq::new(v.len(), |i: int| v[i]@)
}

/// The characters that Markdown gives a meaning.
pub open spec fn is_special(c: char) -> bool {
    c == '\\' || c == '`' || c == '*' || c == '_' || c == '[' || c == ']' || c == '(' || c == ')'
}

/// The first `n` characters of `s`, each special one with a backslash in front.
pub open spec fn escaped(s: Seq<char>, n: int) -> Seq<char>
    decreases n,
{
    if n <= 0 {
        Seq::empty()
    } else if is_special(s[n - 1]) {
        escaped(s, n - 1).push('\\').push(s[n - 1])
    } else {
        escaped(s, n - 1).push(s[n - 1])
    }
}

/// `s` with a backslash in front of each special character.
pub open spec fn sanitized(s: Seq<char>) -> Seq<char> {
    escaped(s, s.len() as int)
}

/// Escape Markdown special characters in a username for safe interpolation.
pub fn sanitize_markdown(input: &str) -> (r: String)
    ensures
        r@ == sanitized(input@),
{
    let v = chars_of(input);
    let mut out = String::new();
    let mut i: usize = 0;
    while i < v.len()
        invariant
            v@ == input@,
            i <= v@.len(),
            out@ == escaped(input@, i as int),
        decreases v@.len() - i,
    {
        let c = v[i];
        if c == '\\' || c == '`' || c == '*' || c == '_' || c == '[' || c == ']' || c == '(' || c
            == ')' {
            out.push('\\');
        }
        out.push(c);
        i += 1;
    }
    out
}

/// `s` up to the first `@`.
pub open spec fn before_at(s: Seq<char>) -> Seq<char> {
    s.take(upto(s, Class::Is('@'), 0))
}

/// The commands that are rate-limited.
pub open spec fn destructive(cmd: Seq<char>) -> bool {
    cmd == "/restart"@ || cmd == "/kill"@ || cmd == "/kill_session"@ || cmd == "/unlock_identity"@
}

/// A queued command without arguments.
pub open spec fn queued(action: Seq<char>, user: Seq<char>) -> ActionView {
    ActionView::Queue(CommandView { action, user, args: Seq::empty() })
}

/// What the command `cmd` leads to. `parts` are the words of the message,
/// `user` is the sender, and `status` the answer to `/status`.
pub open spec fn replies(
    cmd: Seq<char>,
    parts: Seq<Seq<char>>,
    user: Seq<char>,
    status: Seq<char>,
) -> Seq<ActionView> {
    if cmd == "/help"@ {
        seq![ActionView::Send(HELP@)]
    } else if cmd == "/status"@ {
        seq![ActionView::Send(status)]
    } else if cmd == "/restart"@ {
        seq![
            ActionView::Send("Restarting gateway (requested by "@ + user + ")..."@),
            queued("restart"@, user),
        ]
    } else if cmd == "/kill"@ {
        seq![
            ActionView::Send("Stopping gateway (requested by "@ + user + ")..."@),
            queued("kill"@, user),
        ]
    } else if cmd == "/sessions"@ {
        seq![ActionView::ListSessions]
    } else if cmd == "/kill_session"@ {
        if parts.len() < 2 {
            seq![ActionView::Send(KILL_SESSION_USAGE@)]
        } else {
            seq![
                ActionView::Send(
                    "Killing session `"@ + parts[1] + "` (requested by "@ + user + ")..."@,
                ),
                ActionView::Queue(
                    CommandView {
                        action: "kill_session"@,
                        user,
                        args: seq![("session_id"@, parts[1])],
                    },
                ),
            ]
        }
    } else if cmd == "/snapshots"@ {
        seq![ActionView::ListSnapshots]
    } else if cmd == "/unlock_identity"@ {
        seq![
            ActionView::Send("Unlocking identity files (requested by "@ + user + ")..."@),
            queued("unlock_identity"@, user),
        ]
    } else if cmd == "/lock_identity"@ {
        seq![queued("lock_identity"@, user)]
    } else {
        seq![
            ActionView::Send(
                "Unknown command: `"@ + cmd + "`\nUse /help for available commands."@,
            ),
        ]
    }
}

/// When a destructive command was last let through, and what to do, after the
/// command `cmd` from the right chat.
pub open spec fn commanded(
    last: Option<Timestamp>,
    cmd: Seq<char>,
    parts: Seq<Seq<char>>,
    user: Seq<char>,
    status: Seq<char>,
    now: Timestamp,
) -> (Option<Timestamp>, Seq<ActionView>) {
    if destructive(cmd) {
        if last matches Some(t) && now.waited(t) < DESTRUCTIVE_COOLDOWN {
            (
                last,
                seq![
                    ActionView::Send(
                        "Rate limited -- wait "@ + decimal(
                            (DESTRUCTIVE_COOLDOWN - now.waited(last->0)) as nat,
                        ) + "s before retrying."@,
                    ),
                ],
            )
        } else {
            (Some(now), replies(cmd, parts, user, status))
        }
    } else {
        (last, replies(cmd, parts, user, status))
    }
}

/// What a message says: its text, the chat it comes from, and its sender.
pub struct MessageView {
    pub text: Seq<char>,
    pub chat: Seq<char>,
    pub user: Seq<char>,
}

/// The message that an update brings.
pub open spec fn message_of(update: Tree) -> Option<MessageView> {
    match update.member("message"@) {
        None => None,
        Some(m) => Some(
            MessageView {
                text: match string_member(m, "text"@) {
                    Some(t) => trim_white(t),
                    None => Seq::empty(),
                },
                chat: match m.member("chat"@) {
                    Some(c) => match c.member("id"@) {
                        Some(id) => trimmed(id.text, Class::Is('"')),
                        None => Seq::empty(),
                    },
                    None => Seq::empty(),
                },
                user: match m.member("from"@) {
                    Some(f) => match string_member(f, "username"@) {
                        Some(u) => u,
                        None => "unknown"@,
                    },
                    None => "unknown"@,
                },
            },
        ),
    }
}

/// The command that a text starting with a slash gives: its first word in
/// lower case, without a bot's name behind an `@`.
pub open spec fn command_of(text: Seq<char>) -> Seq<char> {
    before_at(lowercase(words(text)[0]))
}

/// When a destructive command was last let through, and what to do, after an update.
pub open spec fn handled(
    chat_id: Seq<char>,
    last: Option<Timestamp>,
    update: Tree,
    status: Seq<char>,
    now: Timestamp,
) -> (Option<Timestamp>, Seq<ActionView>) {
    match message_of(update) {
        None => (last, Seq::empty()),
        Some(m) => if !begins(m.text, "/"@) || m.chat != chat_id {
            (last, Seq::empty())
        } else {
            commanded(last, command_of(m.text), words(m.text), sanitized(m.user), status, now)
        },
    }
}

/// Internal polling state.
pub struct Poller {
    pub chat_id: String,
    pub base_url: String,
    pub offset: i64,
    pub last_destructive_cmd: Option<Timestamp>,
    pub max_response_bytes: usize,
}

/// A text that begins with a slash has a first word.
proof fn lemma_first_word(text: Seq<char>)
    requires
        begins(text, "/"@),
    ensures
        words(text).len() >= 1,
{
    reveal_strlit("/");
    assert(text.subrange(0, 1)[0] == '/');
    assert(past(text, Class::White, 0) == 0);
    crate::util::text::lemma_upto_bounds(text, Class::White, 1);
    assert(upto(text, Class::White, 0) == upto(text, Class::White, 1));
    let b = upto(text, Class::White, 0);
    assert(words_from(text, 0) == seq![text.subrange(0, b)] + words_from(text, b));
}

/// The members of a `getUpdates` request.
pub open spec fn poll_fields(offset: i64) -> Seq<(Seq<char>, FieldView)> {
    seq![
        ("offset"@, FieldView::Int(offset)),
        ("timeout"@, FieldView::Uint(POLL_TIMEOUT)),
        ("allowed_updates"@, FieldView::List(seq!["message"@])),
    ]
}

/// The updates in an answer of `getUpdates`: the result, where the answer says
/// that it went well.
pub open spec fn updates_in(t: Tree) -> Option<Tree> {
    match t.member("ok"@) {
        Some(ok) => if ok.kind == TreeKind::Bool(true) {
            t.member("result"@)
        } else {
            None
        },
        None => None,
    }
}

/// The identifier of an update.
pub open spec fn update_id(update: Tree) -> Option<i64> {
    match update.member("update_id"@) {
        Some(id) => match id.kind {
            TreeKind::Number(n) => n,
            _ => None,
        },
        None => None,
    }
}

/// The offset that confirms the update `id`.
pub open spec fn offset_after(id: i64) -> i64 {
    if id == i64::MAX {
        i64::MIN
    } else {
        (id + 1) as i64
    }
}

/// The polling state and the actions after some updates.
pub struct Handled {
    pub offset: i64,
    pub last: Option<Timestamp>,
    pub actions: Seq<ActionView>,
}

/// The polling state and the actions after the first `n` updates.
pub open spec fn handled_all(
    chat_id: Seq<char>,
    offset: i64,
    last: Option<Timestamp>,
    updates: Seq<Tree>,
    status: Seq<char>,
    now: Timestamp,
    n: int,
) -> Handled
    decreases n,
{
    if n <= 0 {
        Handled { offset, last, actions: Seq::empty() }
    } else {
        let h = handled_all(chat_id, offset, last, updates, status, now, n - 1);
        let (l, more) = handled(chat_id, h.last, updates[n - 1], status, now);
        Handled {
            offset: match update_id(updates[n - 1]) {
                Some(id) => offset_after(id),
                None => h.offset,
            },
            last: l,
            actions: h.actions + more,
        }
    }
}

/// The updates in the text of an answer; `None` where the text is too long, is
/// no JSON, or reports an error.
pub open spec fn polled(text: Seq<char>, bytes: nat, max_bytes: nat) -> Option<Tree> {
    if bytes <= max_bytes {
        match json_tree(text) {
            Some(t) => updates_in(t),
            None => None,
        }
    } else {
        None
    }
}

impl Poller {
    /// The request that asks for new updates.
    pub fn get_updates(&self) -> (r: Request)
        ensures
            r.url@ == self.base_url@ + "/getUpdates"@,
            r.body@ == object_text(poll_fields(self.offset)),
    {
        let mut url = self.base_url.clone();
        url.append("/getUpdates");
        let kinds = vec!["message".to_owned()];
        assert(views(kinds@) =~= seq!["message"@]);
        let fields = vec![
            ("offset".to_owned(), Field::Int(self.offset)),
            ("timeout".to_owned(), Field::Uint(POLL_TIMEOUT)),
            ("allowed_updates".to_owned(), Field::List(kinds)),
        ];
        assert(fields_view(fields@) =~= poll_fields(self.offset));
        Request { url, body: write_object(&fields) }
    }

    /// The updates in an answer of `getUpdates` that was read as JSON.
    pub fn updates<'a>(answer: &'a Json) -> (r: Option<&'a Json>)
        ensures
            match r {
                Some(u) => updates_in(answer@) == Some(u@),
                None => updates_in(answer@) is None,
            },
    {
        match answer.get("ok") {
            Some(ok) => match ok.kind {
                Kind::Bool(true) => answer.get("result"),
                _ => None,
            },
            None => None,
        }
    }

    /// Handle the updates in a list: confirm each, and do what it asks for.
    pub fn handle_updates(&mut self, updates: &Vec<Json>, status: &StatusSnapshot, now: Timestamp) -> (r:
        Vec<BotAction>)
        ensures
            final(self).chat_id == old(self).chat_id,
            final(self).base_url == old(self).base_url,
            final(self).max_response_bytes == old(self).max_response_bytes,
            (Handled {
                offset: final(self).offset,
                last: final(self).last_destructive_cmd,
                actions: actions_view(r@),
            }) == handled_all(
                old(self).chat_id@,
                old(self).offset,
                old(self).last_destructive_cmd,
                trees(updates@),
                status.message(),
                now,
                updates@.len() as int,
            ),
    {
        let mut r: Vec<BotAction> = Vec::new();
        assert(actions_view(r@) =~= Seq::<ActionView>::empty());
        let mut i: usize = 0;
        while i < updates.len()
            invariant
                i <= updates@.len(),
                self.chat_id == old(self).chat_id,
                self.base_url == old(self).base_url,
                self.max_response_bytes == old(self).max_response_bytes,
                (Handled {
                    offset: self.offset,
                    last: self.last_destructive_cmd,
                    actions: actions_view(r@),
                }) == handled_all(
                    old(self).chat_id@,
                    old(self).offset,
                    old(self).last_destructive_cmd,
                    trees(updates@),
                    status.message(),
                    now,
                    i as int,
                ),
            decreases updates@.len() - i,
        {
            let update = &updates[i];
            assert(trees(updates@)[i as int] == update@);
            if let Some(field) = update.get("update_id") {
                if let Kind::Number(Some(id)) = field.kind {
                    self.offset = if id == i64::MAX {
                        i64::MIN
                    } else {
                        id + 1
                    };
                }
            }
            let ghost before = actions_view(r@);
            let mut more = self.handle_update(update, status, now);
            let ghost added = actions_view(more@);
            r.append(&mut more);
            assert(actions_view(r@) =~= before + added);
            i += 1;
        }
        r
    }

    /// Handle an answer of `getUpdates`, `None` where the request failed.
    /// Returns what to do, or `None` where the answer was no good and the next
    /// request has to wait.
    pub fn on_response(&mut self, answer: Option<&str>, status: &StatusSnapshot, now: Timestamp) -> (r:
        Option<Vec<BotAction>>)
        ensures
            final(self).chat_id == old(self).chat_id,
            final(self).base_url == old(self).base_url,
            final(self).max_response_bytes == old(self).max_response_bytes,
            match answer {
                None => r is None && *final(self) == *old(self),
                Some(text) => match polled(
                    text@,
                    text.len() as nat,
                    old(self).max_response_bytes as nat,
                ) {
                    None => r is None && *final(self) == *old(self),
                    Some(t) => match t.elements() {
                        None => r matches Some(v) && v@.len() == 0 && *final(self) == *old(self),
                        Some(updates) => r matches Some(v) && (Handled {
                            offset: final(self).offset,
                            last: final(self).last_destructive_cmd,
                            actions: actions_view(v@),
                        }) == handled_all(
                            old(self).chat_id@,
                            old(self).offset,
                            old(self).last_destructive_cmd,
                            updates,
                            status.message(),
                            now,
                            updates.len() as int,
                        ),
                    },
                },
            },
    {
        let text = match answer {
            Some(t) => t,
            None => return None,
        };
        if text.len() > self.max_response_bytes {
            return None;
        }
        let json = match read_json(text) {
            Some(j) => j,
            None => return None,
        };
        match Poller::updates(&json) {
            None => None,
            Some(u) => match u.as_array() {
                None => Some(Vec::new()),
                Some(list) => Some(self.handle_updates(list, status, now)),
            },
        }
    }

    /// Handle one update: only commands from the configured chat count.
    pub fn handle_update(&mut self, update: &Json, status: &StatusSnapshot, now: Timestamp) -> (r:
        Vec<BotAction>)
        ensures
            final(self).chat_id == old(self).chat_id,
            final(self).base_url == old(self).base_url,
            final(self).offset == old(self).offset,
            final(self).max_response_bytes == old(self).max_response_bytes,
            (final(self).last_destructive_cmd, actions_view(r@)) == handled(
                old(self).chat_id@,
                old(self).last_destructive_cmd,
                update@,
                status.message(),
                now,
            ),
    {
        let none: Vec<BotAction> = Vec::new();
        assert(actions_view(none@) =~= Seq::<ActionView>::empty());
        let msg = match update.get("message") {
            Some(m) => m,
            None => return none,
        };
        proof {
            reveal_strlit("");
            assert(""@ =~= Seq::<char>::empty());
            assert(trim_white(Seq::<char>::empty()) =~= Seq::<char>::empty());
        }
        let text = match msg.get_str("text") {
            Some(t) => trim(t),
            None => "",
        };
        let chat = match msg.get("chat") {
            Some(c) => match c.get("id") {
                Some(id) => trim_both(id.text.as_str(), Class::Is('"')),
                None => "",
            },
            None => "",
        };
        let username = match msg.get("from") {
            Some(f) => match f.get_str("username") {
                Some(u) => u,
                None => "unknown",
            },
            None => "unknown",
        };
        // Sanitize username for safe Markdown interpolation
        let user = sanitize_markdown(username);
        if !starts(text, "/") {
            return none;
        }
        // Authorization: only accept from configured chat
        if !same(chat, self.chat_id.as_str()) {
            return none;
        }
        // Parse command (strip @botname suffix)
        let parts = words_of(text);
        proof {
            lemma_first_word(text@);
            assert(parts@.len() == words(text@).len());
            assert(views(parts@)[0] == parts@[0]@);
        }
        let first = to_lower(parts[0].as_str());
        let v = chars_of(first.as_str());
        let end = reach(&v, Class::Is('@'), 0);
        let cmd = sub_text(&v, 0, end);
        assert(cmd@ =~= command_of(text@));
        self.run_command(cmd.as_str(), &parts, user.as_str(), status, now)
    }

    /// Do what the command `cmd` from the configured chat asks for, unless it
    /// is destructive and follows another such too closely.
    pub fn run_command(
        &mut self,
        cmd: &str,
        parts: &Vec<String>,
        user: &str,
        status: &StatusSnapshot,
        now: Timestamp,
    ) -> (r: Vec<BotAction>)
        ensures
            final(self).chat_id == old(self).chat_id,
            final(self).base_url == old(self).base_url,
            final(self).offset == old(self).offset,
            final(self).max_response_bytes == old(self).max_response_bytes,
            (final(self).last_destructive_cmd, actions_view(r@)) == commanded(
                old(self).last_destructive_cmd,
                cmd@,
                views(parts@),
                user@,
                status.message(),
                now,
            ),
    {
        // Rate-limit destructive commands
        if same(cmd, "/restart") || same(cmd, "/kill") || same(cmd, "/kill_session") || same(
            cmd,
            "/unlock_identity",
        ) {
            if let Some(last) = self.last_destructive_cmd {
                let elapsed: u128 = now.secs_waited(&last);
                if elapsed < DESTRUCTIVE_COOLDOWN as u128 {
                    let mut m = "Rate limited -- wait ".to_owned();
                    m.append(show(DESTRUCTIVE_COOLDOWN - elapsed as u64).as_str());
                    m.append("s before retrying.");
                    let r = vec![BotAction::Send(m)];
                    assert(actions_view(r@) =~= seq![ActionView::Send(m@)]);
                    return r;
                }
            }
            self.last_destructive_cmd = Some(now);
        }
        reply(cmd, parts, user, status)
    }
}

/// What the command `cmd` leads to.
fn reply(cmd: &str, parts: &Vec<String>, user: &str, status: &StatusSnapshot) -> (r: Vec<BotAction>)
    ensures
        actions_view(r@) == replies(cmd@, views(parts@), user@, status.message()),
{
    let ghost want = replies(cmd@, views(parts@), user@, status.message());
    if same(cmd, "/help") {
        let r = vec![BotAction::Send(HELP.to_owned())];
        assert(actions_view(r@) =~= want);
        r
    } else if same(cmd, "/status") {
        let r = vec![BotAction::Send(status.text())];
        assert(actions_view(r@) =~= want);
        r
    } else if same(cmd, "/restart") {
        let r = vec![
            requested("Restarting gateway (requested by ", user),
            queue_cmd("restart", user, EnvMap::new()),
        ];
        assert(actions_view(r@) =~= want);
        r
    } else if same(cmd, "/kill") {
        let r = vec![
            requested("Stopping gateway (requested by ", user),
            queue_cmd("kill", user, EnvMap::new()),
        ];
        assert(actions_view(r@) =~= want);
        r
    } else if same(cmd, "/sessions") {
        let r = vec![BotAction::ListSessions];
        assert(actions_view(r@) =~= want);
        r
    } else if same(cmd, "/kill_session") {
        if parts.len() < 2 {
            let r = vec![BotAction::Send(KILL_SESSION_USAGE.to_owned())];
            assert(actions_view(r@) =~= want);
            r
        } else {
            let session = parts[1].as_str();
            let mut m = "Killing session `".to_owned();
            m.append(session);
            m.append("` (requested by ");
            m.append(user);
            m.append(")...");
            let mut args = EnvMap::new();
            args.set("session_id", session);
            assert(args@ =~= seq![("session_id"@, session@)]);
            let r = vec![BotAction::Send(m), queue_cmd("kill_session", user, args)];
            assert(actions_view(r@) =~= want);
            r
        }
    } else if same(cmd, "/snapshots") {
        let r = vec![BotAction::ListSnapshots];
        assert(actions_view(r@) =~= want);
        r
    } else if same(cmd, "/unlock_identity") {
        let r = vec![
            requested("Unlocking identity files (requested by ", user),
            queue_cmd("unlock_identity", user, EnvMap::new()),
        ];
        assert(actions_view(r@) =~= want);
        r
    } else if same(cmd, "/lock_identity") {
        let r = vec![queue_cmd("lock_identity", user, EnvMap::new())];
        assert(actions_view(r@) =~= want);
        r
    } else {
        let mut m = "Unknown command: `".to_owned();
        m.append(cmd);
        m.append("`\nUse /help for available commands.");
        let r = vec![BotAction::Send(m)];
        assert(actions_view(r@) =~= want);
        r
    }
}

/// A message that names who requested something.
fn requested(what: &str, user: &str) -> (r: BotAction)
    ensures
        r@ == ActionView::Send(what@ + user@ + ")..."@),
{
    let mut m = what.to_owned();
    m.append(user);
    m.append(")...");
    BotAction::Send(m)
}

/// A command for the main thread.
pub fn queue_cmd(action: &str, user: &str, args: EnvMap) -> (r: BotAction)
    ensures
        r@ == ActionView::Queue(CommandView { action: action@, user: user@, args: args@ }),
{
    BotAction::Queue(TelegramCommand { action: action.to_owned(), user: user.to_owned(), args })
}

// ── Lists ─────────────────────────────────────────────────────────────

/// The string of the member `first`, or of `second` where there is no `first`.
pub open spec fn either_string(t: Tree, first: Seq<char>, second: Seq<char>) -> Option<Seq<char>> {
    match t.member(first) {
        Some(m) => m.string(),
        None => string_member(t, second),
    }
}

/// The string of the member `first`, or of `second` where there is no `first`.
fn get_either<'a>(j: &'a Json, first: &str, second: &str) -> (r: Option<&'a str>)
    ensures
        match r {
            Some(s) => either_string(j@, first@, second@) == Some(s@),
            None => either_string(j@, first@, second@) is None,
        },
{
    match j.get(first) {
        Some(m) => m.as_str(),
        None => j.get_str(second),
    }
}

/// One line of the session list.
pub open spec fn session_line(s: Tree) -> Seq<char> {
    let id = either_string(s, "id"@, "session_id"@).unwrap_or("?"@);
    let created = either_string(s, "created"@, "started_at"@).unwrap_or(Seq::empty());
    let status = either_string(s, "status"@, "state"@).unwrap_or(Seq::empty());
    let head = "`"@ + id + "`"@;
    let with_status = if status.len() > 0 {
        head + " ["@ + status + "]"@
    } else {
        head
    };
    if created.len() > 0 {
        with_status + " ("@ + created + ")"@
    } else {
        with_status
    }
}

/// One line of the session list.
fn format_session(s: &Json) -> (r: String)
    ensures
        r@ == session_line(s@),
{
    let mut line = "`".to_owned();
    match get_either(s, "id", "session_id") {
        Some(id) => line.append(id),
        None => line.append("?"),
    }
    line.append("`");
    if let Some(status) = get_either(s, "status", "state") {
        if !status.is_empty() {
            line.append(" [");
            line.append(status);
            line.append("]");
        }
    }
    if let Some(created) = get_either(s, "created", "started_at") {
        if !created.is_empty() {
            line.append(" (");
            line.append(created);
            line.append(")");
        }
    }
    line
}

/// The sessions that the gateway reports: an array, or the array `sessions` of
/// an object.
pub open spec fn sessions_in(data: Tree) -> Option<Seq<Tree>> {
    match data.elements() {
        Some(v) => Some(v),
        None => match data.member("sessions"@) {
            Some(m) => m.elements(),
            None => None,
        },
    }
}

/// The lines of the first `n` sessions.
pub open spec fn session_lines(sessions: Seq<Tree>, n: int) -> Seq<Seq<char>> {
    Seq::new(n as nat, |i: int| session_line(sessions[i]))
}

/// The list of sessions, cut after twenty.
pub open spec fn session_list(data: Tree) -> Seq<char> {
    match sessions_in(data) {
        None => "No active sessions."@,
        Some(v) => if v.len() == 0 {
            "No active sessions."@
        } else {
            "*Active Sessions ("@ + decimal(v.len()) + ")*\n"@ + joined(
                session_lines(
                    v,
                    if v.len() < 20 {
                        v.len() as int
                    } else {
                        20
                    },
                ),
                "\n"@,
            )
        },
    }
}

/// The list of sessions in the gateway's answer.
pub fn format_sessions(data: &Json) -> (r: String)
    ensures
        r@ == session_list(data@),
{
    let sessions = match data.as_array() {
        Some(v) => v,
        None => match data.get("sessions") {
            Some(m) => match m.as_array() {
                Some(v) => v,
                None => return "No active sessions.".to_owned(),
            },
            None => return "No active sessions.".to_owned(),
        },
    };
    if sessions.len() == 0 {
        return "No active sessions.".to_owned();
    }
    let n: usize = if sessions.len() < 20 {
        sessions.len()
    } else {
        20
    };
    let mut lines: Vec<String> = Vec::new();
    let mut i: usize = 0;
    while i < n
        invariant
            i <= n <= sessions@.len(),
            views(lines@) =~= session_lines(trees(sessions@), i as int),
        decreases n - i,
    {
        let ghost before = views(lines@);
        let line = format_session(&sessions[i]);
        assert(trees(sessions@)[i as int] == sessions@[i as int]@);
        lines.push(line);
        assert(views(lines@) =~= before.push(session_line(trees(sessions@)[i as int])));
        i += 1;
    }
    let mut r = "*Active Sessions (".to_owned();
    r.append(show(sessions.len() as u64).as_str());
    r.append(")*\n");
    r.append(join(&lines, "\n").as_str());
    r
}

/// What `/sessions` answers, given the text of the gateway's answer; `None`
/// where the gateway could not be reached.
pub open spec fn sessions_answer(answer: Option<Seq<char>>, bytes: nat, max_bytes: nat) -> Seq<char> {
    match answer {
        Some(text) => if bytes > max_bytes {
            "Failed to query sessions (gateway unreachable)."@
        } else {
            match json_tree(text) {
                Some(t) => session_list(t),
                None => "Failed to query sessions (gateway unreachable)."@,
            }
        },
        None => "Failed to query sessions (gateway unreachable)."@,
    }
}

/// What `/sessions` answers, given the text of the gateway's answer; `None`
/// where the gateway could not be reached.
pub fn cmd_sessions(answer: Option<&str>, max_bytes: usize) -> (r: String)
    ensures
        r@ == match answer {
            Some(t) => sessions_answer(Some(t@), t.len() as nat, max_bytes as nat),
            None => sessions_answer(None, 0, max_bytes as nat),
        },
{
    if let Some(text) = answer {
        if text.len() <= max_bytes {
            if let Some(json) = read_json(text) {
                return format_sessions(&json);
            }
        }
    }
    "Failed to query sessions (gateway unreachable).".to_owned()
}

/// The snapshots of the main database among the first `n` files.
pub open spec fn main_snapshots(files: Seq<(String, u64)>, n: int) -> Seq<(String, u64)>
    decreases n,
{
    if n <= 0 {
        Seq::empty()
    } else if main_snapshot(files[n - 1].0@) {
        main_snapshots(files, n - 1).push(files[n - 1])
    } else {
        main_snapshots(files, n - 1)
    }
}

/// The lines of the first `n` snapshots.
pub open spec fn snapshot_lines(files: Seq<(String, u64)>, n: int) -> Seq<Seq<char>> {
    Seq::new(
        n as nat,
        |i: int| "`"@ + files[i].0@ + "` ("@ + decimal((files[i].1 / 1024) as nat) + "KB)"@,
    )
}

/// The list of snapshots, newest first, cut after five.
pub open spec fn snapshot_list(sorted: Seq<(String, u64)>) -> Seq<char> {
    if sorted.len() == 0 {
        "No snapshots found."@
    } else {
        "*Recent Snapshots*\n"@ + joined(
            snapshot_lines(
                sorted,
                if sorted.len() < 5 {
                    sorted.len() as int
                } else {
                    5
                },
            ),
            "\n"@,
        )
    }
}

/// What `/snapshots` answers, given the names and the sizes in bytes of the
/// files in the snapshot directory.
pub fn cmd_snapshots(files: Vec<(String, u64)>) -> (r: String)
    ensures
        exists|sorted: Seq<(String, u64)>|
            newest_first(main_snapshots(files@, files@.len() as int), sorted) && r@
                == #[trigger] snapshot_list(sorted),
{
    let ghost all = files@;
    let mut found: Vec<(String, u64)> = Vec::new();
    let mut i: usize = 0;
    while i < files.len()
        invariant
            i <= files@.len(),
            found@ == main_snapshots(files@, i as int),
        decreases files@.len() - i,
    {
        if is_main_snapshot(files[i].0.as_str()) {
            found.push((files[i].0.clone(), files[i].1));
        }
        i += 1;
    }
    let sorted = sort_newest_first(found);
    if sorted.len() == 0 {
        assert(snapshot_list(sorted@) == "No snapshots found."@);
        return "No snapshots found.".to_owned();
    }
    let n: usize = if sorted.len() < 5 {
        sorted.len()
    } else {
        5
    };
    let mut lines: Vec<String> = Vec::new();
    let mut k: usize = 0;
    while k < n
        invariant
            k <= n <= sorted@.len(),
            views(lines@) =~= snapshot_lines(sorted@, k as int),
        decreases n - k,
    {
        let ghost before = views(lines@);
        let mut line = "`".to_owned();
        line.append(sorted[k].0.as_str());
        line.append("` (");
        line.append(show(sorted[k].1 / 1024).as_str());
        line.append("KB)");
        lines.push(line);
        assert(views(lines@) =~= before.push(line@));
        k += 1;
    }
    let mut r = "*Recent Snapshots*\n".to_owned();
    r.append(join(&lines, "\n").as_str());
    assert(r@ == snapshot_list(sorted@));
    r
}

// ── Laws ──────────────────────────────────────────────────────────────

/// A message from any chat but the configured one changes nothing and is not
/// answered.
pub proof fn law_foreign_chats_are_ignored(
    chat_id: Seq<char>,
    last: Option<Timestamp>,
    update: Tree,
    status: Seq<char>,
    now: Timestamp,
)
    requires
        message_of(update) matches Some(m) && m.chat != chat_id,
    ensures
        handled(chat_id, last, update, status, now) == (last, Seq::<ActionView>::empty()),
{
}

/// A destructive command within the cooldown of another is answered with the
/// time to wait, and nothing is queued; the cooldown is not prolonged.
pub proof fn law_destructive_commands_are_limited(
    last: Timestamp,
    cmd: Seq<char>,
    parts: Seq<Seq<char>>,
    user: Seq<char>,
    status: Seq<char>,
    now: Timestamp,
)
    requires
        destructive(cmd),
        now.waited(last) < DESTRUCTIVE_COOLDOWN,
    ensures
        commanded(Some(last), cmd, parts, user, status, now).0 == Some(last),
        commanded(Some(last), cmd, parts, user, status, now).1.len() == 1,
        commanded(Some(last), cmd, parts, user, status, now).1[0] is Send,
{
}

/// Only destructive commands start or wait for the cooldown.
pub proof fn law_harmless_commands_are_not_limited(
    last: Option<Timestamp>,
    cmd: Seq<char>,
    parts: Seq<Seq<char>>,
    user: Seq<char>,
    status: Seq<char>,
    now: Timestamp,
)
    requires
        !destructive(cmd),
    ensures
        commanded(last, cmd, parts, user, status, now) == (
            last,
            replies(cmd, parts, user, status),
        ),
{
}

/// The characters of a text from position `i` on, each with whether a backslash
/// escapes it: a backslash takes the meaning of the character behind it, and is
/// no character itself.
pub open spec fn escapes_read(t: Seq<char>, i: int) -> Seq<(char, bool)>
    decreases t.len() - i,
{
    if i < 0 || i >= t.len() {
        Seq::empty()
    } else if t[i] == '\\' && i + 1 < t.len() {
        seq![(t[i + 1], true)] + escapes_read(t, i + 2)
    } else {
        seq![(t[i], false)] + escapes_read(t, i + 1)
    }
}

/// What fewer characters are escaped to begins what more are.
proof fn lemma_escaped_begins(s: Seq<char>, k: int, n: int)
    requires
        0 <= k <= n <= s.len(),
    ensures
        escaped(s, k).len() <= escaped(s, n).len(),
        forall|j: int|
            0 <= j < escaped(s, k).len() ==> #[trigger] escaped(s, n)[j] == escaped(s, k)[j],
    decreases n - k,
{
    if k < n {
        lemma_escaped_begins(s, k, n - 1);
    }
}

/// Behind the first `k` characters, an escaped text reads as the others.
proof fn lemma_escapes_read(s: Seq<char>, k: int)
    requires
        0 <= k <= s.len(),
    ensures
        escapes_read(sanitized(s), escaped(s, k).len() as int) == Seq::new(
            (s.len() - k) as nat,
            |i: int| (s[k + i], is_special(s[k + i])),
        ),
    decreases s.len() - k,
{
    let t = sanitized(s);
    let p = escaped(s, k).len() as int;
    let want = Seq::new((s.len() - k) as nat, |i: int| (s[k + i], is_special(s[k + i])));
    if k < s.len() {
        lemma_escaped_begins(s, k + 1, s.len() as int);
        lemma_escapes_read(s, k + 1);
        let next = escaped(s, k + 1);
        let rest = Seq::new(
            (s.len() - (k + 1)) as nat,
            |i: int| (s[k + 1 + i], is_special(s[k + 1 + i])),
        );
        assert(t[p] == next[p]);
        if is_special(s[k]) {
            assert(t[p + 1] == next[p + 1]);
            assert(t[p] == '\\' && t[p + 1] == s[k]);
        } else {
            assert(t[p] == s[k]);
        }
        assert(want =~= seq![(s[k], is_special(s[k]))] + rest);
    } else {
        assert(want =~= Seq::<(char, bool)>::empty());
    }
}

/// A sanitized text is inert, and loses nothing: with its escapes removed it is
/// the input again, and exactly the special characters were escaped.
pub proof fn law_sanitized_is_inert(s: Seq<char>)
    ensures
        escapes_read(sanitized(s), 0) == Seq::new(s.len(), |i: int| (s[i], is_special(s[i]))),
{
    lemma_escapes_read(s, 0);
    assert(Seq::new((s.len() - 0) as nat, |i: int| (s[0 + i], is_special(s[0 + i]))) =~= Seq::new(
        s.len(),
        |i: int| (s[i], is_special(s[i])),
    ));
}

/// The commands are told apart by their spelling.
proof fn lemma_commands_differ()
    ensures
        ("/help"@ != "/status"@ && "/help"@ != "/restart"@ && "/help"@ != "/kill"@ && "/help"@
            != "/sessions"@ && "/help"@ != "/kill_session"@ && "/help"@ != "/snapshots"@ && "/help"@
            != "/unlock_identity"@ && "/help"@ != "/lock_identity"@),
        ("/status"@ != "/restart"@ && "/status"@ != "/kill"@ && "/status"@ != "/sessions"@
            && "/status"@ != "/kill_session"@ && "/status"@ != "/snapshots"@ && "/status"@
            != "/unlock_identity"@ && "/status"@ != "/lock_identity"@),
        ("/restart"@ != "/kill"@ && "/restart"@ != "/sessions"@ && "/restart"@ != "/kill_session"@
            && "/restart"@ != "/snapshots"@ && "/restart"@ != "/unlock_identity"@ && "/restart"@
            != "/lock_identity"@),
        ("/kill"@ != "/sessions"@ && "/kill"@ != "/kill_session"@ && "/kill"@ != "/snapshots"@
            && "/kill"@ != "/unlock_identity"@ && "/kill"@ != "/lock_identity"@),
        ("/sessions"@ != "/kill_session"@ && "/sessions"@ != "/snapshots"@ && "/sessions"@
            != "/unlock_identity"@ && "/sessions"@ != "/lock_identity"@),
        ("/kill_session"@ != "/snapshots"@ && "/kill_session"@ != "/unlock_identity"@
            && "/kill_session"@ != "/lock_identity"@),
        ("/snapshots"@ != "/unlock_identity"@ && "/snapshots"@ != "/lock_identity"@),
        "/unlock_identity"@ != "/lock_identity"@,
{
    reveal_strlit("/help");
    reveal_strlit("/status");
    reveal_strlit("/restart");
    reveal_strlit("/kill");
    reveal_strlit("/sessions");
    reveal_strlit("/kill_session");
    reveal_strlit("/snapshots");
    reveal_strlit("/unlock_identity");
    reveal_strlit("/lock_identity");
    assert("/help"@[1] == 'h' && "/status"@[1] == 's' && "/restart"@[1] == 'r' && "/kill"@[1] == 'k'
        && "/sessions"@[1] == 's' && "/kill_session"@[1] == 'k' && "/snapshots"@[1] == 's'
        && "/unlock_identity"@[1] == 'u' && "/lock_identity"@[1] == 'l');
    assert("/status"@[2] == 't' && "/sessions"@[2] == 'e' && "/snapshots"@[2] == 'n');
    assert("/kill"@.len() != "/kill_session"@.len());
}

/// The commands that reach the gateway or the identity files.
pub open spec fn intervenes(cmd: Seq<char>) -> bool {
    ||| cmd == "/restart"@
    ||| cmd == "/kill"@
    ||| cmd == "/kill_session"@
    ||| cmd == "/unlock_identity"@
    ||| cmd == "/lock_identity"@
}

/// A command that intervenes is handed on under its own name, without the slash,
/// for its sender; the one that kills a session names the session, and without
/// one it is not handed on. No other command hands anything on.
pub proof fn law_commands_are_handed_on(
    cmd: Seq<char>,
    parts: Seq<Seq<char>>,
    user: Seq<char>,
    status: Seq<char>,
)
    ensures
        intervenes(cmd) && (cmd == "/kill_session"@ ==> parts.len() >= 2) ==> replies(
            cmd,
            parts,
            user,
            status,
        ).last() == ActionView::Queue(
            CommandView {
                action: cmd.skip(1),
                user,
                args: if cmd == "/kill_session"@ {
                    seq![("session_id"@, parts[1])]
                } else {
                    Seq::empty()
                },
            },
        ),
        forall|i: int|
            0 <= i < replies(cmd, parts, user, status).len() && (#[trigger] replies(
                cmd,
                parts,
                user,
                status,
            )[i]) is Queue ==> intervenes(cmd) && i == replies(cmd, parts, user, status).len() - 1
                && (cmd == "/kill_session"@ ==> parts.len() >= 2),
{
    lemma_commands_differ();
    reveal_strlit("/restart");
    reveal_strlit("restart");
    reveal_strlit("/kill");
    reveal_strlit("kill");
    reveal_strlit("/kill_session");
    reveal_strlit("kill_session");
    reveal_strlit("/unlock_identity");
    reveal_strlit("unlock_identity");
    reveal_strlit("/lock_identity");
    reveal_strlit("lock_identity");
    assert("/restart"@.skip(1) =~= "restart"@);
    assert("/kill"@.skip(1) =~= "kill"@);
    assert("/kill_session"@.skip(1) =~= "kill_session"@);
    assert("/unlock_identity"@.skip(1) =~= "unlock_identity"@);
    assert("/lock_identity"@.skip(1) =~= "lock_identity"@);
}

/// Every command is answered: one that asks for a list, the help or the status
/// with just that, one that intervenes with a message before it is handed on,
/// except for a lock, and any other with a single message.
pub proof fn law_commands_are_answered(
    cmd: Seq<char>,
    parts: Seq<Seq<char>>,
    user: Seq<char>,
    status: Seq<char>,
)
    ensures
        ({
            let r = replies(cmd, parts, user, status);
            &&& r.len() >= 1
            &&& r[0] == ActionView::ListSessions <==> cmd == "/sessions"@
            &&& r[0] == ActionView::ListSnapshots <==> cmd == "/snapshots"@
            &&& cmd == "/status"@ ==> r == seq![ActionView::Send(status)]
            &&& cmd == "/help"@ ==> r == seq![ActionView::Send(HELP@)]
            &&& r[0] is Send <==> cmd != "/sessions"@ && cmd != "/snapshots"@ && cmd
                != "/lock_identity"@
            &&& r.len() == 2 <==> cmd != "/lock_identity"@ && intervenes(cmd) && (cmd
                == "/kill_session"@ ==> parts.len() >= 2)
        }),
{
    lemma_commands_differ();
}

/// Rate-limited is every command that intervenes, but for the one that locks.
pub proof fn law_interventions_are_limited(cmd: Seq<char>)
    ensures
        destructive(cmd) <==> intervenes(cmd) && cmd != "/lock_identity"@,
{
    lemma_commands_differ();
}

/// A minute after the last destructive command, or without one, the next is let
/// through, and starts the minute anew; before that it is held back.
pub proof fn law_one_destructive_command_a_minute(
    last: Option<Timestamp>,
    cmd: Seq<char>,
    parts: Seq<Seq<char>>,
    user: Seq<char>,
    status: Seq<char>,
    now: Timestamp,
)
    requires
        destructive(cmd),
    ensures
        ({
            let (next, actions) = commanded(last, cmd, parts, user, status, now);
            let nanos = (now.secs - last->0.secs) * 1_000_000_000 + (now.nanos - last->0.nanos);
            &&& last is None || nanos >= 60_000_000_000 ==> next == Some(now) && actions == replies(
                cmd,
                parts,
                user,
                status,
            )
            &&& last is Some && nanos < 60_000_000_000 ==> next == last && actions.len() == 1
                && actions[0] is Send
        }),
{
}

/// The updates of one answer are handled one by one, in order: an answer that is
/// cut in two gives what the two parts give one after the other.
pub proof fn law_updates_are_handled_in_turn(
    chat_id: Seq<char>,
    offset: i64,
    last: Option<Timestamp>,
    first: Seq<Tree>,
    second: Seq<Tree>,
    status: Seq<char>,
    now: Timestamp,
    n: int,
)
    requires
        0 <= n <= second.len(),
    ensures
        ({
            let a = handled_all(
                chat_id,
                offset,
                last,
                first,
                status,
                now,
                first.len() as int,
            );
            let b = handled_all(chat_id, a.offset, a.last, second, status, now, n);
            let both = handled_all(
                chat_id,
                offset,
                last,
                first + second,
                status,
                now,
                first.len() + n,
            );
            both.offset == b.offset && both.last == b.last && both.actions == a.actions + b.actions
        }),
    decreases n,
{
    let a = handled_all(chat_id, offset, last, first, status, now, first.len() as int);
    if n > 0 {
        law_updates_are_handled_in_turn(
            chat_id,
            offset,
            last,
            first,
            second,
            status,
            now,
            n - 1,
        );
        let b = handled_all(chat_id, a.offset, a.last, second, status, now, n - 1);
        let more = handled(chat_id, b.last, second[n - 1], status, now).1;
        assert((first + second)[first.len() + n - 1] == second[n - 1]);
        assert(a.actions + b.actions + more =~= a.actions + (b.actions + more));
    } else {
        lemma_longer_list(
            chat_id,
            offset,
            last,
            first,
            second,
            status,
            now,
            first.len() as int,
        );
        assert(a.actions + Seq::<ActionView>::empty() =~= a.actions);
    }
}

/// What follows a list does not change what its beginning gives.
proof fn lemma_longer_list(
    chat_id: Seq<char>,
    offset: i64,
    last: Option<Timestamp>,
    first: Seq<Tree>,
    second: Seq<Tree>,
    status: Seq<char>,
    now: Timestamp,
    n: int,
)
    requires
        0 <= n <= first.len(),
    ensures
        handled_all(chat_id, offset, last, first + second, status, now, n) == handled_all(
            chat_id,
            offset,
            last,
            first,
            status,
            now,
            n,
        ),
    decreases n,
{
    if n > 0 {
        lemma_longer_list(chat_id, offset, last, first, second, status, now, n - 1);
        assert((first + second)[n - 1] == first[n - 1]);
    }
}

/// An update is confirmed by the number behind its own, whatever came of it, so
/// that it is not delivered again; and it leads to what it asks for, once.
pub proof fn law_updates_are_confirmed(
    chat_id: Seq<char>,
    offset: i64,
    last: Option<Timestamp>,
    update: Tree,
    id: Tree,
    number: i64,
    status: Seq<char>,
    now: Timestamp,
)
    requires
        update.member("update_id"@) == Some(id),
        id.kind == TreeKind::Number(Some(number)),
        number < i64::MAX,
    ensures
        ({
            let h = handled_all(chat_id, offset, last, seq![update], status, now, 1);
            &&& h.offset == number + 1
            &&& (h.last, h.actions) == handled(chat_id, last, update, status, now)
        }),
{
    reveal_with_fuel(handled_all, 2);
    assert(handled_all(chat_id, offset, last, seq![update], status, now, 0).actions + handled(
        chat_id,
        last,
        update,
        status,
        now,
    ).1 =~= handled(chat_id, last, update, status, now).1);
}

/// A command from the configured chat is served: a text that begins with a
/// slash, white space aside, is taken for the command that its first word names,
/// and is answered. A text without a slash is not.
pub proof fn law_own_chat_is_served(
    chat_id: Seq<char>,
    last: Option<Timestamp>,
    update: Tree,
    m: Tree,
    text: Seq<char>,
    chat: Tree,
    id: Tree,
    status: Seq<char>,
    now: Timestamp,
)
    requires
        update.member("message"@) == Some(m),
        m.member("text"@) matches Some(t) && t.kind == TreeKind::Text(text),
        m.member("chat"@) == Some(chat),
        chat.member("id"@) == Some(id),
        id.text == chat_id,
        chat_id.len() > 0,
        chat_id[0] != '"',
        chat_id.last() != '"',
    ensures
        ({
            let t = trim_white(text);
            let (next, actions) = handled(chat_id, last, update, status, now);
            if t.len() > 0 && t[0] == '/' {
                &&& actions.len() >= 1
                &&& exists|user: Seq<char>|
                    (next, actions) == #[trigger] commanded(
                        last,
                        command_of(t),
                        words(t),
                        user,
                        status,
                        now,
                    )
            } else {
                next == last && actions.len() == 0
            }
        }),
{
    reveal_strlit("/");
    crate::util::text::lemma_nothing_to_trim(chat_id, Class::Is('"'));
    let t = trim_white(text);
    assert(message_of(update) matches Some(v) && v.text == t && v.chat == chat_id);
    let user = sanitized((message_of(update)->0).user);
    if t.len() > 0 {
        assert(t.subrange(0, 1)[0] == t[0]);
        if t[0] == '/' {
            assert(t.subrange(0, 1) =~= "/"@);
        }
    }
    law_commands_are_answered(command_of(t), words(t), user, status);
}

/// A command may name the bot behind an `@`, which makes no difference.
pub proof fn law_bot_name_is_dropped(word: Seq<char>, bot: Seq<char>)
    requires
        forall|i: int| 0 <= i < word.len() ==> #[trigger] word[i] != '@',
    ensures
        before_at(word) == word,
        before_at(word.push('@') + bot) == word,
{
    crate::util::text::lemma_upto_is(word, Class::Is('@'), 0, word.len() as int);
    assert(word.take(word.len() as int) =~= word);
    let long = word.push('@') + bot;
    assert forall|j: int| 0 <= j < word.len() implies !Class::Is('@').holds(#[trigger] long[j]) by {
        assert(word[j] != '@');
    }
    assert(long[word.len() as int] == '@');
    crate::util::text::lemma_upto_is(long, Class::Is('@'), 0, word.len() as int);
    assert(long.take(word.len() as int) =~= word);
}

/// An answer brings updates exactly where it is short enough, is JSON, and says
/// that it went well; they are then its result.
pub proof fn law_only_good_answers_count(text: Seq<char>, bytes: nat, max_bytes: nat)
    ensures
        polled(text, bytes, max_bytes) is Some ==> bytes <= max_bytes && json_tree(text) is Some
            && ((json_tree(text)->0).member("ok"@) matches Some(ok) && ok.kind == TreeKind::Bool(
            true,
        )) && polled(text, bytes, max_bytes) == (json_tree(text)->0).member("result"@),
        bytes <= max_bytes && (json_tree(text) matches Some(t) && (t.member("ok"@) matches Some(ok)
            && ok.kind == TreeKind::Bool(true)) && t.member("result"@) is Some) ==> polled(
            text,
            bytes,
            max_bytes,
        ) is Some,
{
}

/// A list of sessions shows them in the order in which the gateway reports them,
/// the first twenty at most, under a heading with their number; each line shows
/// the session's own name.
pub proof fn law_sessions_are_listed(data: Tree, v: Seq<Tree>)
    requires
        data.kind == TreeKind::Array(v) || (data.kind is Object && (data.member("sessions"@) matches Some(m)
            && m.kind == TreeKind::Array(v))),
    ensures
        v.len() == 0 ==> session_list(data) == "No active sessions."@,
        v.len() > 0 ==> exists|ls: Seq<Seq<char>>|
            session_list(data) == "*Active Sessions ("@ + decimal(v.len()) + ")*\n"@
                + #[trigger] joined(ls, "\n"@) && ls.len() == (if v.len() < 20 {
                v.len()
            } else {
                20
            }) && forall|i: int| 0 <= i < ls.len() ==> #[trigger] ls[i] == session_line(v[i]),
        forall|s: Tree, id: Seq<char>|
            s.member("id"@) is Some && (s.member("id"@)->0).kind == TreeKind::Text(id)
                ==> #[trigger] begins(session_line(s), "`"@ + id + "`"@),
{
    if v.len() > 0 {
        let n = if v.len() < 20 {
            v.len() as int
        } else {
            20
        };
        let ls = session_lines(v, n);
        assert(session_list(data) == "*Active Sessions ("@ + decimal(v.len()) + ")*\n"@ + joined(
            ls,
            "\n"@,
        ));
    }
    assert forall|s: Tree, id: Seq<char>|
        s.member("id"@) is Some && (s.member("id"@)->0).kind == TreeKind::Text(
            id,
        ) implies #[trigger] begins(session_line(s), "`"@ + id + "`"@) by {
        let head = "`"@ + id + "`"@;
        assert(session_line(s).subrange(0, head.len() as int) =~= head);
    }
}

/// Exactly the characters that format a message are special.
pub proof fn law_markup_is_special(c: char)
    ensures
        is_special(c) <==> seq!['\\', '`', '*', '_', '[', ']', '(', ')'].contains(c),
{
    let m = seq!['\\', '`', '*', '_', '[', ']', '(', ')'];
    assert(m[0] == '\\' && m[1] == '`' && m[2] == '*' && m[3] == '_' && m[4] == '[' && m[5] == ']'
        && m[6] == '(' && m[7] == ')');
}

/// No more than the five newest snapshots are listed, each with its size in
/// kilobytes; without any, that is said.
pub proof fn law_five_snapshots_are_listed(sorted: Seq<(String, u64)>, i: int)
    requires
        0 <= i < sorted.len(),
        i < 5,
    ensures
        ({
            let n = if sorted.len() < 5 {
                sorted.len() as int
            } else {
                5
            };
            let shown = snapshot_lines(sorted, n);
            &&& snapshot_list(sorted) == "*Recent Snapshots*\n"@ + joined(shown, "\n"@)
            &&& shown[i] == "`"@ + sorted[i].0@ + "` ("@ + decimal((sorted[i].1 / 1024) as nat)
                + "KB)"@
        }),
{
}

/// Of the files, exactly the finished snapshots of the main database are
/// listed, each once.
pub proof fn law_snapshots_are_picked(files: Seq<(String, u64)>, f: (String, u64))
    ensures
        main_snapshot(f.0@) ==> main_snapshots(files.push(f), files.len() as int + 1)
            == main_snapshots(files, files.len() as int).push(f),
        !main_snapshot(f.0@) ==> main_snapshots(files.push(f), files.len() as int + 1)
            == main_snapshots(files, files.len() as int),
{
    lemma_main_snapshots_in_longer(files, f, files.len() as int);
}

/// What follows does not change what is picked before.
proof fn lemma_main_snapshots_in_longer(files: Seq<(String, u64)>, f: (String, u64), n: int)
    requires
        0 <= n <= files.len(),
    ensures
        main_snapshots(files.push(f), n) == main_snapshots(files, n),
    decreases n,
{
    if n > 0 {
        lemma_main_snapshots_in_longer(files, f, n - 1);
        assert(files.push(f)[n - 1] == files[n - 1]);
    }
}

/// A session is shown by its ID, under either name, with its status and the time
/// of its start behind it where they are known.
pub proof fn law_session_is_shown_by_its_id(
    s: Tree,
    id: Seq<char>,
    status: Seq<char>,
    created: Seq<char>,
)
    requires
        string_member(s, "id"@) == Some(id) || (s.member("id"@) is None && string_member(
            s,
            "session_id"@,
        ) == Some(id)),
    ensures
        s.member("status"@) is None && s.member("state"@) is None && s.member("created"@) is None
            && s.member("started_at"@) is None ==> session_line(s) == "`"@ + id + "`"@,
        string_member(s, "status"@) == Some(status) && status.len() > 0 && s.member("created"@)
            is None && s.member("started_at"@) is None ==> session_line(s) == "`"@ + id + "`"@
            + " ["@ + status + "]"@,
        string_member(s, "status"@) == Some(status) && status.len() > 0 && string_member(
            s,
            "created"@,
        ) == Some(created) && created.len() > 0 ==> session_line(s) == "`"@ + id + "`"@ + " ["@
            + status + "]"@ + " ("@ + created + ")"@,
{
}

/// A request that sends a text goes to the method that sends messages, and its
/// body holds the chat, the text and how it is formatted.
pub proof fn law_request_sends_one_text(
    r: Request,
    base_url: Seq<char>,
    chat_id: Seq<char>,
    text: Seq<char>,
)
    requires
        r.sends(base_url, chat_id, text),
    ensures
        r.url@ == base_url + "/sendMessage"@,
        r.body@ == object_text(
            seq![
                ("chat_id"@, FieldView::Text(chat_id)),
                ("text"@, FieldView::Text(text)),
                ("parse_mode"@, FieldView::Text("Markdown"@)),
            ],
        ),
{
}

} // verus!
