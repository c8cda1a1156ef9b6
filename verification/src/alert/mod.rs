//! Alerts: what the audit log and the Telegram chat get to read.

use crate::config::Config;
use crate::daemon::telegram::{api_url, send_telegram_message, Request};
use crate::util::calendar::{civil, civil_of};
use crate::util::path::{join_path, joined_path};
use crate::util::text::same;
use crate::util::time_fmt::now_epoch;
use vstd::prelude::*;

verus! {

/// What an alert leads to: a line in the audit log, and a request to the
/// Telegram API where a bot token is configured.
pub struct Dispatch {
    pub log_path: String,
    pub line: String,
    pub request: Option<Request>,
}

/// The path of the audit log: `vault_dir/audit/alerts.log`.
pub open spec fn audit_log(vault_dir: Seq<char>) -> Seq<char> {
    joined_path(joined_path(vault_dir, "audit"@), "alerts.log"@)
}

/// A line of the audit log: `YYYY-MM-DDTHH:MM:SSZ [LEVEL] message`.
pub open spec fn audit_line(time: Seq<char>, level: Seq<char>, message: Seq<char>) -> Seq<char> {
    time + " ["@ + level + "] "@ + message + "\n"@
}

/// The text that the chat gets to read.
pub open spec fn chat_text(level: Seq<char>, message: Seq<char>) -> Seq<char> {
    (if level == "CRITICAL"@ {
        "[CRITICAL]"@
    } else if level == "WARNING"@ {
        "[WARNING]"@
    } else if level == "INFO"@ {
        "[INFO]"@
    } else {
        "[ALERT]"@
    }) + " "@ + message
}

/// Send an alert at the time `secs` (seconds since the epoch): log locally and
/// (optionally) to Telegram.
///
/// This is the primary alert entry point used throughout the daemon.
pub fn send_alert(level: &str, message: &str, cfg: &Config, secs: u64) -> (r: Dispatch)
    ensures
        r.log_path@ == audit_log(cfg.vault_dir@),
        r.line@ == audit_line(civil(secs as nat).iso(), level@, message@),
        r.request is Some <==> cfg.tg_token@.len() > 0,
        r.request matches Some(q) ==> q.sends(
            api_url(cfg.tg_token@),
            cfg.tg_chat@,
            chat_text(level@, message@),
        ),
{
    // Always log locally
    let (log_path, line) = log_to_audit(level, message, cfg.vault_dir.as_str(), secs);
    // Send to Telegram if token is available
    let request = if !cfg.tg_token.as_str().is_empty() {
        Some(send_telegram(level, message, cfg.tg_token.as_str(), cfg.tg_chat.as_str()))
    } else {
        None
    };
    Dispatch { log_path, line, request }
}

/// The line to append to the audit log at the time `secs`, and the log's path.
///
/// Format: `YYYY-MM-DDTHH:MM:SSZ [LEVEL] message`
/// Path:   `vault_dir/audit/alerts.log`
pub fn log_to_audit(level: &str, message: &str, vault_dir: &str, secs: u64) -> (r: (String, String))
    ensures
        r.0@ == audit_log(vault_dir@),
        r.1@ == audit_line(civil(secs as nat).iso(), level@, message@),
{
    let audit_dir = join_path(vault_dir, "audit");
    let path = join_path(audit_dir.as_str(), "alerts.log");
    let mut line = epoch_to_iso(secs);
    line.append(" [");
    line.append(level);
    line.append("] ");
    line.append(message);
    line.append("\n");
    (path, line)
}

/// The request that sends an alert message to Telegram.
///
/// Uses the `sendMessage` API with Markdown formatting.
pub fn send_telegram(level: &str, message: &str, token: &str, chat_id: &str) -> (r: Request)
    ensures
        r.sends(api_url(token@), chat_id@, chat_text(level@, message@)),
{
    let icon = if same(level, "CRITICAL") {
        "[CRITICAL]"
    } else if same(level, "WARNING") {
        "[WARNING]"
    } else if same(level, "INFO") {
        "[INFO]"
    } else {
        "[ALERT]"
    };
    let mut text = icon.to_owned();
    text.append(" ");
    text.append(message);
    send_telegram_message(token, chat_id, text.as_str())
}

/// Format the current UTC time as ISO 8601.
///
/// Output: `YYYY-MM-DDTHH:MM:SSZ`
pub fn format_utc_now() -> (r: String)
    ensures
        exists|secs: u64| r@ == (#[trigger] civil(secs as nat)).iso(),
{
    let now = now_epoch();
    epoch_to_iso(now.secs)
}

/// Convert epoch seconds to ISO 8601 string.
pub fn epoch_to_iso(secs: u64) -> (r: String)
    ensures
        r@ == civil(secs as nat).iso(),
        civil(secs as nat).valid(),
        civil(secs as nat).epoch() == secs,
{
    civil_of(secs).to_iso()
}

/// The level is shown in brackets in front of the message, for each of the three
/// levels; the message is never changed.
pub proof fn law_level_is_shown(level: Seq<char>, message: Seq<char>)
    ensures
        level == "CRITICAL"@ || level == "WARNING"@ || level == "INFO"@ ==> chat_text(
            level,
            message,
        ) == "["@ + level + "] "@ + message,
        chat_text(level, message).skip(chat_text(level, message).len() - message.len()) == message,
{
    reveal_strlit("CRITICAL");
    reveal_strlit("WARNING");
    reveal_strlit("INFO");
    reveal_strlit("[CRITICAL]");
    reveal_strlit("[WARNING]");
    reveal_strlit("[INFO]");
    reveal_strlit("[ALERT]");
    reveal_strlit("[");
    reveal_strlit("] ");
    reveal_strlit(" ");
    let text = chat_text(level, message);
    if level == "CRITICAL"@ || level == "WARNING"@ || level == "INFO"@ {
        assert("CRITICAL"@.len() == 8 && "WARNING"@.len() == 7 && "INFO"@.len() == 4);
        assert(text =~= "["@ + level + "] "@ + message);
    }
    assert(text.skip(text.len() - message.len()) =~= message);
}

} // verus!
