//! Identity file immutability management.

use crate::platform::command::{command, line, strs, CommandLine};
use crate::util::text::{decimal, join, joined, show, views};
use crate::util::time_fmt::{monotonic_now, Timestamp};
use vstd::prelude::*;

verus! {

/// The well-known identity files (relative to workspace).
pub open spec fn identity_names() -> Seq<Seq<char>> {
    seq!["SOUL.md"@, "AGENTS.md"@, "USER.md"@]
}

/// The well-known identity files (relative to workspace).
pub fn identity_files() -> (r: Vec<String>)
    ensures
        views(r@) == identity_names(),
{
    let r = vec!["SOUL.md".to_owned(), "AGENTS.md".to_owned(), "USER.md".to_owned()];
    assert(views(r@) =~= identity_names());
    r
}

/// The exit code and the closing message of `outerclaw identity lock|unlock`,
/// where `errors` files could not be changed.
pub open spec fn run_result(immutable: bool, errors: nat) -> (int, Seq<char>) {
    if errors > 0 {
        (1, decimal(errors) + " file(s) failed"@)
    } else if immutable {
        (0, "Identity files locked successfully"@)
    } else {
        (0, "Identity files unlocked successfully"@)
    }
}

/// CLI subcommand: lock or unlock identity files. The exit code and the
/// closing message, where `errors` files could not be changed.
pub fn run(immutable: bool, errors: u64) -> (r: (i32, String))
    ensures
        (r.0 as int, r.1@) == run_result(immutable, errors as nat),
{
    if errors > 0 {
        let mut m = show(errors);
        m.append(" file(s) failed");
        (1, m)
    } else if immutable {
        (0, "Identity files locked successfully".to_owned())
    } else {
        (0, "Identity files unlocked successfully".to_owned())
    }
}

/// How long an unlock by the command lasts, in seconds.
pub const UNLOCK_SECS: u64 = 600;

/// What the shell runs to lock the identity files again: it waits, then calls
/// the program that it is given.
pub open spec fn relock_script() -> Seq<char> {
    "sleep "@ + decimal(UNLOCK_SECS as nat) + "; exec \"$0\" identity lock"@
}

/// The command to leave running in the background after `outerclaw identity
/// lock|unlock`: an unlock is temporary, so it is locked again by `program`
/// after `UNLOCK_SECS`, whether or not every file could be unlocked. A lock
/// leaves nothing.
pub fn relock_command(immutable: bool, program: &str) -> (r: Option<CommandLine>)
    ensures
        r is Some <==> !immutable,
        r matches Some(c) ==> c@ == line("sh"@, seq!["-c"@, relock_script(), program@]),
{
    if immutable {
        return None;
    }
    let mut script = "sleep ".to_owned();
    script.append(show(UNLOCK_SECS).as_str());
    script.append("; exec \"$0\" identity lock");
    let args = vec!["-c", script.as_str(), program];
    assert(strs(args@) =~= seq!["-c"@, relock_script(), program@]);
    Some(command("sh", args))
}

/// In-daemon identity unlock/relock state tracker.
///
/// The daemon calls `unlock()` when a Telegram `/unlock_identity` command
/// arrives, and `check_timeout()` on every tick to auto-relock after
/// `unlock_timeout`.
pub struct IdentityManager {
    /// When identity files were last unlocked, or `None` if locked.
    pub unlocked_at: Option<Timestamp>,
    /// How long to wait before auto-relocking, in seconds.
    pub unlock_timeout: u64,
}

/// `name: error` for each file that could not be changed.
pub open spec fn failure_lines(failures: Seq<(String, String)>) -> Seq<Seq<char>> {
    Seq::new(failures.len(), |i: int| failures[i].0@ + ": "@ + failures[i].1@)
}

/// What an unlock reports.
pub open spec fn unlock_report(
    failures: Seq<(String, String)>,
    source: Seq<char>,
    unlock_timeout: u64,
) -> Seq<char> {
    if failures.len() == 0 {
        "Identity files UNLOCKED ("@ + source + "). Auto-relock in "@ + decimal(
            (unlock_timeout / 60) as nat,
        ) + " minutes."@
    } else {
        "Unlock partially failed: "@ + joined(failure_lines(failures), "; "@)
    }
}

/// What a lock reports.
pub open spec fn lock_report(failures: Seq<(String, String)>, source: Seq<char>) -> Seq<char> {
    if failures.len() == 0 {
        "Identity files LOCKED ("@ + source + ")."@
    } else {
        "Lock partially failed: "@ + joined(failure_lines(failures), "; "@)
    }
}

/// `name: error` for each file that could not be changed.
fn describe(failures: &Vec<(String, String)>) -> (r: Vec<String>)
    ensures
        views(r@) == failure_lines(failures@),
{
    let mut r: Vec<String> = Vec::new();
    let mut i: usize = 0;
    while i < failures.len()
        invariant
            i <= failures@.len(),
            views(r@) =~= failure_lines(failures@).take(i as int),
        decreases failures@.len() - i,
    {
        let mut line = failures[i].0.clone();
        line.append(": ");
        line.append(failures[i].1.as_str());
        let ghost before = views(r@);
        r.push(line);
        assert(views(r@) =~= before.push(failure_lines(failures@)[i as int]));
        i += 1;
    }
    assert(views(r@) =~= failure_lines(failures@));
    r
}

/// The files have been unlocked for the whole timeout.
pub open spec fn timed_out(unlocked_at: Option<Timestamp>, unlock_timeout: u64, now: Timestamp) -> bool {
    match unlocked_at {
        Some(at) => now.since(at) >= unlock_timeout * 1_000_000_000 || unlock_timeout == 0,
        None => false,
    }
}

impl IdentityManager {
    /// Identity files are locked.
    pub fn new(unlock_timeout_secs: u64) -> (r: Self)
        ensures
            r.unlocked_at is None,
            r.unlock_timeout == unlock_timeout_secs,
    {
        IdentityManager { unlocked_at: None, unlock_timeout: unlock_timeout_secs }
    }

    /// Record that the identity files were unlocked at the time `now`, and
    /// start the timeout. `failures` names each existing file that could not
    /// be unlocked, with the reason: the timeout then does not start.
    ///
    /// Returns a human-readable result message.
    pub fn unlock(&mut self, failures: &Vec<(String, String)>, source: &str, now: Timestamp) -> (r:
        String)
        ensures
            r@ == unlock_report(failures@, source@, old(self).unlock_timeout),
            final(self).unlock_timeout == old(self).unlock_timeout,
            final(self).unlocked_at == if failures@.len() == 0 {
                Some(now)
            } else {
                old(self).unlocked_at
            },
    {
        if failures.len() == 0 {
            self.unlocked_at = Some(now);
            let mut m = "Identity files UNLOCKED (".to_owned();
            m.append(source);
            m.append("). Auto-relock in ");
            m.append(show(self.unlock_timeout / 60).as_str());
            m.append(" minutes.");
            m
        } else {
            let mut m = "Unlock partially failed: ".to_owned();
            m.append(join(&describe(failures), "; ").as_str());
            m
        }
    }

    /// Record that the identity files were locked, and clear the timeout.
    /// `failures` names each existing file that could not be locked, with the reason.
    ///
    /// Returns a human-readable result message.
    pub fn lock(&mut self, failures: &Vec<(String, String)>, source: &str) -> (r: String)
        ensures
            r@ == lock_report(failures@, source@),
            final(self).unlock_timeout == old(self).unlock_timeout,
            final(self).unlocked_at is None,
    {
        self.unlocked_at = None;
        if failures.len() == 0 {
            let mut m = "Identity files LOCKED (".to_owned();
            m.append(source);
            m.append(").");
            m
        } else {
            let mut m = "Lock partially failed: ".to_owned();
            m.append(join(&describe(failures), "; ").as_str());
            m
        }
    }

    /// Check whether the unlock timeout has expired at the time `now`.
    ///
    /// Returns `true` if auto-relock is needed (caller should call `lock()`).
    pub fn check_timeout_at(&self, now: Timestamp) -> (r: bool)
        ensures
            r == timed_out(self.unlocked_at, self.unlock_timeout, now),
    {
        match self.unlocked_at {
            Some(at) => !now.less_than(&at, self.unlock_timeout) || self.unlock_timeout == 0,
            None => false,
        }
    }

    /// Check whether the unlock timeout has expired.
    ///
    /// Returns `true` if auto-relock is needed (caller should call `lock()`).
    pub fn check_timeout(&self) -> (r: bool)
        ensures
            exists|now: Timestamp| r == #[trigger] timed_out(
                self.unlocked_at,
                self.unlock_timeout,
                now,
            ),
    {
        let now = monotonic_now();
        self.check_timeout_at(now)
    }

    /// Whether identity files are currently unlocked.
    pub fn is_unlocked(&self) -> (r: bool)
        ensures
            r == (self.unlocked_at is Some),
    {
        self.unlocked_at.is_some()
    }
}

/// Unlocked files do not stay so: once the timeout has passed since the unlock,
/// the check asks for the relock at every later time too.
pub proof fn law_relock_is_asked_for(at: Timestamp, unlock_timeout: u64, now: Timestamp, later: Timestamp)
    requires
        timed_out(Some(at), unlock_timeout, now),
        now.nanoseconds() <= later.nanoseconds(),
    ensures
        timed_out(Some(at), unlock_timeout, later),
{
}

/// The relock is due exactly where the files are unlocked and the timeout has
/// passed since; locked files never are.
pub proof fn law_relock_after_the_timeout(at: Timestamp, unlock_timeout: u64, now: Timestamp)
    ensures
        !timed_out(None, unlock_timeout, now),
        unlock_timeout > 0 ==> (timed_out(Some(at), unlock_timeout, now) <==> (now.secs - at.secs)
            * 1_000_000_000 + (now.nanos - at.nanos) >= unlock_timeout * 1_000_000_000),
        timed_out(Some(at), 0, now),
{
}

/// An unlock by the command lasts ten minutes.
pub proof fn law_command_unlocks_for_ten_minutes()
    ensures
        UNLOCK_SECS == 10 * 60,
        identity_names() == seq!["SOUL.md"@, "AGENTS.md"@, "USER.md"@],
{
}

/// The command succeeds exactly where no file failed, and its words tell a lock
/// from an unlock.
pub proof fn law_command_reports_truly(immutable: bool, errors: nat)
    ensures
        run_result(immutable, errors).0 == 0 <==> errors == 0,
        run_result(immutable, errors).0 == 0 || run_result(immutable, errors).0 == 1,
        run_result(true, 0).1 != run_result(false, 0).1,
{
    reveal_strlit("Identity files locked successfully");
    reveal_strlit("Identity files unlocked successfully");
    assert(run_result(true, 0).1[15] == 'l' && run_result(false, 0).1[15] == 'u');
}

/// The alert on an unlock names who asked for it and the minutes until the
/// relock, and tells a success from a failure, as that on a lock does.
pub proof fn law_reports_tell_minutes_and_failures(
    failures: Seq<(String, String)>,
    source: Seq<char>,
    minutes: u64,
    unlock_timeout: u64,
)
    requires
        minutes * 60 <= unlock_timeout < minutes * 60 + 60,
    ensures
        failures.len() == 0 ==> unlock_report(failures, source, unlock_timeout)
            == "Identity files UNLOCKED ("@ + source + "). Auto-relock in "@ + decimal(
            minutes as nat,
        ) + " minutes."@,
        failures.len() == 0 ==> lock_report(failures, source) == "Identity files LOCKED ("@ + source
            + ")."@,
        unlock_report(failures, source, unlock_timeout)[0] == 'U' <==> failures.len() > 0,
        lock_report(failures, source)[0] == 'L' <==> failures.len() > 0,
{
    reveal_strlit("Identity files UNLOCKED (");
    reveal_strlit("Identity files LOCKED (");
    reveal_strlit("Unlock partially failed: ");
    reveal_strlit("Lock partially failed: ");
}

} // verus!
